use trace::canvas::push_color;
use trace::canvas::push_decimal;
use trace::canvas::sample_of;
use trace::canvas::Canvas;
use trace::color::Color;
use trace::scalar::Scalar;

fn s(value: f64) -> Scalar {
    Scalar::from_raw((value * 1e9).round() as i64)
}

fn color(red: f64, green: f64, blue: f64) -> Color {
    Color::new(s(red), s(green), s(blue))
}

#[test]
fn push_color_starts_a_line_without_a_space() {
    let mut text = String::new();
    let count = push_color(&mut text, "255", 0);
    assert_eq!(count, 3);
    assert_eq!(text, "255");
}

#[test]
fn push_color_puts_a_space_between_tokens() {
    let mut text = String::from("255");
    let count = push_color(&mut text, "0", 3);
    assert_eq!(count, 5);
    assert_eq!(text, "255 0");
}

#[test]
fn push_color_breaks_a_line_that_would_pass_seventy() {
    // 66 + 1 + 3 = 70 still fits.
    let mut text = "x".repeat(66);
    let count = push_color(&mut text, "153", 66);
    assert_eq!(count, 70);
    assert_eq!(text, format!("{} 153", "x".repeat(66)));
    // 67 + 1 + 3 = 71 does not.
    let mut text = "x".repeat(67);
    let count = push_color(&mut text, "153", 67);
    assert_eq!(count, 3);
    assert_eq!(text, format!("{}\n153", "x".repeat(67)));
}

#[test]
fn decimal_numerals() {
    for n in [0usize, 7, 10, 42, 100, 255, 1000, 65_536, 18_446_744_073_709_551_615] {
        let mut text = String::from(">");
        push_decimal(&mut text, n);
        assert_eq!(text, format!(">{}", n));
    }
}

#[test]
fn samples_are_rounded_up_and_kept_in_range() {
    assert_eq!(sample_of(s(0.0)), 0);
    assert_eq!(sample_of(s(1.0)), 255);
    assert_eq!(sample_of(s(0.5)), 128);
    assert_eq!(sample_of(s(0.8)), 204);
    assert_eq!(sample_of(s(0.6)), 153);
    assert_eq!(sample_of(s(1.5)), 255);
    assert_eq!(sample_of(s(-0.5)), 0);
    assert_eq!(sample_of(s(-0.001)), 0);
    assert_eq!(sample_of(Scalar::from_raw(1)), 1);
    assert_eq!(sample_of(Scalar::from_raw(i64::MAX)), 255);
    assert_eq!(sample_of(Scalar::from_raw(i64::MIN)), 0);
}

#[test]
fn new_canvas_is_black() {
    let canvas = Canvas::new(10, 20);
    assert_eq!(canvas.width(), 10);
    assert_eq!(canvas.height(), 20);
    for y in 0..20 {
        for x in 0..10 {
            assert_eq!(canvas.get(x, y), Color::black());
        }
    }
}

#[test]
fn set_writes_one_pixel() {
    let mut canvas = Canvas::new(10, 20);
    let red = color(1.0, 0.0, 0.0);
    canvas.set(2, 3, red);
    assert_eq!(canvas.get(2, 3), red);
    assert_eq!(canvas.get(3, 2), Color::black());
    assert_eq!(canvas.get(1, 3), Color::black());
    canvas.set(9, 19, red);
    assert_eq!(canvas.get(9, 19), red);
    assert_eq!(canvas.width(), 10);
    assert_eq!(canvas.height(), 20);
}

#[test]
fn ppm_of_a_small_canvas() {
    let mut canvas = Canvas::new(5, 3);
    canvas.set(0, 0, color(1.5, 0.0, 0.0));
    canvas.set(2, 1, color(0.0, 0.5, 0.0));
    canvas.set(4, 2, color(-0.5, 0.0, 1.0));
    let ppm = format!(
        "{}\n{}\n{}\n{}\n{}\n{}\n",
        "P3",
        "5 3",
        "255",
        "255 0 0 0 0 0 0 0 0 0 0 0 0 0 0",
        "0 0 0 0 0 0 0 128 0 0 0 0 0 0 0",
        "0 0 0 0 0 0 0 0 0 0 0 0 0 0 255"
    );
    assert_eq!(canvas.to_ppm(), ppm);
}

#[test]
fn ppm_lines_stay_within_seventy() {
    let mut canvas = Canvas::new(10, 2);
    for x in 0..canvas.width() {
        for y in 0..canvas.height() {
            canvas.set(x, y, color(1.0, 0.8, 0.6));
        }
    }
    let ppm = format!(
        "{}\n{}\n{}\n{}\n{}\n{}\n{}\n",
        "P3",
        "10 2",
        "255",
        "255 204 153 255 204 153 255 204 153 255 204 153 255 204 153 255 204",
        "153 255 204 153 255 204 153 255 204 153 255 204 153",
        "255 204 153 255 204 153 255 204 153 255 204 153 255 204 153 255 204",
        "153 255 204 153 255 204 153 255 204 153 255 204 153"
    );
    assert_eq!(canvas.to_ppm(), ppm);
    assert!(canvas.to_ppm().lines().all(|line| line.len() <= 70));
}

#[test]
fn ppm_of_an_empty_canvas() {
    assert_eq!(Canvas::new(0, 0).to_ppm(), "P3\n0 0\n255\n");
    assert_eq!(Canvas::new(0, 2).to_ppm(), "P3\n0 2\n255\n\n\n");
    assert_eq!(Canvas::new(3, 0).to_ppm(), "P3\n3 0\n255\n");
}
