//! The grid of colours that rendering fills, and its text form.

use crate::color::Color;
use crate::scalar::Scalar;
use vstd::prelude::*;
use vstd::string::*;

verus! {

/// Longest line, in bytes, that the text form of an image may hold.
pub const MAX_LINE: usize = 70;

/// What `push_color` appends to the text: the token alone at the start of a
/// line, a line break and the token where the line would grow past
/// `MAX_LINE`, a space and the token otherwise.
pub open spec fn pushed_text(color: Seq<char>, bytes: nat, count: nat) -> Seq<char> {
    if count == 0 {
        color
    } else if count + 1 + bytes > MAX_LINE {
        seq!['\n'] + color
    } else {
        seq![' '] + color
    }
}

/// Length of the current line after `push_color`.
pub open spec fn pushed_count(bytes: nat, count: nat) -> nat {
    if count == 0 || count + 1 + bytes > MAX_LINE {
        bytes
    } else {
        count + 1 + bytes
    }
}

/// Appends one token to the text whose current line holds `count` bytes, and
/// returns the new length of the current line. A line that is within
/// `MAX_LINE` stays within it, whatever token of at most `MAX_LINE` bytes is
/// added.
pub fn push_color(ppm: &mut String, color: &str, count: usize) -> (r: usize)
    ensures
        final(ppm)@ == old(ppm)@ + pushed_text(color@, color.spec_bytes().len(), count as nat),
        r == pushed_count(color.spec_bytes().len(), count as nat),
        count <= MAX_LINE && color.spec_bytes().len() <= MAX_LINE ==> r <= MAX_LINE,
{
    let n: usize = color.as_bytes().len();
    proof {
        reveal_strlit("\n");
        reveal_strlit(" ");
    }
    if count == 0 {
        ppm.append(color);
        n
    } else if count >= MAX_LINE || n > MAX_LINE - 1 - count {
        ppm.append("\n");
        ppm.append(color);
        assert(ppm@ =~= old(ppm)@ + (seq!['\n'] + color@));
        n
    } else {
        ppm.append(" ");
        ppm.append(color);
        assert(ppm@ =~= old(ppm)@ + (seq![' '] + color@));
        count + 1 + n
    }
}

/// The character of the decimal digit `d`.
pub open spec fn digit(d: nat) -> char {
    if d == 0 {
        '0'
    } else if d == 1 {
        '1'
    } else if d == 2 {
        '2'
    } else if d == 3 {
        '3'
    } else if d == 4 {
        '4'
    } else if d == 5 {
        '5'
    } else if d == 6 {
        '6'
    } else if d == 7 {
        '7'
    } else if d == 8 {
        '8'
    } else {
        '9'
    }
}

/// The decimal numeral of `n`, without leading zeros.
pub open spec fn decimal(n: nat) -> Seq<char>
    decreases n,
{
    if n < 10 {
        seq![digit(n)]
    } else {
        decimal(n / 10).push(digit(n % 10))
    }
}

/// A numeral holds digits only, and at least one.
pub proof fn lemma_decimal_ascii(n: nat)
    ensures
        decimal(n).len() >= 1,
        forall|i: int| 0 <= i < decimal(n).len() ==> '0' <= #[trigger] decimal(n)[i] <= '9',
        n < 1000 ==> decimal(n).len() <= 3,
    decreases n,
{
    if n >= 10 {
        lemma_decimal_ascii(n / 10);
        if n < 1000 {
            assert(decimal(n / 10).len() <= 2) by {
                if n / 10 >= 10 {
                    assert(decimal(n / 10) == decimal(n / 10 / 10).push(digit((n / 10) % 10)));
                    assert(n / 10 / 10 < 10);
                }
            }
        }
    }
}

/// Appends the decimal numeral of `n` to the text.
pub fn push_decimal(out: &mut String, n: usize)
    ensures
        final(out)@ == old(out)@ + decimal(n as nat),
    decreases n,
{
    if n >= 10 {
        push_decimal(out, n / 10);
    }
    let d: usize = n % 10;
    proof {
        reveal_strlit("0");
        reveal_strlit("1");
        reveal_strlit("2");
        reveal_strlit("3");
        reveal_strlit("4");
        reveal_strlit("5");
        reveal_strlit("6");
        reveal_strlit("7");
        reveal_strlit("8");
        reveal_strlit("9");
    }
    let text = if d == 0 {
        "0"
    } else if d == 1 {
        "1"
    } else if d == 2 {
        "2"
    } else if d == 3 {
        "3"
    } else if d == 4 {
        "4"
    } else if d == 5 {
        "5"
    } else if d == 6 {
        "6"
    } else if d == 7 {
        "7"
    } else if d == 8 {
        "8"
    } else {
        "9"
    };
    assert(text@ =~= seq![digit(d as nat)]);
    out.append(text);
    assert(out@ =~= old(out)@ + decimal(n as nat));
}

/// The sample, from 0 to 255, that stands for the amount `value` of light:
/// 255 times the amount, rounded up, and kept within the range.
pub open spec fn sample(value: Scalar) -> nat {
    let scaled = value.times(Scalar::from_int(255)).ceil_int();
    if scaled < 0 {
        0
    } else if scaled > 255 {
        255
    } else {
        scaled as nat
    }
}

/// The sample that stands for the amount `value` of light.
pub fn sample_of(value: Scalar) -> (s: usize)
    ensures
        s == sample(value),
        s <= 255,
{
    let scaled: i64 = (value * Scalar::from_int(255)).ceil_int();
    if scaled < 0 {
        0
    } else if scaled > 255 {
        255
    } else {
        scaled as usize
    }
}

/// The sample of channel `k` of `color`: red, green, blue.
pub open spec fn channel(color: Color, k: int) -> nat {
    if k == 0 {
        sample(color.red)
    } else if k == 1 {
        sample(color.green)
    } else {
        sample(color.blue)
    }
}

/// The numerals of row `y` of an image `width` wide: three for each pixel.
pub open spec fn row_tokens(pixels: Seq<Color>, width: nat, y: nat) -> Seq<Seq<char>> {
    Seq::new(3 * width, |i: int| decimal(channel(pixels[y * width + i / 3], i % 3)))
}

/// The length of the current line after the first `k` of `tokens` are laid
/// out.
pub open spec fn laid_count(tokens: Seq<Seq<char>>, k: nat) -> nat
    decreases k,
{
    if k == 0 {
        0
    } else {
        pushed_count(tokens[k - 1].len(), laid_count(tokens, (k - 1) as nat))
    }
}

/// The text of the first `k` of `tokens`, laid out from the start of a
/// line: spaces between them, and a line break wherever the next token
/// would take the line past `MAX_LINE`.
pub open spec fn laid_text(tokens: Seq<Seq<char>>, k: nat) -> Seq<char>
    decreases k,
{
    if k == 0 {
        Seq::empty()
    } else {
        laid_text(tokens, (k - 1) as nat) + pushed_text(
            tokens[k - 1],
            tokens[k - 1].len(),
            laid_count(tokens, (k - 1) as nat),
        )
    }
}

/// The text of the first `rows` rows of an image: each row laid out, then a
/// line break.
pub open spec fn rows_text(pixels: Seq<Color>, width: nat, rows: nat) -> Seq<char>
    decreases rows,
{
    if rows == 0 {
        Seq::empty()
    } else {
        rows_text(pixels, width, (rows - 1) as nat) + laid_text(
            row_tokens(pixels, width, (rows - 1) as nat),
            3 * width,
        ) + seq!['\n']
    }
}

/// The head of the text form: the format, the size, the largest sample.
pub open spec fn header_text(width: nat, height: nat) -> Seq<char> {
    seq!['P', '3', '\n'] + decimal(width) + seq![' '] + decimal(height) + seq!['\n'] + seq![
        '2',
        '5',
        '5',
        '\n',
    ]
}

/// The text form of an image: the head, then the rows.
pub open spec fn ppm_text(pixels: Seq<Color>, width: nat, height: nat) -> Seq<char> {
    header_text(width, height) + rows_text(pixels, width, height)
}

/// A grid of colours, `width` wide and `height` high.
pub struct Canvas {
    width: usize,
    height: usize,
    array: Vec<Color>,
}

impl View for Canvas {
    type V = Seq<Color>;

    /// The pixels, row by row.
    closed spec fn view(&self) -> Seq<Color> {
        self.array@
    }
}

impl Canvas {
    #[verifier::type_invariant]
    spec fn well_formed(&self) -> bool {
        self.array@.len() == self.width * self.height
    }

    pub closed spec fn width_spec(&self) -> usize {
        self.width
    }

    pub closed spec fn height_spec(&self) -> usize {
        self.height
    }

    /// The number of pixels in a row.
    #[verifier::when_used_as_spec(width_spec)]
    pub fn width(&self) -> (w: usize)
        ensures
            w == self.width_spec(),
    {
        self.width
    }

    /// The number of rows.
    #[verifier::when_used_as_spec(height_spec)]
    pub fn height(&self) -> (h: usize)
        ensures
            h == self.height_spec(),
    {
        self.height
    }

    /// A canvas whose pixels are all black.
    pub fn new(width: usize, height: usize) -> (c: Canvas)
        requires
            width * height <= usize::MAX,
        ensures
            c.width() == width,
            c.height() == height,
            c@ == Seq::new((width * height) as nat, |i: int| Color::black()),
    {
        let total: usize = width * height;
        let mut array: Vec<Color> = Vec::new();
        let mut i: usize = 0;
        while i < total
            invariant
                i <= total,
                array@.len() == i,
                forall|k: int| 0 <= k < i ==> array@[k] == Color::black(),
            decreases total - i,
        {
            array.push(Color::black());
            i = i + 1;
        }
        assert(array@ =~= Seq::new((width * height) as nat, |i: int| Color::black()));
        Canvas { width, height, array }
    }

    /// The pixel in column `x` of row `y`.
    pub fn get(&self, x: usize, y: usize) -> (c: Color)
        requires
            x < self.width(),
            y < self.height(),
        ensures
            c == self@[y * self.width() + x],
            self@.len() == self.width() * self.height(),
    {
        let total: usize = self.array.len();
        proof {
            use_type_invariant(self);
            lemma_cell_in_grid(x as int, y as int, self.width as int, self.height as int);
        }
        self.array[y * self.width + x]
    }

    /// Sets the pixel in column `x` of row `y`.
    pub fn set(&mut self, x: usize, y: usize, color: Color)
        requires
            x < old(self).width(),
            y < old(self).height(),
        ensures
            final(self).width() == old(self).width(),
            final(self).height() == old(self).height(),
            final(self)@ == old(self)@.update(y * old(self).width() + x, color),
            old(self)@.len() == old(self).width() * old(self).height(),
    {
        let total: usize = self.array.len();
        proof {
            use_type_invariant(&*self);
            lemma_cell_in_grid(x as int, y as int, self.width as int, self.height as int);
        }
        let index: usize = y * self.width + x;
        self.array[index] = color;
    }

    /// The image as text: the format `P3`, the size, the largest sample 255,
    /// then the samples of each row, with no line past `MAX_LINE`.
    #[verifier::rlimit(40)]
    pub fn to_ppm(&self) -> (ppm: String)
        ensures
            ppm@ == ppm_text(self@, self.width() as nat, self.height() as nat),
            lines_within(ppm@, MAX_LINE as nat),
    {
        proof {
            use_type_invariant(self);
            reveal_strlit("P3\n");
            reveal_strlit(" ");
            reveal_strlit("\n");
            reveal_strlit("255\n");
        }
        let mut ppm = String::new();
        ppm.append("P3\n");
        push_decimal(&mut ppm, self.width);
        ppm.append(" ");
        push_decimal(&mut ppm, self.height);
        ppm.append("\n");
        ppm.append("255\n");
        assert(ppm@ =~= header_text(self.width as nat, self.height as nat));
        let ghost head = ppm@;
        let total: usize = self.array.len();
        let mut y: usize = 0;
        while y < self.height
            invariant
                y <= self.height,
                self.array@.len() == self.width * self.height,
                self.width * self.height <= usize::MAX,
                head == header_text(self.width as nat, self.height as nat),
                ppm@ == head + rows_text(self.array@, self.width as nat, y as nat),
            decreases self.height - y,
        {
            let ghost tokens = row_tokens(self.array@, self.width as nat, y as nat);
            let ghost before = ppm@;
            let mut count: usize = 0;
            let mut x: usize = 0;
            while x < self.width
                invariant
                    x <= self.width,
                    y < self.height,
                    self.array@.len() == self.width * self.height,
                    self.width * self.height <= usize::MAX,
                    tokens == row_tokens(self.array@, self.width as nat, y as nat),
                    count == laid_count(tokens, (3 * x) as nat),
                    count <= MAX_LINE,
                    ppm@ == before + laid_text(tokens, (3 * x) as nat),
                decreases self.width - x,
            {
                proof {
                    lemma_cell_in_grid(x as int, y as int, self.width as int, self.height as int);
                    lemma_row_token(self.array@, self.width as nat, y as nat, x as nat, 0);
                    lemma_row_token(self.array@, self.width as nat, y as nat, x as nat, 1);
                    lemma_row_token(self.array@, self.width as nat, y as nat, x as nat, 2);
                }
                let pixel = self.array[y * self.width + x];
                count =
                push_pixel(&mut ppm, pixel, count, Ghost(tokens), Ghost(before), Ghost(3 * x as nat));
                x = x + 1;
            }
            proof {
                reveal_strlit("\n");
            }
            ppm.append("\n");
            assert(ppm@ =~= before + laid_text(tokens, (3 * self.width) as nat) + seq!['\n']);
            y = y + 1;
            assert(rows_text(self.array@, self.width as nat, y as nat) == rows_text(
                self.array@,
                self.width as nat,
                (y - 1) as nat,
            ) + laid_text(tokens, (3 * self.width) as nat) + seq!['\n']);
            assert(ppm@ =~= head + rows_text(self.array@, self.width as nat, y as nat));
        }
        proof {
            law_ppm_lines_are_short(self.array@, self.width, self.height);
        }
        ppm
    }
}

/// Token `3 * x + j` of a row is the numeral of channel `j` of the pixel in
/// column `x`.
proof fn lemma_row_token(pixels: Seq<Color>, width: nat, y: nat, x: nat, j: nat)
    requires
        x < width,
        j < 3,
    ensures
        3 * x + j < row_tokens(pixels, width, y).len(),
        row_tokens(pixels, width, y)[(3 * x + j) as int] == decimal(
            channel(pixels[(y * width + x) as int], j as int),
        ),
{
    let i = (3 * x + j) as int;
    assert(i / 3 == x && i % 3 == j) by (nonlinear_arith)
        requires
            i == 3 * x + j,
            0 <= j < 3,
            0 <= x,
    ;
}

/// Lays out the three numerals of `pixel`, which are the tokens `k`, `k + 1`
/// and `k + 2` of `tokens`.
fn push_pixel(
    ppm: &mut String,
    pixel: Color,
    count: usize,
    Ghost(tokens): Ghost<Seq<Seq<char>>>,
    Ghost(before): Ghost<Seq<char>>,
    Ghost(k): Ghost<nat>,
) -> (r: usize)
    requires
        k + 2 < tokens.len(),
        tokens[k as int] == decimal(channel(pixel, 0)),
        tokens[(k + 1) as int] == decimal(channel(pixel, 1)),
        tokens[(k + 2) as int] == decimal(channel(pixel, 2)),
        count == laid_count(tokens, k),
        count <= MAX_LINE,
        old(ppm)@ == before + laid_text(tokens, k),
    ensures
        final(ppm)@ == before + laid_text(tokens, k + 3),
        r == laid_count(tokens, k + 3),
        r <= MAX_LINE,
{
    let count = push_sample(ppm, sample_of(pixel.red), count, Ghost(tokens), Ghost(k));
    assert(ppm@ =~= before + laid_text(tokens, k + 1));
    let count = push_sample(ppm, sample_of(pixel.green), count, Ghost(tokens), Ghost(k + 1));
    assert(ppm@ =~= before + laid_text(tokens, k + 2));
    let count = push_sample(ppm, sample_of(pixel.blue), count, Ghost(tokens), Ghost(k + 2));
    assert(ppm@ =~= before + laid_text(tokens, k + 3));
    count
}

/// Lays out the numeral of `value`, which is token `k` of `tokens`.
fn push_sample(
    ppm: &mut String,
    value: usize,
    count: usize,
    Ghost(tokens): Ghost<Seq<Seq<char>>>,
    Ghost(k): Ghost<nat>,
) -> (r: usize)
    requires
        value <= 255,
        k < tokens.len(),
        tokens[k as int] == decimal(value as nat),
        count == laid_count(tokens, k),
        count <= MAX_LINE,
    ensures
        final(ppm)@ == old(ppm)@ + pushed_text(tokens[k as int], tokens[k as int].len(), count as nat),
        r == laid_count(tokens, k + 1),
        r <= MAX_LINE,
{
    let mut token = String::new();
    push_decimal(&mut token, value);
    let text = token.as_str();
    proof {
        lemma_decimal_ascii(value as nat);
        assert(text@ =~= decimal(value as nat));
        assert(is_ascii(text)) by {
            assert forall|i: int| 0 <= i < text@.len() implies (text@[i] as nat) < 128 by {
                assert('0' <= decimal(value as nat)[i] <= '9');
            }
        }
        is_ascii_spec_bytes(text);
    }
    push_color(ppm, text, count)
}

/// The pixel in column `x` of row `y` has its place among the pixels of a
/// grid that holds both.
pub proof fn lemma_cell_in_grid(x: int, y: int, width: int, height: int)
    requires
        0 <= x < width,
        0 <= y < height,
    ensures
        0 <= y * width,
        y * width + x < width * height,
{
    assert(0 <= y * width) by (nonlinear_arith)
        requires
            0 <= y,
            0 <= width,
    ;
    assert(y * width + width <= height * width) by (nonlinear_arith)
        requires
            y + 1 <= height,
            0 <= width,
    ;
    assert(height * width == width * height) by (nonlinear_arith);
}

/// The number of characters of `text` behind its last line break.
pub open spec fn last_line(text: Seq<char>) -> nat
    decreases text.len(),
{
    if text.len() == 0 || text.last() == '\n' {
        0
    } else {
        last_line(text.drop_last()) + 1
    }
}

/// Whether no line of `text` holds more than `limit` characters.
pub open spec fn lines_within(text: Seq<char>, limit: nat) -> bool
    decreases text.len(),
{
    text.len() == 0 || (lines_within(text.drop_last(), limit) && last_line(text) <= limit)
}

/// Ten to the power `k`.
pub open spec fn pow10(k: nat) -> nat
    decreases k,
{
    if k == 0 {
        1
    } else {
        10 * pow10((k - 1) as nat)
    }
}

/// A number below ten to the power `k` has a numeral of at most `k` digits.
proof fn lemma_decimal_len(n: nat, k: nat)
    requires
        k >= 1,
        n < pow10(k),
    ensures
        decimal(n).len() <= k,
    decreases k,
{
    if n >= 10 {
        assert(pow10(k) == 10 * pow10((k - 1) as nat));
        if k == 1 {
            assert(pow10(0) == 1);
        } else {
            lemma_decimal_len(n / 10, (k - 1) as nat);
        }
    }
}

/// The numeral of a size has at most twenty digits.
proof fn lemma_size_len(n: usize)
    ensures
        1 <= decimal(n as nat).len() <= 20,
{
    reveal_with_fuel(pow10, 21);
    assert(pow10(20) == 100_000_000_000_000_000_000);
    lemma_decimal_len(n as nat, 20);
    lemma_decimal_ascii(n as nat);
}

/// A character added to a text starts a new line where it is a line break
/// and makes the last line longer by one otherwise.
proof fn lemma_push_char(text: Seq<char>, c: char, limit: nat)
    requires
        lines_within(text, limit),
        c == '\n' || last_line(text) + 1 <= limit,
    ensures
        lines_within(text.push(c), limit),
        last_line(text.push(c)) == if c == '\n' {
            0
        } else {
            last_line(text) + 1
        },
{
    assert(text.push(c).drop_last() =~= text);
}

/// Characters that hold no line break, added to a text, make its last line
/// longer by their number.
proof fn lemma_append_plain(text: Seq<char>, block: Seq<char>, limit: nat)
    requires
        lines_within(text, limit),
        forall|i: int| 0 <= i < block.len() ==> block[i] != '\n',
        last_line(text) + block.len() <= limit,
    ensures
        lines_within(text + block, limit),
        last_line(text + block) == last_line(text) + block.len(),
    decreases block.len(),
{
    if block.len() == 0 {
        assert(text + block =~= text);
    } else {
        let front = block.drop_last();
        lemma_append_plain(text, front, limit);
        lemma_push_char(text + front, block.last(), limit);
        assert((text + front).push(block.last()) =~= text + block);
    }
}

/// A numeral holds no line break.
proof fn lemma_decimal_plain(n: nat)
    ensures
        forall|i: int| 0 <= i < decimal(n).len() ==> decimal(n)[i] != '\n',
{
    lemma_decimal_ascii(n);
    assert forall|i: int| 0 <= i < decimal(n).len() implies decimal(n)[i] != '\n' by {
        assert('0' <= decimal(n)[i] <= '9');
    }
}

/// Tokens laid out behind a text that ends a line keep every line within
/// `MAX_LINE`, and the last line is as long as `laid_count` says.
proof fn lemma_laid_lines(text: Seq<char>, pixels: Seq<Color>, width: nat, y: nat, k: nat)
    requires
        lines_within(text, MAX_LINE as nat),
        last_line(text) == 0,
        k <= 3 * width,
    ensures
        lines_within(text + laid_text(row_tokens(pixels, width, y), k), MAX_LINE as nat),
        last_line(text + laid_text(row_tokens(pixels, width, y), k)) == laid_count(
            row_tokens(pixels, width, y),
            k,
        ),
        laid_count(row_tokens(pixels, width, y), k) <= MAX_LINE,
    decreases k,
{
    let tokens = row_tokens(pixels, width, y);
    if k == 0 {
        assert(text + laid_text(tokens, 0) =~= text);
    } else {
        let j = (k - 1) as nat;
        lemma_laid_lines(text, pixels, width, y, j);
        let so_far = text + laid_text(tokens, j);
        let count = laid_count(tokens, j);
        let token = tokens[j as int];
        let value = channel(pixels[y * width + j as int / 3], j as int % 3);
        assert(token == decimal(value));
        lemma_decimal_ascii(value);
        lemma_decimal_plain(value);
        if count == 0 {
            lemma_append_plain(so_far, token, MAX_LINE as nat);
        } else if count + 1 + token.len() > MAX_LINE {
            lemma_push_char(so_far, '\n', MAX_LINE as nat);
            lemma_append_plain(so_far.push('\n'), token, MAX_LINE as nat);
            assert(so_far.push('\n') + token =~= so_far + (seq!['\n'] + token));
        } else {
            lemma_push_char(so_far, ' ', MAX_LINE as nat);
            lemma_append_plain(so_far.push(' '), token, MAX_LINE as nat);
            assert(so_far.push(' ') + token =~= so_far + (seq![' '] + token));
        }
        assert(text + laid_text(tokens, k) =~= so_far + pushed_text(token, token.len(), count));
    }
}

/// Rows laid out behind a text that ends a line keep every line within
/// `MAX_LINE`, and end a line themselves.
proof fn lemma_rows_lines(text: Seq<char>, pixels: Seq<Color>, width: nat, rows: nat)
    requires
        lines_within(text, MAX_LINE as nat),
        last_line(text) == 0,
    ensures
        lines_within(text + rows_text(pixels, width, rows), MAX_LINE as nat),
        last_line(text + rows_text(pixels, width, rows)) == 0,
    decreases rows,
{
    if rows == 0 {
        assert(text + rows_text(pixels, width, 0) =~= text);
    } else {
        let y = (rows - 1) as nat;
        lemma_rows_lines(text, pixels, width, y);
        let so_far = text + rows_text(pixels, width, y);
        lemma_laid_lines(so_far, pixels, width, y, 3 * width);
        let row = so_far + laid_text(row_tokens(pixels, width, y), 3 * width);
        lemma_push_char(row, '\n', MAX_LINE as nat);
        assert(row.push('\n') =~= text + rows_text(pixels, width, rows));
    }
}

/// No line of the text form of an image holds more than `MAX_LINE`
/// characters, whatever the image.
pub proof fn law_ppm_lines_are_short(pixels: Seq<Color>, width: usize, height: usize)
    ensures
        lines_within(ppm_text(pixels, width as nat, height as nat), MAX_LINE as nat),
{
    let limit = MAX_LINE as nat;
    let w = decimal(width as nat);
    let h = decimal(height as nat);
    lemma_size_len(width);
    lemma_size_len(height);
    lemma_decimal_plain(width as nat);
    lemma_decimal_plain(height as nat);
    let empty = Seq::<char>::empty();
    assert(lines_within(empty, limit));
    lemma_append_plain(empty, seq!['P', '3'], limit);
    let a = empty + seq!['P', '3'];
    lemma_push_char(a, '\n', limit);
    let b = a.push('\n');
    lemma_append_plain(b, w, limit);
    let c = b + w;
    lemma_push_char(c, ' ', limit);
    let d = c.push(' ');
    lemma_append_plain(d, h, limit);
    let e = d + h;
    lemma_push_char(e, '\n', limit);
    let f = e.push('\n');
    lemma_append_plain(f, seq!['2', '5', '5'], limit);
    let g = f + seq!['2', '5', '5'];
    lemma_push_char(g, '\n', limit);
    let head = g.push('\n');
    assert(head =~= header_text(width as nat, height as nat));
    lemma_rows_lines(head, pixels, width as nat, height as nat);
}

} // verus!
