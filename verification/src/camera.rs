//! The camera: from pixels to rays, and from a world to an image.

use crate::canvas::lemma_cell_in_grid;
use crate::canvas::Canvas;
use crate::color::Color;
use crate::error::MatrixError;
use crate::mat4::identity4;
use crate::mat4::inverse4;
use crate::mat4::inverse_error;
use crate::mat4::invertible;
use crate::mat4::point_image;
use crate::mat4::Mat4;
use crate::point::Point;
use crate::ray::Ray;
use crate::scalar::Scalar;
use crate::world::World;
use core::ops::Neg;
use vstd::prelude::*;

verus! {

/// An eye that looks at the world through a screen of `hsize` by `vsize`
/// pixels, one unit in front of it.
pub struct Camera {
    pub hsize: usize,
    pub vsize: usize,
    pub field_of_view: Scalar,
    pub transform: Mat4,
    pub half_height: Scalar,
    pub half_width: Scalar,
    pub pixel_size: Scalar,
}

/// The width of the screen relative to its height.
pub open spec fn aspect(hsize: usize, vsize: usize) -> Scalar {
    Scalar::from_count(hsize).over(Scalar::from_count(vsize))
}

/// Half the width of the screen: the whole half view where the screen is at
/// least as wide as it is high, the share of it that the aspect gives
/// otherwise.
pub open spec fn half_width_of(hsize: usize, vsize: usize, half_view: Scalar) -> Scalar {
    if aspect(hsize, vsize)@ >= Scalar::one()@ {
        half_view
    } else {
        half_view.times(aspect(hsize, vsize))
    }
}

/// Half the height of the screen.
pub open spec fn half_height_of(hsize: usize, vsize: usize, half_view: Scalar) -> Scalar {
    if aspect(hsize, vsize)@ >= Scalar::one()@ {
        half_view.over(aspect(hsize, vsize))
    } else {
        half_view
    }
}

/// One half.
pub open spec fn half() -> Scalar {
    Scalar { raw: 500_000_000 }
}

impl Camera {
    /// A camera at the origin that looks along the negative z axis.
    /// `half_view` is the tangent of half the field of view: the narrower
    /// side of the screen spans the whole field.
    pub fn new(hsize: usize, vsize: usize, field_of_view: Scalar, half_view: Scalar) -> (c: Camera)
        ensures
            c.hsize == hsize,
            c.vsize == vsize,
            c.field_of_view == field_of_view,
            c.transform@ == identity4(),
            c.half_width == half_width_of(hsize, vsize, half_view),
            c.half_height == half_height_of(hsize, vsize, half_view),
            c.pixel_size == c.half_width.times(Scalar::from_int(2)).over(Scalar::from_count(hsize)),
    {
        let transform = Mat4::identity();
        let aspect = Scalar::from_count(hsize) / Scalar::from_count(vsize);
        let half_width;
        let half_height;
        if aspect.ge(Scalar::one()) {
            half_width = half_view;
            half_height = half_view / aspect;
        } else {
            half_width = half_view * aspect;
            half_height = half_view;
        }
        let pixel_size = (half_width * Scalar::from_int(2)) / Scalar::from_count(hsize);
        Camera { hsize, vsize, field_of_view, transform, half_height, half_width, pixel_size }
    }

    /// The point on the screen, in the camera's own space, at the middle of
    /// the pixel in column `x` of row `y`.
    pub open spec fn pixel_center(&self, x: usize, y: usize) -> Point {
        Point {
            x: self.half_width.minus(Scalar::from_count(x).plus(half()).times(self.pixel_size)),
            y: self.half_height.minus(Scalar::from_count(y).plus(half()).times(self.pixel_size)),
            z: Scalar::one().negated(),
        }
    }

    /// The ray from the eye through the middle of the pixel in column `x`
    /// of row `y`; none where the camera's transform has no inverse.
    pub open spec fn ray_for_pixel_spec(&self, x: usize, y: usize) -> Result<Ray, MatrixError> {
        if invertible(self.transform@) {
            let inverse = inverse4(self.transform@);
            let pixel = point_image(inverse, self.pixel_center(x, y));
            let origin = point_image(inverse, Point::zero());
            Ok(Ray { origin, direction: pixel.from(origin).normalize() })
        } else {
            Err(inverse_error(self.transform@))
        }
    }

    /// The ray from the eye through the middle of the pixel in column `x`
    /// of row `y`.
    pub fn ray_for_pixel(&self, x: usize, y: usize) -> (r: Result<Ray, MatrixError>)
        ensures
            r == self.ray_for_pixel_spec(x, y),
    {
        let half = Scalar::from_raw(500_000_000);
        let x_offset = (Scalar::from_count(x) + half) * self.pixel_size;
        let y_offset = (Scalar::from_count(y) + half) * self.pixel_size;
        let world_x = self.half_width - x_offset;
        let world_y = self.half_height - y_offset;
        let inverse = match self.transform.inverse() {
            Ok(m) => m,
            Err(e) => {
                return Err(e);
            },
        };
        let pixel = inverse * Point { x: world_x, y: world_y, z: Scalar::one().neg() };
        let origin = inverse * Point::zero();
        let direction = (pixel - origin).normalize();
        Ok(Ray { origin, direction })
    }

    /// The colour of the pixel in column `x` of row `y`: what the ray
    /// through it sees of `world`.
    #[verifier::opaque]
    pub open spec fn pixel_spec(&self, world: &World, x: usize, y: usize) -> Result<
        Color,
        MatrixError,
    > {
        match self.ray_for_pixel_spec(x, y) {
            Ok(ray) => world.color_at_spec(ray),
            Err(e) => Err(e),
        }
    }

    /// The colour of the pixel in column `x` of row `y`.
    fn pixel(&self, world: &World, x: usize, y: usize) -> (r: Result<Color, MatrixError>)
        ensures
            r == self.pixel_spec(world, x, y),
    {
        reveal(Camera::pixel_spec);
        match self.ray_for_pixel(x, y) {
            Ok(ray) => world.color_at(ray),
            Err(e) => Err(e),
        }
    }

    /// The image of `world`: every pixel holds what the ray through it
    /// sees. There is no image where a transform met on the way has no
    /// inverse.
    #[verifier::rlimit(40)]
    pub fn render(&self, world: &World) -> (r: Result<Canvas, MatrixError>)
        requires
            self.hsize * self.vsize <= usize::MAX,
        ensures
            match r {
                Ok(image) => {
                    &&& image.width() == self.hsize
                    &&& image.height() == self.vsize
                    &&& image@.len() == self.hsize * self.vsize
                    &&& forall|x: usize, y: usize|
                        x < self.hsize && y < self.vsize ==> #[trigger] self.pixel_spec(world, x, y)
                            == Ok::<Color, MatrixError>(image@[y * self.hsize + x])
                },
                Err(e) => exists|x: usize, y: usize|
                    x < self.hsize && y < self.vsize && #[trigger] self.pixel_spec(world, x, y)
                        == Err::<Color, MatrixError>(e),
            },
    {
        let mut image = Canvas::new(self.hsize, self.vsize);
        let mut y: usize = 0;
        while y < self.vsize
            invariant
                y <= self.vsize,
                image.width() == self.hsize,
                image.height() == self.vsize,
                image@.len() == self.hsize * self.vsize,
                forall|px: usize, py: usize|
                    px < self.hsize && py < y ==> #[trigger] self.pixel_spec(world, px, py)
                        == Ok::<Color, MatrixError>(image@[py * self.hsize + px]),
            decreases self.vsize - y,
        {
            let mut x: usize = 0;
            while x < self.hsize
                invariant
                    x <= self.hsize,
                    y < self.vsize,
                    image.width() == self.hsize,
                    image.height() == self.vsize,
                    image@.len() == self.hsize * self.vsize,
                    forall|px: usize, py: usize|
                        px < self.hsize && (py < y || (py == y && px < x))
                            ==> #[trigger] self.pixel_spec(world, px, py) == Ok::<
                            Color,
                            MatrixError,
                        >(image@[py * self.hsize + px]),
                decreases self.hsize - x,
            {
                let color = match self.pixel(world, x, y) {
                    Ok(color) => color,
                    Err(e) => {
                        return Err(e);
                    },
                };
                let ghost before = image@;
                image.set(x, y, color);
                proof {
                    lemma_cell_in_grid(x as int, y as int, self.hsize as int, self.vsize as int);
                    assert(image@ == before.update(y * self.hsize + x, color));
                    assert(image@.len() == before.len());
                    assert forall|px: usize, py: usize|
                        px < self.hsize && (py < y || (py == y && px < x + 1)) implies #[trigger] self.pixel_spec(
                        world,
                        px,
                        py,
                    ) == Ok::<Color, MatrixError>(image@[py * self.hsize + px]) by {
                        lemma_cell_in_grid(px as int, py as int, self.hsize as int, self.vsize as int);
                        if py == y && px == x {
                        } else {
                            lemma_cells_differ(px as int, py as int, x as int, y as int, self.hsize as int);
                            assert(image@[py * self.hsize + px] == before[py * self.hsize + px]);
                        }
                    }
                }
                x = x + 1;
            }
            y = y + 1;
        }
        Ok(image)
    }
}

/// Two pixels of a grid that differ in column or row have different places.
pub proof fn lemma_cells_differ(x1: int, y1: int, x2: int, y2: int, width: int)
    requires
        0 <= x1 < width,
        0 <= x2 < width,
        0 <= y1,
        0 <= y2,
        x1 != x2 || y1 != y2,
    ensures
        y1 * width + x1 != y2 * width + x2,
{
    if y1 < y2 {
        assert(y1 * width + width <= y2 * width) by (nonlinear_arith)
            requires
                y1 + 1 <= y2,
                0 <= width,
        ;
    } else if y2 < y1 {
        assert(y2 * width + width <= y1 * width) by (nonlinear_arith)
            requires
                y2 + 1 <= y1,
                0 <= width,
        ;
    }
}

} // verus!
