//! The camera's whole-number settings, and the step from traced colour levels
//! to the finished picture.

use vstd::prelude::*;
use crate::canvas::{
    compact, grid_dim, grid_into_raw_vec, grid_put, grid_raw, grid_shape, grid_standard,
    grid_zeros, image_from_raw, image_height, image_raw, image_width, offset, or_one, Picture,
    PixelGrid,
};

verus! {

/// The settings of a camera that are whole numbers: the aspect ratio as the
/// ratio `aspect_width : aspect_height`, the size of the image in pixels, the
/// number of samples taken for each pixel and the depth allowed to each path.
///
/// The image's height follows from its width and the aspect ratio and cannot
/// be set.
pub struct Camera {
    aspect_width: usize,
    aspect_height: usize,
    image_width: usize,
    image_height: usize,
    samples_per_pixel: usize,
    max_depth: usize,
}

/// The height of an image `image_width` pixels wide with the aspect ratio
/// `aspect_width : aspect_height`: the width divided by the ratio, rounded
/// down.
pub open spec fn height_for(aspect_width: usize, aspect_height: usize, image_width: usize) -> int {
    (image_width * aspect_height) / (aspect_width as int)
}

/// A camera can be made of these settings: the ratio's two numbers, the width
/// and the number of samples are positive, and the image is small enough for
/// the machine (its sides fit 32 bits, its bytes can be allocated).
pub open spec fn usable(
    aspect_width: usize,
    aspect_height: usize,
    image_width: usize,
    samples_per_pixel: usize,
) -> bool {
    &&& aspect_width > 0
    &&& aspect_height > 0
    &&& image_width > 0
    &&& samples_per_pixel > 0
    &&& image_width <= u32::MAX
    &&& image_width * aspect_height <= usize::MAX
    &&& height_for(aspect_width, aspect_height, image_width) <= u32::MAX
    &&& 3 * image_width * height_for(aspect_width, aspect_height, image_width) <= isize::MAX
    &&& 3 * image_width <= isize::MAX
}

/// The byte for a colour channel whose value, scaled to the byte range and
/// cut to a whole number, is `level`: levels below 0 give 0, levels above 255
/// give 255.
pub open spec fn byte_of(level: i64) -> u8 {
    if level < 0 {
        0u8
    } else if level > 255 {
        255u8
    } else {
        level as u8
    }
}

/// The bytes for a run of levels, one for one.
pub open spec fn bytes_of(levels: Seq<i64>) -> Seq<u8> {
    Seq::new(levels.len(), |k: int| byte_of(levels[k]))
}

impl Camera {
    #[verifier::type_invariant]
    spec fn sound(&self) -> bool {
        &&& usable(self.aspect_width, self.aspect_height, self.image_width, self.samples_per_pixel)
        &&& self.image_height == height_for(
            self.aspect_width,
            self.aspect_height,
            self.image_width,
        )
    }

    /// The first number of the aspect ratio.
    pub closed spec fn spec_aspect_width(&self) -> usize {
        self.aspect_width
    }

    /// The second number of the aspect ratio.
    pub closed spec fn spec_aspect_height(&self) -> usize {
        self.aspect_height
    }

    /// The image's width in pixels.
    pub closed spec fn spec_image_width(&self) -> usize {
        self.image_width
    }

    /// The image's height in pixels.
    pub closed spec fn spec_image_height(&self) -> usize {
        self.image_height
    }

    /// The number of samples for each pixel.
    pub closed spec fn spec_samples_per_pixel(&self) -> usize {
        self.samples_per_pixel
    }

    /// The depth allowed to each path.
    pub closed spec fn spec_max_depth(&self) -> usize {
        self.max_depth
    }

    /// The camera with the usual settings: an image 400 pixels wide at 16:9,
    /// which makes it 225 high, 50 samples for each pixel, and paths of
    /// depth 10.
    pub fn new() -> (made: Camera)
        ensures
            made.spec_aspect_width() == 16,
            made.spec_aspect_height() == 9,
            made.spec_image_width() == 400,
            made.spec_image_height() == 225,
            made.spec_samples_per_pixel() == 50,
            made.spec_max_depth() == 10,
    {
        assert(height_for(16, 9, 400) == 225) by {
            assert(400 * 9 == 3600 && 3600int / 16 == 225) by (nonlinear_arith);
        }
        assert(3 * 400 * 225 <= isize::MAX) by {
            assert(3 * 400 * 225 == 270000) by (nonlinear_arith);
        }
        Camera {
            aspect_width: 16,
            aspect_height: 9,
            image_width: 400,
            image_height: 225,
            samples_per_pixel: 50,
            max_depth: 10,
        }
    }

    /// A camera with the given settings, where they are usable; the height of
    /// its image is the width divided by the aspect ratio, rounded down.
    pub fn with_settings(
        aspect_width: usize,
        aspect_height: usize,
        image_width: usize,
        samples_per_pixel: usize,
        max_depth: usize,
    ) -> (made: Option<Camera>)
        ensures
            made is Some <==> usable(aspect_width, aspect_height, image_width, samples_per_pixel),
            made matches Some(camera) ==> {
                &&& camera.spec_aspect_width() == aspect_width
                &&& camera.spec_aspect_height() == aspect_height
                &&& camera.spec_image_width() == image_width
                &&& camera.spec_image_height() == height_for(
                    aspect_width,
                    aspect_height,
                    image_width,
                )
                &&& camera.spec_samples_per_pixel() == samples_per_pixel
                &&& camera.spec_max_depth() == max_depth
            },
    {
        if aspect_width == 0 || aspect_height == 0 || image_width == 0 || samples_per_pixel == 0 {
            return None;
        }
        if image_width > u32::MAX as usize {
            return None;
        }
        let span: usize = match image_width.checked_mul(aspect_height) {
            Some(span) => span,
            None => {
                return None;
            },
        };
        let image_height: usize = span / aspect_width;
        if image_height > u32::MAX as usize {
            return None;
        }
        let row_bytes: u128 = 3 * (image_width as u128);
        assert(row_bytes * image_height <= 3 * 0xffff_ffff * 0xffff_ffff) by (nonlinear_arith)
            requires
                row_bytes <= 3 * 0xffff_ffff,
                image_height <= 0xffff_ffff,
        ;
        let bytes: u128 = row_bytes * (image_height as u128);
        assert(bytes == 3 * image_width * image_height) by (nonlinear_arith)
            requires
                bytes == row_bytes * image_height,
                row_bytes == 3 * image_width,
        ;
        if bytes > isize::MAX as u128 || row_bytes > isize::MAX as u128 {
            return None;
        }
        Some(
            Camera {
                aspect_width,
                aspect_height,
                image_width,
                image_height,
                samples_per_pixel,
                max_depth,
            },
        )
    }

    /// The image's width in pixels.
    pub fn image_width(&self) -> (width: usize)
        ensures
            width == self.spec_image_width(),
            0 < width <= u32::MAX,
    {
        proof {
            use_type_invariant(self);
        }
        self.image_width
    }

    /// The image's height in pixels: its width divided by the aspect ratio,
    /// rounded down.
    pub fn image_height(&self) -> (height: usize)
        ensures
            height == self.spec_image_height(),
            height == height_for(
                self.spec_aspect_width(),
                self.spec_aspect_height(),
                self.spec_image_width(),
            ),
            height <= u32::MAX,
    {
        proof {
            use_type_invariant(self);
        }
        self.image_height
    }

    /// The number of samples taken for each pixel.
    pub fn samples_per_pixel(&self) -> (samples: usize)
        ensures
            samples == self.spec_samples_per_pixel(),
            samples > 0,
    {
        proof {
            use_type_invariant(self);
        }
        self.samples_per_pixel
    }

    /// The depth allowed to each path.
    pub fn max_depth(&self) -> (depth: usize)
        ensures
            depth == self.spec_max_depth(),
    {
        self.max_depth
    }

    /// The byte for one colour channel, given its level: the channel's value
    /// scaled to the byte range and cut to a whole number. Levels off the
    /// range are clamped to its ends, never wrapped.
    pub fn pixel_to_byte(level: i64) -> (byte: u8)
        ensures
            byte == byte_of(level),
            level >= 255 ==> byte == 255,
            level <= 0 ==> byte == 0,
    {
        if level < 0 {
            0
        } else if level > 255 {
            255
        } else {
            level as u8
        }
    }

    /// Makes the picture of a filled grid: as wide as the grid has columns,
    /// as high as it has rows, and holding the grid's bytes in their order.
    fn array_to_image(arr: PixelGrid) -> (picture: Picture)
        requires
            compact(arr),
            grid_shape(arr).2 == 3,
            grid_shape(arr).0 <= u32::MAX,
            grid_shape(arr).1 <= u32::MAX,
        ensures
            image_width(picture) == grid_shape(arr).1,
            image_height(picture) == grid_shape(arr).0,
            image_raw(picture) == grid_raw(arr),
    {
        let (height, width, _) = grid_dim(&arr);
        let raw = grid_into_raw_vec(arr);
        assert(3 * (width as u32) * (height as u32) == height * width * 3) by (nonlinear_arith)
            requires
                width <= u32::MAX,
                height <= u32::MAX,
        ;
        image_from_raw(width as u32, height as u32, raw).unwrap()
    }

    /// Develops traced colour levels into the picture.
    ///
    /// `levels` holds three levels (red, green, blue) for each pixel, rows
    /// from the top and pixels from the left; a level is the channel's
    /// gamma-corrected value scaled to the byte range and cut to a whole
    /// number. Each level is clamped to a byte and stored in the pixel grid,
    /// and the filled grid becomes the picture. There is a picture exactly
    /// when `levels` has the size of the camera's image.
    pub fn render(&self, levels: &Vec<i64>) -> (shot: Option<Picture>)
        ensures
            shot is Some <==> levels@.len() == 3 * self.spec_image_width()
                * self.spec_image_height(),
            shot matches Some(picture) ==> {
                &&& image_width(picture) == self.spec_image_width()
                &&& image_height(picture) == self.spec_image_height()
                &&& image_raw(picture) == bytes_of(levels@)
            },
    {
        proof {
            use_type_invariant(self);
        }
        let width: usize = self.image_width;
        let height: usize = self.image_height;
        proof {
            lemma_grid_size(width, height);
        }
        let row_bytes: usize = 3 * width;
        let total: usize = row_bytes * height;
        if levels.len() != total {
            return None;
        }
        let mut pixels = grid_zeros(height, width);
        let ghost shape = (height, width, 3usize);
        let mut j: usize = 0;
        while j < height
            invariant
                j <= height,
                total == 3 * width * height,
                levels@.len() == total,
                grid_shape(pixels) == shape,
                shape == (height, width, 3usize),
                compact(pixels),
                grid_raw(pixels).len() == total,
                forall|k: int|
                    0 <= k < offset(shape, j as int, 0, 0) ==> grid_raw(pixels)[k] == byte_of(
                        levels@[k],
                    ),
            decreases height - j,
        {
            let mut i: usize = 0;
            while i < width
                invariant
                    i <= width,
                    j < height,
                    total == 3 * width * height,
                    levels@.len() == total,
                    grid_shape(pixels) == shape,
                    shape == (height, width, 3usize),
                    compact(pixels),
                    grid_raw(pixels).len() == total,
                    forall|k: int|
                        0 <= k < offset(shape, j as int, i as int, 0) ==> grid_raw(pixels)[k]
                            == byte_of(levels@[k]),
                decreases width - i,
            {
                proof {
                    lemma_offset_in_grid(width, height, j, i);
                }
                let base: usize = (j * width + i) * 3;
                let red: u8 = Camera::pixel_to_byte(levels[base]);
                let green: u8 = Camera::pixel_to_byte(levels[base + 1]);
                let blue: u8 = Camera::pixel_to_byte(levels[base + 2]);
                let ghost before = grid_raw(pixels);
                grid_put(&mut pixels, j, i, 0, red);
                assert(grid_raw(pixels).len() == before.len());
                grid_put(&mut pixels, j, i, 1, green);
                assert(grid_raw(pixels).len() == before.len());
                grid_put(&mut pixels, j, i, 2, blue);
                assert(grid_raw(pixels).len() == before.len());
                i = i + 1;
            }
            proof {
                assert(offset(shape, j as int, width as int, 0) == offset(shape, j + 1, 0, 0))
                    by (nonlinear_arith)
                    requires
                        shape == (height, width, 3usize),
                ;
            }
            j = j + 1;
        }
        proof {
            assert(offset(shape, height as int, 0, 0) == total) by (nonlinear_arith)
                requires
                    shape == (height, width, 3usize),
                    total == 3 * width * height,
            ;
            assert(grid_raw(pixels) =~= bytes_of(levels@));
        }
        Some(Camera::array_to_image(pixels))
    }
}

/// An image the size of a camera's can be held in a grid: the byte counts
/// stay within the machine's range.
proof fn lemma_grid_size(width: usize, height: usize)
    requires
        3 * width * height <= isize::MAX,
        3 * width <= isize::MAX,
        width > 0,
    ensures
        or_one(height) * or_one(width) * 3 <= isize::MAX,
        3 * width <= usize::MAX,
        (3 * width) * height == 3 * width * height,
        height * width * 3 == 3 * width * height,
{
    assert(height * width * 3 == 3 * width * height) by (nonlinear_arith);
    assert((3 * width) * height == 3 * width * height) by (nonlinear_arith);
    if height == 0 {
        assert(or_one(height) * or_one(width) * 3 == 3 * width) by (nonlinear_arith)
            requires
                or_one(height) == 1,
                or_one(width) == width,
        ;
    } else {
        assert(or_one(height) * or_one(width) * 3 == 3 * width * height) by (nonlinear_arith)
            requires
                or_one(height) == height,
                or_one(width) == width,
        ;
    }
}

/// The three bytes of pixel (`row`, `column`) lie inside the grid, one after
/// the other.
proof fn lemma_offset_in_grid(width: usize, height: usize, row: usize, column: usize)
    requires
        row < height,
        column < width,
    ensures
        0 <= (row * width + column) * 3,
        (row * width + column) * 3 + 3 <= 3 * width * height,
        (row * width + column) * 3 + 3 <= height * width * 3,
        row * width + column < width * height,
        offset((height, width, 3usize), row as int, column as int, 0) == (row * width + column)
            * 3,
        offset((height, width, 3usize), row as int, column as int, 1) == (row * width + column)
            * 3 + 1,
        offset((height, width, 3usize), row as int, column as int, 2) == (row * width + column)
            * 3 + 2,
        offset((height, width, 3usize), row as int, column + 1, 0) == (row * width + column) * 3
            + 3,
{
    assert(row * width + column < width * height) by (nonlinear_arith)
        requires
            row < height,
            column < width,
    ;
    assert((row * width + column) * 3 + 3 <= 3 * width * height) by (nonlinear_arith)
        requires
            row * width + column < width * height,
    ;
    assert(0 <= (row * width + column) * 3) by (nonlinear_arith);
    assert(height * width * 3 == 3 * width * height) by (nonlinear_arith);
    assert((row * width + column + 1) * 3 == (row * width + column) * 3 + 3) by (nonlinear_arith);
}

} // verus!
