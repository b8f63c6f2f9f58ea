//! The pixel grid that a render fills and the picture made of it.
//!
//! Both are collections of outside crates: the grid is an `ndarray::Array3`
//! of bytes, the picture an `image::RgbImage`. Verus does not look inside
//! either. What this module says of them is taken from the two crates'
//! sources and is believed, not proved; everything else in the library is
//! proved from it.

use vstd::prelude::*;

verus! {

/// A three-dimensional grid of bytes, indexed by row, column and channel.
/// It holds an `ndarray::Array3<u8>`, which is only ever made by
/// [`grid_zeros`] and changed by [`grid_put`].
#[verifier::external_body]
pub struct PixelGrid {
    cells: ndarray::Array3<u8>,
}

/// A finished picture. It holds an `image::RgbImage`, which callers take out
/// of the public field to encode or store it.
#[verifier::external_body]
pub struct Picture {
    pub image: image::RgbImage,
}

/// The bytes of a grid as the grid stores them, first to last: what
/// `ndarray::Array3::into_raw_vec` returns.
pub uninterp spec fn grid_raw(grid: PixelGrid) -> Seq<u8>;

/// The lengths of a grid's three axes (rows, columns, channels): what
/// `ndarray::Array3::dim` returns.
pub uninterp spec fn grid_shape(grid: PixelGrid) -> (usize, usize, usize);

/// Whether a grid is laid out in row-major order with the last index varying
/// fastest: what `ndarray::Array3::is_standard_layout` returns.
pub uninterp spec fn grid_standard(grid: PixelGrid) -> bool;

/// The width of a picture in pixels: what `image::RgbImage::width` returns.
pub uninterp spec fn image_width(picture: Picture) -> u32;

/// The height of a picture in pixels: what `image::RgbImage::height` returns.
pub uninterp spec fn image_height(picture: Picture) -> u32;

/// The bytes of a picture, three for each pixel, rows from the top and
/// pixels from the left: what `image::RgbImage::as_raw` returns.
pub uninterp spec fn image_raw(picture: Picture) -> Seq<u8>;

/// An axis length, with 1 in place of 0.
pub open spec fn or_one(length: usize) -> int {
    if length == 0 {
        1
    } else {
        length as int
    }
}

/// The place of cell (`row`, `column`, `channel`) among the stored bytes of a
/// grid in standard layout whose axes have the lengths `shape`.
pub open spec fn offset(shape: (usize, usize, usize), row: int, column: int, channel: int) -> int {
    (row * shape.1 + column) * shape.2 + channel
}

/// A grid stores exactly the cells that its shape counts, in standard layout.
pub open spec fn compact(grid: PixelGrid) -> bool {
    &&& grid_standard(grid)
    &&& grid_raw(grid).len() == grid_shape(grid).0 * grid_shape(grid).1 * grid_shape(grid).2
}

/// Calls `ndarray::Array3::<u8>::zeros` with the shape (`rows`, `columns`, 3).
///
/// Claimed of it: the new grid has that shape, is in standard layout, and
/// stores `rows * columns * 3` bytes, all 0. The call panics when the product
/// of the axis lengths other than 0 is more than `isize::MAX`; `requires`
/// leaves those shapes out.
#[verifier::external_body]
pub(crate) fn grid_zeros(rows: usize, columns: usize) -> (grid: PixelGrid)
    requires
        or_one(rows) * or_one(columns) * 3 <= isize::MAX,
    ensures
        grid_shape(grid) == (rows, columns, 3usize),
        grid_standard(grid),
        grid_raw(grid) == Seq::new((rows * columns * 3) as nat, |k: int| 0u8),
{
    PixelGrid { cells: ndarray::Array3::zeros((rows, columns, 3)) }
}

/// Assigns through `ndarray::Array3`'s index operator: cell (`row`, `column`,
/// `channel`) becomes `value`.
///
/// Claimed of it: in a compact grid the cell is the stored byte at
/// [`offset`], so that byte changes and no other; shape and layout stay.
/// The operator panics on an index outside the shape; `requires` leaves
/// those out.
#[verifier::external_body]
pub(crate) fn grid_put(grid: &mut PixelGrid, row: usize, column: usize, channel: usize, value: u8)
    requires
        compact(*old(grid)),
        row < grid_shape(*old(grid)).0,
        column < grid_shape(*old(grid)).1,
        channel < grid_shape(*old(grid)).2,
    ensures
        grid_shape(*final(grid)) == grid_shape(*old(grid)),
        grid_standard(*final(grid)),
        grid_raw(*final(grid)) == grid_raw(*old(grid)).update(
            offset(grid_shape(*old(grid)), row as int, column as int, channel as int),
            value,
        ),
{
    grid.cells[[row, column, channel]] = value;
}

/// Calls `ndarray::Array3::dim`.
///
/// Claimed of it: it returns the lengths of the three axes.
#[verifier::external_body]
pub(crate) fn grid_dim(grid: &PixelGrid) -> (shape: (usize, usize, usize))
    ensures
        shape == grid_shape(*grid),
{
    grid.cells.dim()
}

/// Calls `ndarray::Array3::into_raw_vec`.
///
/// Claimed of it: it returns the stored bytes in storage order.
#[verifier::external_body]
pub(crate) fn grid_into_raw_vec(grid: PixelGrid) -> (raw: Vec<u8>)
    ensures
        raw@ == grid_raw(grid),
{
    grid.cells.into_raw_vec()
}

/// Calls `image::RgbImage::from_raw`.
///
/// Claimed of it: it makes a picture exactly when `raw` holds at least three
/// bytes for each of the `width * height` pixels, and the picture then has
/// that width and height and holds `raw` as it was given.
#[verifier::external_body]
pub(crate) fn image_from_raw(width: u32, height: u32, raw: Vec<u8>) -> (picture: Option<Picture>)
    ensures
        picture is Some <==> 3 * width * height <= raw@.len(),
        picture matches Some(made) ==> image_width(made) == width && image_height(made) == height
            && image_raw(made) == raw@,
{
    match image::RgbImage::from_raw(width, height, raw) {
        Some(image) => Some(Picture { image }),
        None => None,
    }
}

} // verus!
