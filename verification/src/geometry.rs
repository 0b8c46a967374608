//! Crop geometry: from a detected face rectangle to a padded crop inside the image.

use vstd::prelude::*;

verus! {

/// An axis-aligned rectangle in image pixel coordinates.
#[derive(Clone, Copy, Debug, PartialEq, Eq, Structural)]
pub struct Rect {
    pub x: i32,
    pub y: i32,
    pub width: i32,
    pub height: i32,
}

impl Rect {
    /// The first column to the right of the rectangle.
    pub open spec fn right(self) -> int {
        self.x + self.width
    }

    /// The first row below the rectangle.
    pub open spec fn bottom(self) -> int {
        self.y + self.height
    }

    /// The longer of the two sides.
    pub open spec fn longest_side(self) -> int {
        if self.width >= self.height {
            self.width as int
        } else {
            self.height as int
        }
    }

    /// Whether the rectangle has no negative extent and lies within an image of
    /// `cols` columns and `rows` rows.
    pub open spec fn inside(self, cols: int, rows: int) -> bool {
        &&& 0 <= self.x
        &&& 0 <= self.y
        &&& 0 <= self.width
        &&& 0 <= self.height
        &&& self.right() <= cols
        &&& self.bottom() <= rows
    }

    /// Whether the rectangle covers no pixel.
    pub open spec fn is_empty(self) -> bool {
        self.width <= 0 || self.height <= 0
    }

    pub fn new(x: i32, y: i32, width: i32, height: i32) -> (r: Rect)
        ensures
            r == (Rect { x, y, width, height }),
    {
        Rect { x, y, width, height }
    }

    /// Decides `inside` without overflow, for any four coordinates.
    pub fn is_inside(&self, cols: i32, rows: i32) -> (b: bool)
        ensures
            b == self.inside(cols as int, rows as int),
    {
        self.x >= 0 && self.y >= 0 && self.width >= 0 && self.height >= 0
            && self.x as i64 + self.width as i64 <= cols as i64
            && self.y as i64 + self.height as i64 <= rows as i64
    }
}

/// The padding factor 1.1, as the fraction `PADDING_NUMERATOR / PADDING_DENOMINATOR`.
pub const PADDING_NUMERATOR: i64 = 11;

pub const PADDING_DENOMINATOR: i64 = 10;

/// The padding for a face whose longer side is `side`: 1.1 times the side, rounded to
/// the nearest integer, a half rounding up.
pub open spec fn padding_for(side: int) -> int {
    (PADDING_NUMERATOR * side + PADDING_DENOMINATOR / 2) / (PADDING_DENOMINATOR as int)
}

/// The face grown by its padding on all four sides, before any clamping.
/// Returned as `(left, top, right, bottom)`.
pub open spec fn expanded(face: Rect) -> (int, int, int, int) {
    let p = padding_for(face.longest_side());
    (face.x - p, face.y - p, face.right() + p, face.bottom() + p)
}

pub open spec fn at_least_zero(a: int) -> int {
    if a < 0 {
        0
    } else {
        a
    }
}

pub open spec fn at_most(a: int, limit: int) -> int {
    if a > limit {
        limit
    } else {
        a
    }
}

/// The edges of the padded crop: the expanded face, its left and top edge raised to 0,
/// its right and bottom edge lowered to the image's extent. An edge that is cut off
/// is not made up for on the opposite side.
pub open spec fn crop_left(face: Rect) -> int {
    at_least_zero(expanded(face).0)
}

pub open spec fn crop_top(face: Rect) -> int {
    at_least_zero(expanded(face).1)
}

pub open spec fn crop_right(face: Rect, cols: int) -> int {
    at_most(expanded(face).2, cols)
}

pub open spec fn crop_bottom(face: Rect, rows: int) -> int {
    at_most(expanded(face).3, rows)
}

/// The padded crop of `face` in an image of `cols` by `rows` pixels.
pub open spec fn padded_rect(face: Rect, cols: int, rows: int) -> Rect {
    Rect {
        x: crop_left(face) as i32,
        y: crop_top(face) as i32,
        width: (crop_right(face, cols) - crop_left(face)) as i32,
        height: (crop_bottom(face, rows) - crop_top(face)) as i32,
    }
}

/// The padding is the integer nearest to eleven tenths of the side: ten times the
/// padding lies within five of eleven times the side, above it where the distance is
/// exactly five (a half rounds up).
pub proof fn lemma_padding_is_nearest(side: int)
    requires
        0 <= side,
    ensures
        -5 < 10 * padding_for(side) - 11 * side <= 5,
        padding_for(side) >= side,
{
}

/// The padding applied to a face: 1.1 times its longer side, rounded to nearest.
pub fn padding(face: &Rect) -> (p: i64)
    requires
        0 <= face.width,
        0 <= face.height,
    ensures
        p == padding_for(face.longest_side()),
{
    let side: i64 = if face.width >= face.height {
        face.width as i64
    } else {
        face.height as i64
    };
    (PADDING_NUMERATOR * side + PADDING_DENOMINATOR / 2) / PADDING_DENOMINATOR
}

/// Grows `face` by its padding on every side and clamps the result to the image.
pub fn calculate_padded_rect(face: &Rect, cols: i32, rows: i32) -> (crop: Rect)
    requires
        face.inside(cols as int, rows as int),
    ensures
        crop == padded_rect(*face, cols as int, rows as int),
        crop.x == crop_left(*face),
        crop.y == crop_top(*face),
        crop.right() == crop_right(*face, cols as int),
        crop.bottom() == crop_bottom(*face, rows as int),
        crop.inside(cols as int, rows as int),
        crop.width >= face.width,
        crop.height >= face.height,
{
    let p = padding(face);
    let left = face.x as i64 - p;
    let top = face.y as i64 - p;
    let right = face.x as i64 + face.width as i64 + p;
    let bottom = face.y as i64 + face.height as i64 + p;
    let padded_left = if left < 0 { 0 } else { left };
    let padded_top = if top < 0 { 0 } else { top };
    let padded_right = if right > cols as i64 { cols as i64 } else { right };
    let padded_bottom = if bottom > rows as i64 { rows as i64 } else { bottom };
    Rect {
        x: padded_left as i32,
        y: padded_top as i32,
        width: (padded_right - padded_left) as i32,
        height: (padded_bottom - padded_top) as i32,
    }
}

/// A padded crop never leaves its image: for every face inside an image, the crop's
/// edges satisfy `0 <= left <= right <= cols` and `0 <= top <= bottom <= rows`.
pub proof fn lemma_crop_stays_inside(face: Rect, cols: i32, rows: i32)
    requires
        face.inside(cols as int, rows as int),
    ensures
        0 <= crop_left(face) <= crop_right(face, cols as int) <= cols,
        0 <= crop_top(face) <= crop_bottom(face, rows as int) <= rows,
        padded_rect(face, cols as int, rows as int).inside(cols as int, rows as int),
{
    lemma_padding_is_nearest(face.longest_side());
}

/// A crop covers its face, so a face that covers a pixel gives a crop that does.
pub proof fn lemma_crop_covers_face(face: Rect, cols: i32, rows: i32)
    requires
        face.inside(cols as int, rows as int),
    ensures
        crop_left(face) <= face.x,
        crop_top(face) <= face.y,
        face.right() <= crop_right(face, cols as int),
        face.bottom() <= crop_bottom(face, rows as int),
        !face.is_empty() ==> !padded_rect(face, cols as int, rows as int).is_empty(),
{
    lemma_padding_is_nearest(face.longest_side());
}

/// The crop is the face grown by exactly its padding on all four sides if and only
/// if the grown rectangle lies within the image.
pub proof fn lemma_full_padding_iff_unclamped(face: Rect, cols: i32, rows: i32)
    requires
        face.inside(cols as int, rows as int),
    ensures
        ({
            let p = padding_for(face.longest_side());
            let crop = padded_rect(face, cols as int, rows as int);
            let grown = expanded(face);
            (0 <= grown.0 && 0 <= grown.1 && grown.2 <= cols && grown.3 <= rows) <==> (crop.x
                == face.x - p && crop.y == face.y - p && crop.width == face.width + 2 * p
                && crop.height == face.height + 2 * p)
        }),
{
    lemma_padding_is_nearest(face.longest_side());
}

/// A face on the image's left edge gives a crop whose left edge is 0; the padding cut
/// off there is not added elsewhere: the other three edges are those of the grown
/// face, clamped as for any face.
pub proof fn lemma_left_edge_is_clamped(face: Rect, cols: i32, rows: i32)
    requires
        face.inside(cols as int, rows as int),
        face.x == 0,
    ensures
        ({
            let p = padding_for(face.longest_side());
            let crop = padded_rect(face, cols as int, rows as int);
            &&& crop.x == 0
            &&& crop.right() == at_most(face.width + p, cols as int)
            &&& crop.y == at_least_zero(face.y - p)
            &&& crop.bottom() == at_most(face.bottom() + p, rows as int)
        }),
{
    lemma_padding_is_nearest(face.longest_side());
}

} // verus!
