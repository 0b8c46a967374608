//! What the batch exchanges with a face detector: the two tunable parameters it is
//! called with, and the rectangles it reports for one image.
//!
//! The detector itself is not part of this crate. Whatever finds the faces reports
//! them through `DetectionResult::new`, which admits only rectangles that lie within
//! the image they were found in.

use vstd::prelude::*;
use crate::geometry::Rect;

verus! {

/// The tunable parameters of a detector call.
#[derive(Clone, Copy, Debug, PartialEq, Eq, Structural)]
pub struct DetectorParams {
    /// How many neighbouring candidates a face needs: higher gives fewer, surer faces.
    pub min_neighbors: i32,
    /// The smallest side, in pixels, of a face that is reported.
    pub min_face_size: i32,
}

pub const DEFAULT_MIN_NEIGHBORS: i32 = 8;

pub const DEFAULT_MIN_FACE_SIZE: i32 = 100;

/// The factor by which a detector's search window grows from one scale to the next,
/// 1.4, as the fraction `SCALE_NUMERATOR / SCALE_DENOMINATOR`. It is the same for
/// every call.
pub const SCALE_NUMERATOR: i32 = 14;

pub const SCALE_DENOMINATOR: i32 = 10;

impl Default for DetectorParams {
    fn default() -> (params: DetectorParams)
        ensures
            params.min_neighbors == DEFAULT_MIN_NEIGHBORS,
            params.min_face_size == DEFAULT_MIN_FACE_SIZE,
    {
        DetectorParams {
            min_neighbors: DEFAULT_MIN_NEIGHBORS,
            min_face_size: DEFAULT_MIN_FACE_SIZE,
        }
    }
}

/// The faces found in one image of `cols` by `rows` pixels, in the detector's order.
#[verifier::ext_equal]
pub struct DetectionView {
    pub cols: int,
    pub rows: int,
    pub faces: Seq<Rect>,
}

impl DetectionView {
    /// Every face lies within the image.
    pub open spec fn valid(self) -> bool {
        forall|i: int| 0 <= i < self.faces.len() ==> (#[trigger] self.faces[i]).inside(
            self.cols,
            self.rows,
        )
    }
}

/// The faces found in one image. Every value of this type holds only faces that lie
/// within the image.
#[derive(Debug)]
pub struct DetectionResult {
    cols: i32,
    rows: i32,
    faces: Vec<Rect>,
}

impl View for DetectionResult {
    type V = DetectionView;

    closed spec fn view(&self) -> DetectionView {
        DetectionView { cols: self.cols as int, rows: self.rows as int, faces: self.faces@ }
    }
}

/// Whether the first `n` rectangles of `faces` lie within an image of the given size.
pub open spec fn all_inside(faces: Seq<Rect>, cols: int, rows: int, n: int) -> bool {
    forall|i: int| 0 <= i < n ==> (#[trigger] faces[i]).inside(cols, rows)
}

impl DetectionResult {
    #[verifier::type_invariant]
    spec fn holds_faces_inside(self) -> bool {
        self@.valid()
    }

    /// Takes a detector's report for an image of `cols` by `rows` pixels. It is
    /// refused where a rectangle has a negative coordinate or extent, or reaches
    /// beyond the image.
    pub fn new(cols: i32, rows: i32, faces: Vec<Rect>) -> (result: Option<DetectionResult>)
        ensures
            match result {
                Some(detection) => {
                    &&& detection@ == (DetectionView {
                        cols: cols as int,
                        rows: rows as int,
                        faces: faces@,
                    })
                    &&& detection@.valid()
                },
                None => !all_inside(faces@, cols as int, rows as int, faces@.len() as int),
            },
    {
        let mut i: usize = 0;
        while i < faces.len()
            invariant
                i <= faces.len(),
                all_inside(faces@, cols as int, rows as int, i as int),
            decreases faces.len() - i,
        {
            if !faces[i].is_inside(cols, rows) {
                return None;
            }
            i = i + 1;
        }
        Some(DetectionResult { cols, rows, faces })
    }

    /// The width of the image, in pixels.
    pub fn cols(&self) -> (cols: i32)
        ensures
            cols == self@.cols,
    {
        self.cols
    }

    /// The height of the image, in pixels.
    pub fn rows(&self) -> (rows: i32)
        ensures
            rows == self@.rows,
    {
        self.rows
    }

    /// The faces, in the detector's order.
    pub fn faces(&self) -> (faces: &Vec<Rect>)
        ensures
            faces@ == self@.faces,
            self@.valid(),
    {
        proof {
            use_type_invariant(self);
        }
        &self.faces
    }

    /// The number of faces found.
    pub fn face_count(&self) -> (count: usize)
        ensures
            count == self@.faces.len(),
    {
        self.faces.len()
    }
}

} // verus!
