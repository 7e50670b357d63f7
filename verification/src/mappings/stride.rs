//! The stride mapping: a display put together from strips of pixels, each
//! of which stands as one column. The strips may differ in length, start
//! at different rows, and run up or down.
use crate::geometry::CoordinateSpace;
use crate::geometry::Coordinates;
use crate::geometry::Rectangle;
use crate::geometry::Virtual;
use crate::geometry::VirtualCoordinates;
use crate::liber8tion::interpolate::lemma_scaled_bounds;
use crate::liber8tion::interpolate::scaled;
use crate::mappings::fraction_of;
use crate::mappings::lemma_position_in;
use crate::mappings::position_in;
use crate::mappings::scale_extent;
use crate::render::Cell;
use crate::render::CoordinateView;
use crate::render::Sample;
use crate::render::cells_are_exclusive;
use vstd::prelude::*;

verus! {

/// One strip of a display: a run of pixels that follow each other in the
/// buffer and stand in one column.
#[derive(Default, Clone, Copy, Debug, PartialEq, Eq, Structural, Hash)]
pub struct Stride {
    /// The number of pixels of the strip.
    pub length: usize,
    /// The column in which the strip stands.
    pub x: usize,
    /// The row of the topmost pixel of the strip.
    pub y: usize,
    /// The strip runs from the bottom up: its first pixel in the buffer is
    /// its lowest on the display.
    pub reverse: bool,
    /// The index in the buffer of the first pixel of the strip.
    pub physical_idx: usize,
}

impl Stride {
    /// The index in the buffer of the pixel `offset` rows below the top of
    /// the strip.
    pub open spec fn index_of(self, offset: int) -> int {
        if self.reverse {
            self.physical_idx + self.length - 1 - offset
        } else {
            self.physical_idx + offset
        }
    }

    /// The row of the lowest pixel of the strip.
    pub open spec fn last_row(self) -> int {
        self.y + self.length - 1
    }

    /// The index in the buffer of the pixel `offset` rows below the top of
    /// the strip.
    pub fn pixel_idx_for_offset(&self, offset: usize) -> (index: usize)
        requires
            offset < self.length,
            self.physical_idx + self.length <= usize::MAX,
        ensures
            index == self.index_of(offset as int),
            self.physical_idx <= index < self.physical_idx + self.length,
    {
        if self.reverse {
            self.physical_idx + (self.length - 1 - offset)
        } else {
            self.physical_idx + offset
        }
    }
}

/// The space of a display made of strips: the horizontal coordinate is a
/// column, which is one strip, and the vertical coordinate is a row.
#[derive(Clone, Copy, Debug, Default, PartialEq, Eq, PartialOrd, Ord, Hash)]
pub struct StrideSpace {}

impl CoordinateSpace for StrideSpace {
    type Data = usize;
}

/// A point of the stride space.
pub type StrideCoords = Coordinates<StrideSpace>;

/// One strip as it is given to `StrideMapping::from_json`: column, row of
/// the topmost pixel, number of pixels, and whether it runs bottom up.
pub type Segment = (usize, usize, usize, bool);

/// The number of pixels of the first `count` strips.
pub open spec fn pixels_before(segments: Seq<Stride>, count: int) -> int
    decreases count,
{
    if count <= 0 {
        0
    } else {
        pixels_before(segments, count - 1) + segments[count - 1].length
    }
}

/// The number of pixels of the first `count` strips that are given.
pub open spec fn pixels_given(segments: Seq<Segment>, count: int) -> int
    decreases count,
{
    if count <= 0 {
        0
    } else {
        pixels_given(segments, count - 1) + segments[count - 1].2
    }
}

/// The strips lie end to end in the buffer: every strip has a pixel, ends
/// at a row that a number can hold, and starts in the buffer where the
/// strips before it end.
pub open spec fn laid_end_to_end(segments: Seq<Stride>) -> bool {
    forall|i: int|
        0 <= i < segments.len() ==> {
            &&& (#[trigger] segments[i]).length >= 1
            &&& segments[i].y + segments[i].length <= usize::MAX
            &&& segments[i].physical_idx == pixels_before(segments, i)
        }
}

/// `size` is the smallest rectangle that holds every strip.
pub open spec fn bounds_strips(size: Rectangle<StrideSpace>, segments: Seq<Stride>) -> bool {
    &&& forall|i: int|
        0 <= i < segments.len() ==> {
            &&& size.top_left.x <= (#[trigger] segments[i]).x <= size.bottom_right.x
            &&& size.top_left.y <= segments[i].y
            &&& segments[i].last_row() <= size.bottom_right.y
        }
    &&& exists|i: int| 0 <= i < segments.len() && (#[trigger] segments[i]).x == size.top_left.x
    &&& exists|i: int|
        0 <= i < segments.len() && (#[trigger] segments[i]).x == size.bottom_right.x
    &&& exists|i: int| 0 <= i < segments.len() && (#[trigger] segments[i]).y == size.top_left.y
    &&& exists|i: int|
        0 <= i < segments.len() && (#[trigger] segments[i]).last_row() == size.bottom_right.y
}

/// What `StrideMapping::from_json` can make a mapping of: at least one
/// strip, every strip with at least one pixel and ending at a row that a
/// number can hold, and all the pixels together no more than a number can
/// count.
pub open spec fn strips_fit(segments: Seq<Segment>) -> bool {
    &&& segments.len() > 0
    &&& forall|i: int|
        0 <= i < segments.len() ==> (#[trigger] segments[i]).2 >= 1 && segments[i].1
            + segments[i].2 <= usize::MAX
    &&& pixels_given(segments, segments.len() as int) <= usize::MAX
}

/// A display made of strips: which strip stands in which column, and where
/// its pixels lie in the buffer. It has room for `STRIDE_NUM` strips.
#[derive(Debug)]
pub struct StrideMapping<const STRIDE_NUM: usize> {
    /// The strips, in the order of their pixels in the buffer.
    pub strides: Vec<Stride>,
    /// The number of pixels of the display.
    pub pixel_count: usize,
    /// The smallest rectangle that holds every strip.
    pub size: Rectangle<StrideSpace>,
}

/// The number of pixels never falls from one strip to the next.
pub proof fn lemma_pixels_given_grows(segments: Seq<Segment>, low: int, high: int)
    requires
        0 <= low <= high,
    ensures
        pixels_given(segments, low) <= pixels_given(segments, high),
    decreases high - low,
{
    if low < high {
        lemma_pixels_given_grows(segments, low, high - 1);
    }
}

/// The number of pixels never falls from one strip to the next.
pub proof fn lemma_pixels_before_grows(segments: Seq<Stride>, low: int, high: int)
    requires
        0 <= low <= high,
    ensures
        pixels_before(segments, low) <= pixels_before(segments, high),
    decreases high - low,
{
    if low < high {
        lemma_pixels_before_grows(segments, low, high - 1);
    }
}

/// Strips that lie end to end do not overlap in the buffer: a strip ends
/// before a later one starts, and the last ends with the pixels.
pub proof fn lemma_strips_apart(segments: Seq<Stride>, first: int, second: int)
    requires
        laid_end_to_end(segments),
        0 <= first < second <= segments.len(),
    ensures
        segments[first].physical_idx + segments[first].length <= pixels_before(segments, second),
    decreases second - first,
{
    if first + 1 < second {
        lemma_strips_apart(segments, first, second - 1);
    }
}

impl<const STRIDE_NUM: usize> StrideMapping<STRIDE_NUM> {
    /// The mapping is consistent: it has a strip and no more strips than it
    /// has room for, its strips lie end to end
    /// in the buffer, its pixel count is that of the strips, and its size
    /// is their smallest enclosing rectangle.
    pub open spec fn wf(&self) -> bool {
        &&& 0 < self.strides@.len() <= STRIDE_NUM
        &&& laid_end_to_end(self.strides@)
        &&& self.pixel_count == pixels_before(self.strides@, self.strides@.len() as int)
        &&& bounds_strips(self.size, self.strides@)
    }

    /// Whether the mapping is consistent: see `wf`.
    pub fn is_wf(&self) -> (consistent: bool)
        ensures
            consistent == self.wf(),
    {
        let count: usize = self.strides.len();
        if count == 0 || count > STRIDE_NUM {
            return false;
        }
        let first: Stride = self.strides[0];
        if first.length < 1 || first.y > usize::MAX - first.length {
            return false;
        }
        let mut total: usize = 0;
        let mut left: usize = first.x;
        let mut right: usize = first.x;
        let mut top: usize = first.y;
        let mut bottom: usize = first.y + first.length - 1;
        let ghost mut at_left: int = 0;
        let ghost mut at_right: int = 0;
        let ghost mut at_top: int = 0;
        let ghost mut at_bottom: int = 0;
        let mut i: usize = 0;
        while i < count
            invariant
                i <= count,
                count == self.strides@.len(),
                total == pixels_before(self.strides@, i as int),
                forall|j: int|
                    0 <= j < i ==> {
                        &&& (#[trigger] self.strides@[j]).length >= 1
                        &&& self.strides@[j].y + self.strides@[j].length <= usize::MAX
                        &&& self.strides@[j].physical_idx == pixels_before(self.strides@, j)
                    },
                forall|j: int|
                    0 <= j < i ==> {
                        &&& left <= (#[trigger] self.strides@[j]).x <= right
                        &&& top <= self.strides@[j].y
                        &&& self.strides@[j].last_row() <= bottom
                    },
                left == self.strides@[at_left].x,
                right == self.strides@[at_right].x,
                top == self.strides@[at_top].y,
                bottom == self.strides@[at_bottom].last_row(),
                0 <= at_left < count && (at_left < i || at_left == 0),
                0 <= at_right < count && (at_right < i || at_right == 0),
                0 <= at_top < count && (at_top < i || at_top == 0),
                0 <= at_bottom < count && (at_bottom < i || at_bottom == 0),
            decreases count - i,
        {
            let strip: Stride = self.strides[i];
            if strip.length < 1 || strip.y > usize::MAX - strip.length || strip.physical_idx
                != total {
                return false;
            }
            if total > usize::MAX - strip.length {
                proof {
                    lemma_pixels_before_grows(self.strides@, i + 1, count as int);
                }
                return false;
            }
            total = total + strip.length;
            if strip.x < left {
                left = strip.x;
                proof {
                    at_left = i as int;
                }
            }
            if strip.x > right {
                right = strip.x;
                proof {
                    at_right = i as int;
                }
            }
            if strip.y < top {
                top = strip.y;
                proof {
                    at_top = i as int;
                }
            }
            if strip.y + strip.length - 1 > bottom {
                bottom = strip.y + strip.length - 1;
                proof {
                    at_bottom = i as int;
                }
            }
            i += 1;
        }
        proof {
            assert(self.strides@[at_left].x == left);
            assert(self.strides@[at_right].x == right);
            assert(self.strides@[at_top].y == top);
            assert(self.strides@[at_bottom].last_row() == bottom);
            if bounds_strips(self.size, self.strides@) {
                lemma_size_is_bounds(self.size, self.strides@, left, top, right, bottom);
            }
        }
        total == self.pixel_count && self.size.top_left.x == left && self.size.top_left.y == top
            && self.size.bottom_right.x == right && self.size.bottom_right.y == bottom
    }

    /// Whether a mapping can be made of the given strips: there is room for
    /// them, and `strips_fit` holds of them.
    pub fn accepts(stride_json: &[Segment]) -> (fit: bool)
        ensures
            fit == (strips_fit(stride_json@) && stride_json@.len() <= STRIDE_NUM),
    {
        let count: usize = stride_json.len();
        if count == 0 || count > STRIDE_NUM {
            return false;
        }
        let mut total: usize = 0;
        let mut i: usize = 0;
        while i < count
            invariant
                i <= count,
                count == stride_json@.len(),
                total == pixels_given(stride_json@, i as int),
                forall|j: int|
                    0 <= j < i ==> (#[trigger] stride_json@[j]).2 >= 1 && stride_json@[j].1
                        + stride_json@[j].2 <= usize::MAX,
            decreases count - i,
        {
            let segment = stride_json[i];
            if segment.2 < 1 || segment.1 > usize::MAX - segment.2 {
                return false;
            }
            if total > usize::MAX - segment.2 {
                proof {
                    lemma_pixels_given_grows(stride_json@, i + 1, count as int);
                }
                return false;
            }
            total = total + segment.2;
            i += 1;
        }
        true
    }


    /// A string of 50 fairy lights.
    pub fn new_fairylights() -> (map: Self)
        requires
            STRIDE_NUM >= 1,
        ensures
            map.wf(),
            map.strides@.len() == 1,
            map.pixel_count == 50,
            map.size == (Rectangle::<StrideSpace> {
                top_left: Coordinates { x: 0, y: 0 },
                bottom_right: Coordinates { x: 0, y: 49 },
            }),
            forall|i: int|
                0 <= i < 1 ==> {
                    &&& (#[trigger] map.strides@[i]).x == fairylights_strips()[i].0
                    &&& map.strides@[i].y == fairylights_strips()[i].1
                    &&& map.strides@[i].length == fairylights_strips()[i].2
                    &&& map.strides@[i].reverse == fairylights_strips()[i].3
                },
    {
        let strips: [Segment; 1] = [
            (0, 0, 50, false),
        ];
        proof {
            assert(strips@ =~= fairylights_strips());
            lemma_fairylights_fits();
        }
        let map = Self::from_json(strips.as_slice());
        proof {
            assert(map.strides@[0].x == 0);
            assert(map.strides@[0].y == 0);
            assert(map.strides@[0].last_row() == 49);
            lemma_size_is_bounds(map.size, map.strides@, 0, 0, 0, 49);
        }
        map
    }

    /// A mask of thirteen strips that turn at the ends.
    pub fn new_cyberplague() -> (map: Self)
        requires
            STRIDE_NUM >= 13,
        ensures
            map.wf(),
            map.strides@.len() == 13,
            map.pixel_count == 130,
            map.size == (Rectangle::<StrideSpace> {
                top_left: Coordinates { x: 0, y: 0 },
                bottom_right: Coordinates { x: 12, y: 17 },
            }),
            forall|i: int|
                0 <= i < 13 ==> {
                    &&& (#[trigger] map.strides@[i]).x == cyberplague_strips()[i].0
                    &&& map.strides@[i].y == cyberplague_strips()[i].1
                    &&& map.strides@[i].length == cyberplague_strips()[i].2
                    &&& map.strides@[i].reverse == cyberplague_strips()[i].3
                },
    {
        let strips: [Segment; 13] = [
            (0, 6, 6, false),
            (1, 6, 6, true),
            (2, 6, 6, false),
            (3, 4, 9, true),
            (4, 4, 14, false),
            (5, 0, 17, true),
            (6, 2, 12, false),
            (7, 0, 18, true),
            (8, 4, 14, false),
            (9, 5, 9, true),
            (10, 4, 7, false),
            (11, 5, 6, true),
            (12, 5, 6, false),
        ];
        proof {
            assert(strips@ =~= cyberplague_strips());
            lemma_cyberplague_fits();
        }
        let map = Self::from_json(strips.as_slice());
        proof {
            assert(map.strides@[0].x == 0);
            assert(map.strides@[12].x == 12);
            assert(map.strides@[5].y == 0);
            assert(map.strides@[4].last_row() == 17);
            lemma_size_is_bounds(map.size, map.strides@, 0, 0, 12, 17);
        }
        map
    }

    /// A jar of eighteen strips that all run down.
    pub fn new_jar() -> (map: Self)
        requires
            STRIDE_NUM >= 18,
        ensures
            map.wf(),
            map.strides@.len() == 18,
            map.pixel_count == 307,
            map.size == (Rectangle::<StrideSpace> {
                top_left: Coordinates { x: 0, y: 0 },
                bottom_right: Coordinates { x: 17, y: 17 },
            }),
            forall|i: int|
                0 <= i < 18 ==> {
                    &&& (#[trigger] map.strides@[i]).x == jar_strips()[i].0
                    &&& map.strides@[i].y == jar_strips()[i].1
                    &&& map.strides@[i].length == jar_strips()[i].2
                    &&& map.strides@[i].reverse == jar_strips()[i].3
                },
    {
        let strips: [Segment; 18] = [
            (0, 0, 17, false),
            (1, 0, 17, false),
            (2, 0, 17, false),
            (3, 0, 17, false),
            (4, 0, 16, false),
            (5, 0, 17, false),
            (6, 0, 17, false),
            (7, 0, 17, false),
            (8, 0, 17, false),
            (9, 0, 17, false),
            (10, 0, 17, false),
            (11, 0, 17, false),
            (12, 0, 18, false),
            (13, 0, 17, false),
            (14, 0, 18, false),
            (15, 0, 17, false),
            (16, 0, 17, false),
            (17, 0, 17, false),
        ];
        proof {
            assert(strips@ =~= jar_strips());
            lemma_jar_fits();
        }
        let map = Self::from_json(strips.as_slice());
        proof {
            assert(map.strides@[0].x == 0);
            assert(map.strides@[17].x == 17);
            assert(map.strides@[0].y == 0);
            assert(map.strides@[12].last_row() == 17);
            lemma_size_is_bounds(map.size, map.strides@, 0, 0, 17, 17);
        }
        map
    }

    /// A panel of sixteen by sixteen pixels whose columns turn at the ends.
    pub fn new_panel() -> (map: Self)
        requires
            STRIDE_NUM >= 16,
        ensures
            map.wf(),
            map.strides@.len() == 16,
            map.pixel_count == 256,
            map.size == (Rectangle::<StrideSpace> {
                top_left: Coordinates { x: 0, y: 0 },
                bottom_right: Coordinates { x: 15, y: 15 },
            }),
            forall|i: int|
                0 <= i < 16 ==> {
                    &&& (#[trigger] map.strides@[i]).x == panel_strips()[i].0
                    &&& map.strides@[i].y == panel_strips()[i].1
                    &&& map.strides@[i].length == panel_strips()[i].2
                    &&& map.strides@[i].reverse == panel_strips()[i].3
                },
    {
        let strips: [Segment; 16] = [
            (0, 0, 16, false),
            (1, 0, 16, true),
            (2, 0, 16, false),
            (3, 0, 16, true),
            (4, 0, 16, false),
            (5, 0, 16, true),
            (6, 0, 16, false),
            (7, 0, 16, true),
            (8, 0, 16, false),
            (9, 0, 16, true),
            (10, 0, 16, false),
            (11, 0, 16, true),
            (12, 0, 16, false),
            (13, 0, 16, true),
            (14, 0, 16, false),
            (15, 0, 16, true),
        ];
        proof {
            assert(strips@ =~= panel_strips());
            lemma_panel_fits();
        }
        let map = Self::from_json(strips.as_slice());
        proof {
            assert(map.strides@[0].x == 0);
            assert(map.strides@[15].x == 15);
            assert(map.strides@[0].y == 0);
            assert(map.strides@[0].last_row() == 15);
            lemma_size_is_bounds(map.size, map.strides@, 0, 0, 15, 15);
        }
        map
    }

    /// A display of eight strips of different lengths.
    pub fn new_albus() -> (map: Self)
        requires
            STRIDE_NUM >= 8,
        ensures
            map.wf(),
            map.strides@.len() == 8,
            map.pixel_count == 151,
            map.size == (Rectangle::<StrideSpace> {
                top_left: Coordinates { x: 0, y: 0 },
                bottom_right: Coordinates { x: 7, y: 28 },
            }),
            forall|i: int|
                0 <= i < 8 ==> {
                    &&& (#[trigger] map.strides@[i]).x == albus_strips()[i].0
                    &&& map.strides@[i].y == albus_strips()[i].1
                    &&& map.strides@[i].length == albus_strips()[i].2
                    &&& map.strides@[i].reverse == albus_strips()[i].3
                },
    {
        let strips: [Segment; 8] = [
            (0, 0, 29, false),
            (1, 0, 20, false),
            (2, 0, 22, false),
            (3, 0, 19, false),
            (4, 0, 12, false),
            (5, 0, 14, false),
            (6, 0, 16, false),
            (7, 0, 19, false),
        ];
        proof {
            assert(strips@ =~= albus_strips());
            lemma_albus_fits();
        }
        let map = Self::from_json(strips.as_slice());
        proof {
            assert(map.strides@[0].x == 0);
            assert(map.strides@[7].x == 7);
            assert(map.strides@[0].y == 0);
            assert(map.strides@[0].last_row() == 28);
            lemma_size_is_bounds(map.size, map.strides@, 0, 0, 7, 28);
        }
        map
    }

    /// The mapping of a display made of the given strips, each by its
    /// column, the row of its topmost pixel, its number of pixels and
    /// whether it runs bottom up. The pixels of the strips follow each
    /// other in the buffer in the order in which the strips are given.
    /// There must be a strip, and no more strips than the mapping has room
    /// for.
    pub fn from_json(stride_json: &[Segment]) -> (map: Self)
        requires
            strips_fit(stride_json@),
            stride_json@.len() <= STRIDE_NUM,
        ensures
            map.wf(),
            map.strides@.len() == stride_json@.len(),
            forall|i: int|
                0 <= i < stride_json@.len() ==> {
                    &&& (#[trigger] map.strides@[i]).x == stride_json@[i].0
                    &&& map.strides@[i].y == stride_json@[i].1
                    &&& map.strides@[i].length == stride_json@[i].2
                    &&& map.strides@[i].reverse == stride_json@[i].3
                },
            map.pixel_count == pixels_given(stride_json@, stride_json@.len() as int),
    {
        let mut strides: Vec<Stride> = Vec::new();
        let stride_count: usize = stride_json.len();
        let mut physical_idx: usize = 0;
        let first = stride_json[0];
        let mut left: usize = first.0;
        let mut right: usize = first.0;
        let mut top: usize = first.1;
        let mut bottom: usize = first.1 + first.2 - 1;
        let ghost mut at_left: int = 0;
        let ghost mut at_right: int = 0;
        let ghost mut at_top: int = 0;
        let ghost mut at_bottom: int = 0;
        let mut stride_idx: usize = 0;
        while stride_idx < stride_count
            invariant
                strips_fit(stride_json@),
                stride_count == stride_json@.len(),
                stride_idx <= stride_count,
                strides@.len() == stride_idx,
                physical_idx == pixels_given(stride_json@, stride_idx as int),
                physical_idx == pixels_before(strides@, stride_idx as int),
                laid_end_to_end(strides@),
                forall|i: int|
                    0 <= i < stride_idx ==> {
                        &&& (#[trigger] strides@[i]).x == stride_json@[i].0
                        &&& strides@[i].y == stride_json@[i].1
                        &&& strides@[i].length == stride_json@[i].2
                        &&& strides@[i].reverse == stride_json@[i].3
                    },
                forall|i: int|
                    0 <= i < stride_idx ==> {
                        &&& left <= (#[trigger] strides@[i]).x <= right
                        &&& top <= strides@[i].y
                        &&& strides@[i].last_row() <= bottom
                    },
                left == stride_json@[at_left].0,
                right == stride_json@[at_right].0,
                top == stride_json@[at_top].1,
                bottom == stride_json@[at_bottom].1 + stride_json@[at_bottom].2 - 1,
                0 <= at_left < stride_count && (at_left < stride_idx || at_left == 0),
                0 <= at_right < stride_count && (at_right < stride_idx || at_right == 0),
                0 <= at_top < stride_count && (at_top < stride_idx || at_top == 0),
                0 <= at_bottom < stride_count && (at_bottom < stride_idx || at_bottom == 0),
            decreases stride_count - stride_idx,
        {
            let json_data = stride_json[stride_idx];
            let x: usize = json_data.0;
            let y: usize = json_data.1;
            let length: usize = json_data.2;
            let reverse: bool = json_data.3;
            proof {
                lemma_pixels_given_grows(stride_json@, stride_idx + 1, stride_count as int);
            }
            let ghost before = strides@;
            strides.push(Stride { length, x, y, reverse, physical_idx });
            proof {
                lemma_pixels_before_prefix(before, strides@, stride_idx as int);
                assert forall|i: int| 0 <= i < strides@.len() implies (#[trigger] strides@[i]).physical_idx
                    == pixels_before(strides@, i) by {
                    if i < stride_idx {
                        assert(strides@[i] == before[i]);
                        lemma_pixels_before_prefix(before, strides@, i);
                    }
                }
            }
            physical_idx = physical_idx + length;
            if x < left {
                left = x;
                proof {
                    at_left = stride_idx as int;
                }
            }
            if x > right {
                right = x;
                proof {
                    at_right = stride_idx as int;
                }
            }
            if y < top {
                top = y;
                proof {
                    at_top = stride_idx as int;
                }
            }
            if y + length - 1 > bottom {
                bottom = y + length - 1;
                proof {
                    at_bottom = stride_idx as int;
                }
            }
            stride_idx += 1;
        }
        let size = Rectangle::new(Coordinates::new(left, top), Coordinates::new(right, bottom));
        proof {
            assert(strides@[at_left].x == size.top_left.x);
            assert(strides@[at_right].x == size.bottom_right.x);
            assert(strides@[at_top].y == size.top_left.y);
            assert(strides@[at_bottom].last_row() == size.bottom_right.y);
        }
        StrideMapping { strides, pixel_count: physical_idx, size }
    }
}

/// The pixels before a strip do not depend on the strips after it.
pub proof fn lemma_pixels_before_prefix(shorter: Seq<Stride>, longer: Seq<Stride>, count: int)
    requires
        count <= shorter.len() <= longer.len(),
        forall|i: int| 0 <= i < shorter.len() ==> shorter[i] == longer[i],
    ensures
        pixels_before(shorter, count) == pixels_before(longer, count),
    decreases count,
{
    if count > 0 {
        lemma_pixels_before_prefix(shorter, longer, count - 1);
    }
}


/// The window of the display that a rectangle of the virtual space
/// selects: each side of the rectangle scaled against the extent of the
/// display along its axis, from the top left corner of the display.
pub open spec fn stride_window(
    size: Rectangle<StrideSpace>,
    rect: Rectangle<Virtual>,
) -> Rectangle<StrideSpace> {
    let width = size.bottom_right.x - size.top_left.x;
    let height = size.bottom_right.y - size.top_left.y;
    Rectangle {
        top_left: Coordinates {
            x: (size.top_left.x + scaled(width, rect.top_left.x as int)) as usize,
            y: (size.top_left.y + scaled(height, rect.top_left.y as int)) as usize,
        },
        bottom_right: Coordinates {
            x: (size.top_left.x + scaled(width, rect.bottom_right.x as int)) as usize,
            y: (size.top_left.y + scaled(height, rect.bottom_right.y as int)) as usize,
        },
    }
}

/// The window that a rectangle selects lies within the display.
pub proof fn lemma_window_within(size: Rectangle<StrideSpace>, rect: Rectangle<Virtual>)
    requires
        size.top_left.x <= size.bottom_right.x,
        size.top_left.y <= size.bottom_right.y,
    ensures
        size.top_left.x <= stride_window(size, rect).top_left.x <= size.bottom_right.x,
        size.top_left.x <= stride_window(size, rect).bottom_right.x <= size.bottom_right.x,
        size.top_left.y <= stride_window(size, rect).top_left.y <= size.bottom_right.y,
        size.top_left.y <= stride_window(size, rect).bottom_right.y <= size.bottom_right.y,
        rect.top_left.x <= rect.bottom_right.x ==> stride_window(size, rect).top_left.x
            <= stride_window(size, rect).bottom_right.x,
        rect.top_left.y <= rect.bottom_right.y ==> stride_window(size, rect).top_left.y
            <= stride_window(size, rect).bottom_right.y,
{
    let width = size.bottom_right.x - size.top_left.x;
    let height = size.bottom_right.y - size.top_left.y;
    lemma_scaled_bounds(width, rect.top_left.x as int);
    lemma_scaled_bounds(width, rect.bottom_right.x as int);
    lemma_scaled_bounds(height, rect.top_left.y as int);
    lemma_scaled_bounds(height, rect.bottom_right.y as int);
    if rect.top_left.x <= rect.bottom_right.x {
        lemma_scaled_by_larger(width, rect.top_left.x as int, rect.bottom_right.x as int);
    }
    if rect.top_left.y <= rect.bottom_right.y {
        lemma_scaled_by_larger(height, rect.top_left.y as int, rect.bottom_right.y as int);
    }
}

/// Scaling by a larger fraction gives no less.
pub proof fn lemma_scaled_by_larger(value: int, small: int, large: int)
    requires
        0 <= value,
        0 <= small <= large,
    ensures
        scaled(value, small) <= scaled(value, large),
{
    assert(value * small <= value * large) by (nonlinear_arith)
        requires
            0 <= value,
            0 <= small <= large,
    ;
}

/// The first strip from `from` on that stands in the given column, or the
/// number of strips where none does.
pub open spec fn column_strip(segments: Seq<Stride>, column: int, from: int) -> int
    decreases segments.len() - from,
{
    if from >= segments.len() {
        segments.len() as int
    } else if segments[from].x == column {
        from
    } else {
        column_strip(segments, column, from + 1)
    }
}

/// What `column_strip` finds stands in the column, and no strip before it
/// does.
pub proof fn lemma_column_strip(segments: Seq<Stride>, column: int, from: int)
    requires
        0 <= from <= segments.len(),
    ensures
        from <= column_strip(segments, column, from) <= segments.len(),
        column_strip(segments, column, from) < segments.len() ==> segments[column_strip(
            segments,
            column,
            from,
        )].x == column,
        forall|i: int|
            from <= i < column_strip(segments, column, from) ==> (#[trigger] segments[i]).x
                != column,
    decreases segments.len() - from,
{
    if from < segments.len() && segments[from].x != column {
        lemma_column_strip(segments, column, from + 1);
    }
}

/// The cell of a strip at a column and row of a window: its virtual
/// coordinates are its position within the window along each axis, and its
/// pixel is the one that many rows below the top of the strip.
pub open spec fn stride_cell(
    strip: Stride,
    window: Rectangle<StrideSpace>,
    column: int,
    row: int,
) -> Cell<Virtual> {
    (
        Coordinates {
            x: position_in(column, window.top_left.x as int, window.bottom_right.x as int) as u8,
            y: position_in(row, window.top_left.y as int, window.bottom_right.y as int) as u8,
        },
        strip.index_of(row - strip.y) as usize,
    )
}

/// The first row from `from_row` on at which a strip has a pixel.
pub open spec fn first_row(strip: Stride, from_row: int) -> int {
    if from_row < strip.y {
        strip.y as int
    } else {
        from_row
    }
}

/// The last row of a window at which a strip has a pixel.
pub open spec fn final_row(strip: Stride, window: Rectangle<StrideSpace>) -> int {
    if strip.last_row() < window.bottom_right.y {
        strip.last_row()
    } else {
        window.bottom_right.y as int
    }
}

/// The cells of one column of a window from a row on, top down: those of
/// the strip that stands in the column, clipped to the rows of the window.
/// A column without a strip, or whose strip does not reach into these
/// rows, has no cells.
pub open spec fn column_cells(
    segments: Seq<Stride>,
    window: Rectangle<StrideSpace>,
    column: int,
    from_row: int,
) -> Seq<Cell<Virtual>> {
    let found = column_strip(segments, column, 0);
    if found >= segments.len() {
        Seq::empty()
    } else {
        let strip = segments[found];
        let top = first_row(strip, from_row);
        let bottom = final_row(strip, window);
        if top > bottom {
            Seq::empty()
        } else {
            Seq::new((bottom - top + 1) as nat, |k: int| stride_cell(strip, window, column, top + k))
        }
    }
}

/// The cells of a window from a column and a row of that column on: the
/// rest of that column, then every later column of the window from the top
/// of the window, left to right.
pub open spec fn cells_from(
    segments: Seq<Stride>,
    window: Rectangle<StrideSpace>,
    column: int,
    from_row: int,
) -> Seq<Cell<Virtual>>
    decreases window.bottom_right.x - column + 1,
{
    if column > window.bottom_right.x {
        Seq::empty()
    } else {
        column_cells(segments, window, column, from_row) + cells_from(
            segments,
            window,
            column + 1,
            window.top_left.y as int,
        )
    }
}

/// The cells that a rectangle of the virtual space selects on a display
/// made of strips.
pub open spec fn stride_cells(
    segments: Seq<Stride>,
    size: Rectangle<StrideSpace>,
    rect: Rectangle<Virtual>,
) -> Seq<Cell<Virtual>> {
    let window = stride_window(size, rect);
    cells_from(segments, window, window.top_left.x as int, window.top_left.y as int)
}

/// The column and row of the cell at position `k` among the cells of a
/// window from a column and row on.
pub open spec fn origin_of(
    segments: Seq<Stride>,
    window: Rectangle<StrideSpace>,
    column: int,
    from_row: int,
    k: int,
) -> (int, int)
    decreases window.bottom_right.x - column + 1,
{
    if column > window.bottom_right.x {
        (column, from_row)
    } else {
        let here = column_cells(segments, window, column, from_row);
        if k < here.len() {
            (column, first_row(segments[column_strip(segments, column, 0)], from_row) + k)
        } else {
            origin_of(segments, window, column + 1, window.top_left.y as int, k - here.len())
        }
    }
}

/// Every cell of a window is the cell of a strip at a column and row that
/// lie in the window and on the strip, and the cells come column by
/// column and, within a column, row by row.
pub proof fn lemma_cells_from(
    segments: Seq<Stride>,
    window: Rectangle<StrideSpace>,
    column: int,
    from_row: int,
)
    requires
        window.top_left.y <= from_row,
    ensures
        forall|k: int|
            0 <= k < cells_from(segments, window, column, from_row).len() ==> {
                let origin = #[trigger] origin_of(segments, window, column, from_row, k);
                let found = column_strip(segments, origin.0, 0);
                &&& column <= origin.0 <= window.bottom_right.x
                &&& 0 <= found < segments.len()
                &&& segments[found].x == origin.0
                &&& segments[found].y <= origin.1 <= segments[found].last_row()
                &&& window.top_left.y <= origin.1 <= window.bottom_right.y
                &&& (origin.0 == column ==> from_row <= origin.1)
                &&& cells_from(segments, window, column, from_row)[k] == stride_cell(
                    segments[found],
                    window,
                    origin.0,
                    origin.1,
                )
            },
        forall|j: int, k: int|
            0 <= j < k < cells_from(segments, window, column, from_row).len() ==> {
                let a = #[trigger] origin_of(segments, window, column, from_row, j);
                let b = #[trigger] origin_of(segments, window, column, from_row, k);
                a.0 < b.0 || (a.0 == b.0 && a.1 < b.1)
            },
    decreases window.bottom_right.x - column + 1,
{
    if column <= window.bottom_right.x {
        let here = column_cells(segments, window, column, from_row);
        let rest = cells_from(segments, window, column + 1, window.top_left.y as int);
        let all = cells_from(segments, window, column, from_row);
        lemma_cells_from(segments, window, column + 1, window.top_left.y as int);
        lemma_column_strip(segments, column, 0);
        assert forall|k: int| 0 <= k < all.len() implies {
            let origin = #[trigger] origin_of(segments, window, column, from_row, k);
            let found = column_strip(segments, origin.0, 0);
            &&& column <= origin.0 <= window.bottom_right.x
            &&& 0 <= found < segments.len()
            &&& segments[found].x == origin.0
            &&& segments[found].y <= origin.1 <= segments[found].last_row()
            &&& window.top_left.y <= origin.1 <= window.bottom_right.y
            &&& (origin.0 == column ==> from_row <= origin.1)
            &&& all[k] == stride_cell(segments[found], window, origin.0, origin.1)
        } by {
            if k >= here.len() {
                let inner = origin_of(
                    segments,
                    window,
                    column + 1,
                    window.top_left.y as int,
                    k - here.len(),
                );
                assert(all[k] == rest[k - here.len()]);
            }
        }
        assert forall|j: int, k: int| 0 <= j < k < all.len() implies {
            let a = #[trigger] origin_of(segments, window, column, from_row, j);
            let b = #[trigger] origin_of(segments, window, column, from_row, k);
            a.0 < b.0 || (a.0 == b.0 && a.1 < b.1)
        } by {
            if j >= here.len() {
                let a = origin_of(
                    segments,
                    window,
                    column + 1,
                    window.top_left.y as int,
                    j - here.len(),
                );
                let b = origin_of(
                    segments,
                    window,
                    column + 1,
                    window.top_left.y as int,
                    k - here.len(),
                );
            } else if k >= here.len() {
                let b = origin_of(
                    segments,
                    window,
                    column + 1,
                    window.top_left.y as int,
                    k - here.len(),
                );
            }
        }
    }
}


/// The cells of a window lie within the pixels of the display, and no two
/// of them share a pixel: no cell of the display is counted twice.
pub proof fn lemma_stride_cells_exclusive(
    segments: Seq<Stride>,
    window: Rectangle<StrideSpace>,
    column: int,
    from_row: int,
)
    requires
        laid_end_to_end(segments),
        pixels_before(segments, segments.len() as int) <= usize::MAX,
        window.top_left.y <= from_row,
    ensures
        cells_are_exclusive(
            cells_from(segments, window, column, from_row),
            pixels_before(segments, segments.len() as int) as nat,
        ),
{
    let cells = cells_from(segments, window, column, from_row);
    let count = pixels_before(segments, segments.len() as int);
    lemma_cells_from(segments, window, column, from_row);
    assert forall|k: int| 0 <= k < cells.len() implies (#[trigger] cells[k]).1 < count by {
        let origin = origin_of(segments, window, column, from_row, k);
        let found = column_strip(segments, origin.0, 0);
        lemma_strips_apart(segments, found, segments.len() as int);
    }
    assert forall|j: int, k: int| 0 <= j < k < cells.len() implies (#[trigger] cells[j]).1 != (
    #[trigger] cells[k]).1 by {
        let a = origin_of(segments, window, column, from_row, j);
        let b = origin_of(segments, window, column, from_row, k);
        let first = column_strip(segments, a.0, 0);
        let second = column_strip(segments, b.0, 0);
        lemma_strips_apart(segments, first, segments.len() as int);
        lemma_strips_apart(segments, second, segments.len() as int);
        if first < second {
            lemma_strips_apart(segments, first, second);
        } else if second < first {
            lemma_strips_apart(segments, second, first);
        }
    }
}

/// A walk over the cells that a rectangle selects on a display made of
/// strips: column by column from the left, and down each column.
#[derive(Debug)]
pub struct StrideView<'a, const STRIDE_NUM: usize> {
    map: &'a StrideMapping<STRIDE_NUM>,
    range: Rectangle<StrideSpace>,
    cur: StrideCoords,
    finished: bool,
}

impl<'a, const STRIDE_NUM: usize> StrideView<'a, STRIDE_NUM> {
    /// The mapping that the walk goes over.
    pub closed spec fn mapping(&self) -> StrideMapping<STRIDE_NUM> {
        *self.map
    }

    /// The window of the display that the walk goes over.
    pub closed spec fn window(&self) -> Rectangle<StrideSpace> {
        self.range
    }

    /// The window of the display that is selected.
    pub fn range(&self) -> (range: Rectangle<StrideSpace>)
        ensures
            range == self.window(),
    {
        self.range
    }

    /// Starts the walk over what `rect` selects on the display of `map`.
    pub fn new(map: &'a StrideMapping<STRIDE_NUM>, rect: &Rectangle<Virtual>) -> (view: Self)
        requires
            map.wf(),
        ensures
            view.wf(),
            view.mapping() == *map,
            view.window() == stride_window(map.size, *rect),
            view.remaining() == stride_cells(map.strides@, map.size, *rect),
    {
        let width: usize = map.size.width();
        let height: usize = map.size.height();
        proof {
            lemma_window_within(map.size, *rect);
        }
        let range: Rectangle<StrideSpace> = Rectangle::new(
            Coordinates::new(
                scale_extent(width, rect.top_left.x) + map.size.left(),
                scale_extent(height, rect.top_left.y) + map.size.top(),
            ),
            Coordinates::new(
                scale_extent(width, rect.bottom_right.x) + map.size.left(),
                scale_extent(height, rect.bottom_right.y) + map.size.top(),
            ),
        );
        let finished: bool = range.top_left.x > range.bottom_right.x;
        StrideView { map, range, cur: range.top_left, finished }
    }

    fn find_column(&self, column: usize) -> (found: usize)
        ensures
            found == column_strip(self.map.strides@, column as int, 0),
            found <= self.map.strides@.len(),
    {
        let count: usize = self.map.strides.len();
        let mut i: usize = 0;
        while i < count
            invariant
                i <= count,
                count == self.map.strides@.len(),
                column_strip(self.map.strides@, column as int, 0) == column_strip(
                    self.map.strides@,
                    column as int,
                    i as int,
                ),
            decreases count - i,
        {
            if self.map.strides[i].x == column {
                return i;
            }
            i += 1;
        }
        count
    }
}

impl<'a, const STRIDE_NUM: usize> CoordinateView for StrideView<'a, STRIDE_NUM> {
    type Space = Virtual;

    closed spec fn wf(&self) -> bool {
        &&& self.map.wf()
        &&& !self.finished ==> {
            &&& self.range.top_left.x <= self.cur.x <= self.range.bottom_right.x
            &&& self.range.top_left.y <= self.cur.y
        }
    }

    closed spec fn remaining(&self) -> Seq<Cell<Virtual>> {
        if self.finished {
            Seq::empty()
        } else {
            cells_from(self.map.strides@, self.range, self.cur.x as int, self.cur.y as int)
        }
    }

    fn next(&mut self) -> (cell: Option<Cell<Virtual>>) {
        while !self.finished
            invariant
                self.wf(),
                self.remaining() == old(self).remaining(),
            decreases
                    if self.finished {
                        0
                    } else {
                        self.range.bottom_right.x - self.cur.x + 1
                    },
        {
            let ghost segments = self.map.strides@;
            let found: usize = self.find_column(self.cur.x);
            if found < self.map.strides.len() {
                let cur_stride: Stride = self.map.strides[found];
                // Skip ahead to the top of the strip where the walk starts above it.
                if self.cur.y < cur_stride.y {
                    proof {
                        lemma_walk_skips_up(
                            segments,
                            self.range,
                            self.cur.x as int,
                            self.cur.y as int,
                        );
                    }
                    self.cur.y = cur_stride.y;
                }
                if self.cur.y <= self.range.bottom_right.y && self.cur.y <= cur_stride.y
                    + cur_stride.length - 1 {
                    let physical_coords: StrideCoords = self.cur;
                    proof {
                        lemma_strips_apart(segments, found as int, segments.len() as int);
                        lemma_walk_yields(
                            segments,
                            self.range,
                            self.cur.x as int,
                            self.cur.y as int,
                        );
                    }
                    let virtual_coords = VirtualCoordinates::new(
                        fraction_between(
                            physical_coords.x,
                            self.range.top_left.x,
                            self.range.bottom_right.x,
                        ),
                        fraction_between(
                            physical_coords.y,
                            self.range.top_left.y,
                            self.range.bottom_right.y,
                        ),
                    );
                    let idx: usize = cur_stride.pixel_idx_for_offset(
                        physical_coords.y - cur_stride.y,
                    );
                    self.cur.y = self.cur.y + 1;
                    return Some((virtual_coords, idx));
                }
            }
            // Nothing is left in this column: go on with the next one.
            proof {
                lemma_walk_leaves_column(
                    segments,
                    self.range,
                    self.cur.x as int,
                    self.cur.y as int,
                );
            }
            if self.cur.x == self.range.bottom_right.x {
                self.finished = true;
            } else {
                self.cur.x = self.cur.x + 1;
                self.cur.y = self.range.top_left.y;
            }
        }
        None
    }
}

/// Above the strip of a column there are no cells: the cells from a row
/// above the strip on are those from the top of the strip on.
pub proof fn lemma_walk_skips_up(
    segments: Seq<Stride>,
    window: Rectangle<StrideSpace>,
    column: int,
    row: int,
)
    requires
        column <= window.bottom_right.x,
        column_strip(segments, column, 0) < segments.len(),
        row < segments[column_strip(segments, column, 0)].y,
    ensures
        cells_from(segments, window, column, row) == cells_from(
            segments,
            window,
            column,
            segments[column_strip(segments, column, 0)].y as int,
        ),
{
    let strip = segments[column_strip(segments, column, 0)];
    assert(column_cells(segments, window, column, row) =~= column_cells(
        segments,
        window,
        column,
        strip.y as int,
    ));
}

/// At a row of the window on which the strip of the column has a pixel,
/// the first of the cells is the cell of that row, and the cells after it
/// are those from the next row on.
pub proof fn lemma_walk_yields(
    segments: Seq<Stride>,
    window: Rectangle<StrideSpace>,
    column: int,
    row: int,
)
    requires
        column <= window.bottom_right.x,
        column_strip(segments, column, 0) < segments.len(),
        segments[column_strip(segments, column, 0)].y <= row,
        row <= segments[column_strip(segments, column, 0)].last_row(),
        row <= window.bottom_right.y,
    ensures
        cells_from(segments, window, column, row).len() > 0,
        cells_from(segments, window, column, row)[0] == stride_cell(
            segments[column_strip(segments, column, 0)],
            window,
            column,
            row,
        ),
        cells_from(segments, window, column, row).drop_first() == cells_from(
            segments,
            window,
            column,
            row + 1,
        ),
{
    let first = column_cells(segments, window, column, row);
    let ahead = column_cells(segments, window, column, row + 1);
    let later = cells_from(segments, window, column + 1, window.top_left.y as int);
    assert(first.len() > 0);
    assert(first.drop_first() =~= ahead);
    assert((first + later).drop_first() =~= ahead + later);
    assert((first + later)[0] == first[0]);
}

/// Where the column has no strip, or its strip has no pixel on the rows of
/// the window from `row` on, the cells are those of the columns after it.
pub proof fn lemma_walk_leaves_column(
    segments: Seq<Stride>,
    window: Rectangle<StrideSpace>,
    column: int,
    row: int,
)
    requires
        column <= window.bottom_right.x,
        column_strip(segments, column, 0) >= segments.len() || first_row(
            segments[column_strip(segments, column, 0)],
            row,
        ) > final_row(segments[column_strip(segments, column, 0)], window),
    ensures
        cells_from(segments, window, column, row) == cells_from(
            segments,
            window,
            column + 1,
            window.top_left.y as int,
        ),
        column == window.bottom_right.x ==> cells_from(segments, window, column, row)
            == Seq::<Cell<Virtual>>::empty(),
{
    assert(column_cells(segments, window, column, row) =~= Seq::empty());
    let later = cells_from(segments, window, column + 1, window.top_left.y as int);
    assert(Seq::<Cell<Virtual>>::empty() + later =~= later);
}

/// Where `index` lies between `start` and `end`, as a fraction of 255
/// rounded down.
fn fraction_between(index: usize, start: usize, end: usize) -> (fraction: u8)
    requires
        start <= index <= end,
    ensures
        fraction as int == position_in(index as int, start as int, end as int),
{
    fraction_of(index - start, end - start)
}


/// The strip of the mapping that is made where none is asked for: 255
/// pixels that run down column 0 from row 0.
pub open spec fn default_strip() -> Stride {
    Stride { length: 255, x: 0, y: 0, reverse: false, physical_idx: 0 }
}

impl<const STRIDE_NUM: usize> StrideMapping<STRIDE_NUM> {
    /// One strip of 255 pixels in column 0.
    pub fn new() -> (map: Self)
        requires
            STRIDE_NUM >= 1,
        ensures
            map.wf(),
            map.strides@ == seq![default_strip()],
            map.pixel_count == 255,
            map.size == (Rectangle::<StrideSpace> {
                top_left: Coordinates { x: 0, y: 0 },
                bottom_right: Coordinates { x: 0, y: 254 },
            }),
    {
        let strip = Stride { length: 255, x: 0, y: 0, reverse: false, physical_idx: 0 };
        let mut strides: Vec<Stride> = Vec::new();
        strides.push(strip);
        let size = Rectangle::new(Coordinates::new(0, 0), Coordinates::new(0, 254));
        proof {
            assert(strides@ =~= seq![strip]);
            assert(pixels_before(strides@, 0) == 0);
            assert(pixels_before(strides@, 1) == 255) by {
                reveal_with_fuel(pixels_before, 2);
            }
            assert(strides@[0].x == size.top_left.x);
            assert(strides@[0].last_row() == size.bottom_right.y);
        }
        StrideMapping { strides, pixel_count: 255, size }
    }
}

impl<const STRIDE_NUM: usize> Default for StrideMapping<STRIDE_NUM> {
    /// One strip of 255 pixels in column 0. A mapping with room for no strip
    /// holds the strip all the same, and is not consistent.
    fn default() -> (map: Self)
        ensures
            STRIDE_NUM >= 1 ==> map.wf(),
            map.strides@ == seq![default_strip()],
            map.pixel_count == 255,
            map.size == (Rectangle::<StrideSpace> {
                top_left: Coordinates { x: 0, y: 0 },
                bottom_right: Coordinates { x: 0, y: 254 },
            }),
    {
        let strip = Stride { length: 255, x: 0, y: 0, reverse: false, physical_idx: 0 };
        let mut strides: Vec<Stride> = Vec::new();
        strides.push(strip);
        let size = Rectangle::new(Coordinates::new(0, 0), Coordinates::new(0, 254));
        proof {
            assert(strides@ =~= seq![strip]);
            assert(pixels_before(strides@, 0) == 0);
            assert(pixels_before(strides@, 1) == 255) by {
                reveal_with_fuel(pixels_before, 2);
            }
            assert(strides@[0].x == size.top_left.x);
            assert(strides@[0].last_row() == size.bottom_right.y);
        }
        StrideMapping { strides, pixel_count: 255, size }
    }
}

/// A buffer of pixels, sampled through a stride mapping.
pub struct StrideSampler<'a, P, const STRIDE_NUM: usize> {
    /// The pixels of the display.
    pub pixbuf: &'a mut [P],
    /// Where the strips of the display lie.
    pub map: &'a StrideMapping<STRIDE_NUM>,
}

impl<'a, P: Copy, const STRIDE_NUM: usize> StrideSampler<'a, P, STRIDE_NUM> {
    /// A sampler over the pixels of a display made of strips. The buffer
    /// holds at least the pixels of the mapping.
    pub fn new(pixbuf: &'a mut [P], map: &'a StrideMapping<STRIDE_NUM>) -> (sampler: Self)
        requires
            map.wf(),
            map.pixel_count <= old(pixbuf)@.len(),
        ensures
            sampler.wf(),
            sampler.pixels() == old(pixbuf)@,
            *sampler.map == *map,
            final(sampler.pixbuf)@ == final(pixbuf)@,
    {
        let _ = pixbuf.len();
        StrideSampler { pixbuf, map }
    }
}

impl<'a, P: Copy, const STRIDE_NUM: usize> Sample for StrideSampler<'a, P, STRIDE_NUM> {
    type Space = Virtual;

    type Pixel = P;

    type View = StrideView<'a, STRIDE_NUM>;

    open spec fn wf(&self) -> bool {
        &&& self.map.wf()
        &&& self.map.pixel_count <= self.pixbuf@.len() <= usize::MAX
    }

    open spec fn pixels(&self) -> Seq<P> {
        self.pixbuf@
    }

    open spec fn cells(&self, rect: Rectangle<Virtual>) -> Seq<Cell<Virtual>> {
        stride_cells(self.map.strides@, self.map.size, rect)
    }

    proof fn lemma_cells_exclusive(&self, rect: Rectangle<Virtual>) {
        let window = stride_window(self.map.size, rect);
        lemma_stride_cells_exclusive(
            self.map.strides@,
            window,
            window.top_left.x as int,
            window.top_left.y as int,
        );
    }

    fn sample(&self, rect: &Rectangle<Virtual>) -> (view: StrideView<'a, STRIDE_NUM>) {
        StrideView::new(self.map, rect)
    }

    fn pixel(&self, index: usize) -> (pixel: P) {
        self.pixbuf[index]
    }

    fn set_pixel(&mut self, index: usize, pixel: P)
        ensures
            final(final(self).pixbuf)@ == final(old(self).pixbuf)@,
            *final(self).map == *old(self).map,
    {
        self.pixbuf[index] = pixel;
    }
}


/// The cell of the linear mapping that stands for a cell of the stride
/// mapping on a display of one column: the same pixel, with the position
/// along the strip as the horizontal coordinate.
pub open spec fn along_strip(cell: Cell<Virtual>) -> Cell<Virtual> {
    (Coordinates { x: cell.0.y, y: cell.0.x }, cell.1)
}

/// The rectangle whose horizontal sides are the vertical sides of `rect`,
/// and the other way round.
pub open spec fn transposed(rect: Rectangle<Virtual>) -> Rectangle<Virtual> {
    Rectangle {
        top_left: Coordinates { x: rect.top_left.y, y: rect.top_left.x },
        bottom_right: Coordinates { x: rect.bottom_right.y, y: rect.bottom_right.x },
    }
}

/// A display of one strip that runs down column 0 from row 0 behaves as
/// the linear mapping of the same length: a rectangle selects on it the
/// pixels that the linear mapping selects for the same extent along the
/// strip, in the same order and with the same position along the strip.
/// The strip runs along the vertical axis of the stride mapping and along
/// the horizontal axis of the linear mapping.
pub proof fn lemma_single_strip_is_linear(
    segments: Seq<Stride>,
    size: Rectangle<StrideSpace>,
    rect: Rectangle<Virtual>,
)
    requires
        segments.len() == 1,
        segments[0] == (Stride {
            length: segments[0].length,
            x: 0,
            y: 0,
            reverse: false,
            physical_idx: 0,
        }),
        1 <= segments[0].length < usize::MAX,
        size.top_left.x == 0,
        size.top_left.y == 0,
        size.bottom_right.x == 0,
        size.bottom_right.y == segments[0].length - 1,
    ensures
        stride_cells(segments, size, rect).len() == crate::mappings::linear::linear_cells(
            segments[0].length as nat,
            transposed(rect),
        ).len(),
        forall|k: int|
            0 <= k < stride_cells(segments, size, rect).len() ==> along_strip(
                #[trigger] stride_cells(segments, size, rect)[k],
            ) == crate::mappings::linear::linear_cells(
                segments[0].length as nat,
                transposed(rect),
            )[k],
{
    let count = segments[0].length as nat;
    let window = stride_window(size, rect);
    let strip = segments[0];
    lemma_scaled_bounds(0, rect.top_left.x as int);
    lemma_scaled_bounds(0, rect.bottom_right.x as int);
    lemma_scaled_bounds(count - 1, rect.top_left.y as int);
    lemma_scaled_bounds(count - 1, rect.bottom_right.y as int);
    let top = window.top_left.y as int;
    let bottom = window.bottom_right.y as int;
    assert(window.top_left.x == 0 && window.bottom_right.x == 0);
    assert(top == crate::mappings::linear::linear_start(count, transposed(rect)));
    assert(bottom == crate::mappings::linear::linear_end(count, transposed(rect)));
    assert(column_strip(segments, 0, 0) == 0);
    let column = column_cells(segments, window, 0, top);
    let later = cells_from(segments, window, 1, top);
    assert(later =~= Seq::empty());
    let all = stride_cells(segments, size, rect);
    assert(all =~= column + later);
    assert(all =~= column);
    let linear = crate::mappings::linear::linear_cells(count, transposed(rect));
    if top <= bottom {
        assert forall|k: int| 0 <= k < all.len() implies along_strip(#[trigger] all[k])
            == linear[k] by {
            assert(all[k] == stride_cell(strip, window, 0, top + k));
            assert(position_in(top + k, top, bottom) == position_in(k, 0, bottom - top));
        }
    }
}


/// The strips of `StrideMapping::new_fairylights`.
pub open spec fn fairylights_strips() -> Seq<Segment> {
    seq![
        (0usize, 0usize, 50usize, false),
    ]
}

/// A mapping can be made of the strips of `StrideMapping::new_fairylights`:
/// they have 50 pixels, in columns 0 to 0 and rows 0 to 49.
pub proof fn lemma_fairylights_fits()
    ensures
        strips_fit(fairylights_strips()),
        fairylights_strips().len() == 1,
        pixels_given(fairylights_strips(), 1) == 50,
        forall|i: int|
            0 <= i < 1 ==> 0 <= (#[trigger] fairylights_strips()[i]).0 <= 0 && 0
                <= fairylights_strips()[i].1 && fairylights_strips()[i].1 + fairylights_strips()[i].2 - 1
                <= 49,
{
    let strips = fairylights_strips();
    assert(pixels_given(strips, 0) == 0);
    assert(pixels_given(strips, 1) == 50);
}

/// The strips of `StrideMapping::new_cyberplague`.
pub open spec fn cyberplague_strips() -> Seq<Segment> {
    seq![
        (0usize, 6usize, 6usize, false),
        (1usize, 6usize, 6usize, true),
        (2usize, 6usize, 6usize, false),
        (3usize, 4usize, 9usize, true),
        (4usize, 4usize, 14usize, false),
        (5usize, 0usize, 17usize, true),
        (6usize, 2usize, 12usize, false),
        (7usize, 0usize, 18usize, true),
        (8usize, 4usize, 14usize, false),
        (9usize, 5usize, 9usize, true),
        (10usize, 4usize, 7usize, false),
        (11usize, 5usize, 6usize, true),
        (12usize, 5usize, 6usize, false),
    ]
}

/// A mapping can be made of the strips of `StrideMapping::new_cyberplague`:
/// they have 130 pixels, in columns 0 to 12 and rows 0 to 17.
pub proof fn lemma_cyberplague_fits()
    ensures
        strips_fit(cyberplague_strips()),
        cyberplague_strips().len() == 13,
        pixels_given(cyberplague_strips(), 13) == 130,
        forall|i: int|
            0 <= i < 13 ==> 0 <= (#[trigger] cyberplague_strips()[i]).0 <= 12 && 0
                <= cyberplague_strips()[i].1 && cyberplague_strips()[i].1 + cyberplague_strips()[i].2 - 1
                <= 17,
{
    let strips = cyberplague_strips();
    assert(pixels_given(strips, 0) == 0);
    assert(pixels_given(strips, 1) == 6);
    assert(pixels_given(strips, 2) == 12);
    assert(pixels_given(strips, 3) == 18);
    assert(pixels_given(strips, 4) == 27);
    assert(pixels_given(strips, 5) == 41);
    assert(pixels_given(strips, 6) == 58);
    assert(pixels_given(strips, 7) == 70);
    assert(pixels_given(strips, 8) == 88);
    assert(pixels_given(strips, 9) == 102);
    assert(pixels_given(strips, 10) == 111);
    assert(pixels_given(strips, 11) == 118);
    assert(pixels_given(strips, 12) == 124);
    assert(pixels_given(strips, 13) == 130);
}

/// The strips of `StrideMapping::new_jar`.
pub open spec fn jar_strips() -> Seq<Segment> {
    seq![
        (0usize, 0usize, 17usize, false),
        (1usize, 0usize, 17usize, false),
        (2usize, 0usize, 17usize, false),
        (3usize, 0usize, 17usize, false),
        (4usize, 0usize, 16usize, false),
        (5usize, 0usize, 17usize, false),
        (6usize, 0usize, 17usize, false),
        (7usize, 0usize, 17usize, false),
        (8usize, 0usize, 17usize, false),
        (9usize, 0usize, 17usize, false),
        (10usize, 0usize, 17usize, false),
        (11usize, 0usize, 17usize, false),
        (12usize, 0usize, 18usize, false),
        (13usize, 0usize, 17usize, false),
        (14usize, 0usize, 18usize, false),
        (15usize, 0usize, 17usize, false),
        (16usize, 0usize, 17usize, false),
        (17usize, 0usize, 17usize, false),
    ]
}

/// A mapping can be made of the strips of `StrideMapping::new_jar`:
/// they have 307 pixels, in columns 0 to 17 and rows 0 to 17.
pub proof fn lemma_jar_fits()
    ensures
        strips_fit(jar_strips()),
        jar_strips().len() == 18,
        pixels_given(jar_strips(), 18) == 307,
        forall|i: int|
            0 <= i < 18 ==> 0 <= (#[trigger] jar_strips()[i]).0 <= 17 && 0
                <= jar_strips()[i].1 && jar_strips()[i].1 + jar_strips()[i].2 - 1
                <= 17,
{
    let strips = jar_strips();
    assert(pixels_given(strips, 0) == 0);
    assert(pixels_given(strips, 1) == 17);
    assert(pixels_given(strips, 2) == 34);
    assert(pixels_given(strips, 3) == 51);
    assert(pixels_given(strips, 4) == 68);
    assert(pixels_given(strips, 5) == 84);
    assert(pixels_given(strips, 6) == 101);
    assert(pixels_given(strips, 7) == 118);
    assert(pixels_given(strips, 8) == 135);
    assert(pixels_given(strips, 9) == 152);
    assert(pixels_given(strips, 10) == 169);
    assert(pixels_given(strips, 11) == 186);
    assert(pixels_given(strips, 12) == 203);
    assert(pixels_given(strips, 13) == 221);
    assert(pixels_given(strips, 14) == 238);
    assert(pixels_given(strips, 15) == 256);
    assert(pixels_given(strips, 16) == 273);
    assert(pixels_given(strips, 17) == 290);
    assert(pixels_given(strips, 18) == 307);
}

/// The strips of `StrideMapping::new_panel`.
pub open spec fn panel_strips() -> Seq<Segment> {
    seq![
        (0usize, 0usize, 16usize, false),
        (1usize, 0usize, 16usize, true),
        (2usize, 0usize, 16usize, false),
        (3usize, 0usize, 16usize, true),
        (4usize, 0usize, 16usize, false),
        (5usize, 0usize, 16usize, true),
        (6usize, 0usize, 16usize, false),
        (7usize, 0usize, 16usize, true),
        (8usize, 0usize, 16usize, false),
        (9usize, 0usize, 16usize, true),
        (10usize, 0usize, 16usize, false),
        (11usize, 0usize, 16usize, true),
        (12usize, 0usize, 16usize, false),
        (13usize, 0usize, 16usize, true),
        (14usize, 0usize, 16usize, false),
        (15usize, 0usize, 16usize, true),
    ]
}

/// A mapping can be made of the strips of `StrideMapping::new_panel`:
/// they have 256 pixels, in columns 0 to 15 and rows 0 to 15.
pub proof fn lemma_panel_fits()
    ensures
        strips_fit(panel_strips()),
        panel_strips().len() == 16,
        pixels_given(panel_strips(), 16) == 256,
        forall|i: int|
            0 <= i < 16 ==> 0 <= (#[trigger] panel_strips()[i]).0 <= 15 && 0
                <= panel_strips()[i].1 && panel_strips()[i].1 + panel_strips()[i].2 - 1
                <= 15,
{
    let strips = panel_strips();
    assert(pixels_given(strips, 0) == 0);
    assert(pixels_given(strips, 1) == 16);
    assert(pixels_given(strips, 2) == 32);
    assert(pixels_given(strips, 3) == 48);
    assert(pixels_given(strips, 4) == 64);
    assert(pixels_given(strips, 5) == 80);
    assert(pixels_given(strips, 6) == 96);
    assert(pixels_given(strips, 7) == 112);
    assert(pixels_given(strips, 8) == 128);
    assert(pixels_given(strips, 9) == 144);
    assert(pixels_given(strips, 10) == 160);
    assert(pixels_given(strips, 11) == 176);
    assert(pixels_given(strips, 12) == 192);
    assert(pixels_given(strips, 13) == 208);
    assert(pixels_given(strips, 14) == 224);
    assert(pixels_given(strips, 15) == 240);
    assert(pixels_given(strips, 16) == 256);
}

/// The strips of `StrideMapping::new_albus`.
pub open spec fn albus_strips() -> Seq<Segment> {
    seq![
        (0usize, 0usize, 29usize, false),
        (1usize, 0usize, 20usize, false),
        (2usize, 0usize, 22usize, false),
        (3usize, 0usize, 19usize, false),
        (4usize, 0usize, 12usize, false),
        (5usize, 0usize, 14usize, false),
        (6usize, 0usize, 16usize, false),
        (7usize, 0usize, 19usize, false),
    ]
}

/// A mapping can be made of the strips of `StrideMapping::new_albus`:
/// they have 151 pixels, in columns 0 to 7 and rows 0 to 28.
pub proof fn lemma_albus_fits()
    ensures
        strips_fit(albus_strips()),
        albus_strips().len() == 8,
        pixels_given(albus_strips(), 8) == 151,
        forall|i: int|
            0 <= i < 8 ==> 0 <= (#[trigger] albus_strips()[i]).0 <= 7 && 0
                <= albus_strips()[i].1 && albus_strips()[i].1 + albus_strips()[i].2 - 1
                <= 28,
{
    let strips = albus_strips();
    assert(pixels_given(strips, 0) == 0);
    assert(pixels_given(strips, 1) == 29);
    assert(pixels_given(strips, 2) == 49);
    assert(pixels_given(strips, 3) == 71);
    assert(pixels_given(strips, 4) == 90);
    assert(pixels_given(strips, 5) == 102);
    assert(pixels_given(strips, 6) == 116);
    assert(pixels_given(strips, 7) == 132);
    assert(pixels_given(strips, 8) == 151);
}

/// The smallest rectangle that holds every strip has the least column and
/// row of the strips as its top left corner and the greatest as its bottom
/// right corner.
pub proof fn lemma_size_is_bounds(
    size: Rectangle<StrideSpace>,
    segments: Seq<Stride>,
    left: usize,
    top: usize,
    right: usize,
    bottom: usize,
)
    requires
        bounds_strips(size, segments),
        forall|i: int|
            0 <= i < segments.len() ==> left <= (#[trigger] segments[i]).x <= right && top
                <= segments[i].y && segments[i].last_row() <= bottom,
        exists|i: int| 0 <= i < segments.len() && (#[trigger] segments[i]).x == left,
        exists|i: int| 0 <= i < segments.len() && (#[trigger] segments[i]).x == right,
        exists|i: int| 0 <= i < segments.len() && (#[trigger] segments[i]).y == top,
        exists|i: int| 0 <= i < segments.len() && (#[trigger] segments[i]).last_row() == bottom,
    ensures
        size == (Rectangle::<StrideSpace> {
            top_left: Coordinates { x: left, y: top },
            bottom_right: Coordinates { x: right, y: bottom },
        }),
{
}

} // verus!
