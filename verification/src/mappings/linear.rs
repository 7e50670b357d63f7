//! The linear mapping: a strip of pixels in one line. The horizontal axis
//! of the virtual space runs along the strip, and the vertical axis means
//! nothing.
use crate::geometry::CoordinateSpace;
use crate::geometry::Coordinates;
use crate::geometry::Rectangle;
use crate::geometry::Virtual;
use crate::geometry::VirtualCoordinates;
use crate::liber8tion::interpolate::lemma_scaled_bounds;
use crate::liber8tion::interpolate::lemma_scaled_monotonic;
use crate::liber8tion::interpolate::scaled;
use crate::mappings::fraction_of;
use crate::mappings::lemma_position_in;
use crate::mappings::position_in;
use crate::mappings::scale_extent;
use crate::render::Cell;
use crate::render::CoordinateView;
use crate::render::Sample;
use crate::render::cells_are_exclusive;
use vstd::prelude::*;

verus! {

/// The space of a strip: the horizontal coordinate is the index of a
/// pixel, and the vertical coordinate means nothing.
#[derive(Clone, Copy, Debug, Default, PartialEq, Eq, PartialOrd, Ord, Hash)]
pub struct LinearSpace {}

impl CoordinateSpace for LinearSpace {
    type Data = usize;
}

/// A point of the linear space.
pub type LinearCoords = Coordinates<LinearSpace>;

/// The cell `offset` pixels after `start`, in a selection that spans
/// `span` pixels beyond its first: its virtual coordinate is its position
/// within the selection, so that a shader sees the whole range from 0 to
/// 255 whatever the width of the selection.
pub open spec fn linear_cell(start: int, span: int, offset: int) -> Cell<Virtual> {
    (
        Coordinates { x: position_in(offset, 0, span) as u8, y: 0u8 },
        (start + offset) as usize,
    )
}

/// The first pixel that a rectangle selects on a strip of `count` pixels:
/// its left side scaled against the last index.
pub open spec fn linear_start(count: nat, rect: Rectangle<Virtual>) -> int {
    scaled(count - 1, rect.top_left.x as int)
}

/// The last pixel that a rectangle selects on a strip of `count` pixels:
/// its right side scaled against the last index.
pub open spec fn linear_end(count: nat, rect: Rectangle<Virtual>) -> int {
    scaled(count - 1, rect.bottom_right.x as int)
}

/// The cells that a rectangle selects on a strip of `count` pixels: one for
/// every pixel from the first to the last selected, in order. A strip
/// without pixels, or a rectangle whose left side lies right of its right
/// side, selects nothing.
pub open spec fn linear_cells(count: nat, rect: Rectangle<Virtual>) -> Seq<Cell<Virtual>> {
    let start = linear_start(count, rect);
    let end = linear_end(count, rect);
    if count == 0 || start > end {
        Seq::empty()
    } else {
        Seq::new((end - start + 1) as nat, |offset: int| linear_cell(start, end - start, offset))
    }
}

/// The whole space selects every pixel of a strip exactly once and in
/// order, and the virtual coordinates run evenly from 0 at the first pixel
/// to 255 at the last.
pub proof fn lemma_linear_everything(count: nat)
    requires
        count <= usize::MAX,
    ensures
        linear_cells(count, Rectangle::<Virtual>::whole()).len() == count,
        forall|i: int|
            0 <= i < count ==> #[trigger] linear_cells(count, Rectangle::<Virtual>::whole())[i] == (
                Coordinates::<Virtual> { x: position_in(i, 0, count - 1) as u8, y: 0u8 },
                i as usize,
            ),
        count > 0 ==> linear_cells(count, Rectangle::<Virtual>::whole())[0].0.x == 0,
        count > 1 ==> linear_cells(count, Rectangle::<Virtual>::whole())[count - 1].0.x == 255,
{
    if count > 0 {
        lemma_scaled_bounds(count - 1, 255);
        lemma_scaled_bounds(count - 1, 0);
        lemma_position_in(0, 0, count - 1);
        lemma_position_in(count - 1, 0, count - 1);
    }
}

/// A rectangle selects exactly the pixels from its scaled left side to its
/// scaled right side, each once and in order, all of them within the
/// strip; the virtual coordinates never fall along the strip.
pub proof fn lemma_linear_cells(count: nat, rect: Rectangle<Virtual>)
    requires
        count <= usize::MAX,
    ensures
        cells_are_exclusive(linear_cells(count, rect), count),
        forall|k: int|
            0 <= k < linear_cells(count, rect).len() ==> (#[trigger] linear_cells(
                count,
                rect,
            )[k]).1 == linear_start(count, rect) + k,
        forall|k: int|
            0 <= k < linear_cells(count, rect).len() ==> linear_start(count, rect) <= (
            #[trigger] linear_cells(count, rect)[k]).1 <= linear_end(count, rect),
        count > 0 && linear_start(count, rect) <= linear_end(count, rect) ==> linear_cells(
            count,
            rect,
        ).len() == linear_end(count, rect) - linear_start(count, rect) + 1,
        forall|j: int, k: int|
            0 <= j <= k < linear_cells(count, rect).len() ==> (#[trigger] linear_cells(
                count,
                rect,
            )[j]).0.x <= (#[trigger] linear_cells(count, rect)[k]).0.x,
{
    if count > 0 {
        lemma_scaled_bounds(count - 1, rect.top_left.x as int);
        lemma_scaled_bounds(count - 1, rect.bottom_right.x as int);
        let start = linear_start(count, rect);
        let end = linear_end(count, rect);
        let cells = linear_cells(count, rect);
        assert forall|j: int, k: int| 0 <= j <= k < cells.len() implies (#[trigger] cells[j]).0.x
            <= (#[trigger] cells[k]).0.x by {
            lemma_position_never_falls(j, k, end - start);
        }
    }
}

/// Positions within a span never fall as the offset grows.
pub proof fn lemma_position_never_falls(low: int, high: int, span: int)
    requires
        0 <= low <= high <= span,
    ensures
        0 <= position_in(low, 0, span) <= position_in(high, 0, span) <= 255,
{
    lemma_position_in(low, 0, span);
    lemma_position_in(high, 0, span);
    if span > 0 {
        assert(255 * low / span <= 255 * high / span) by (nonlinear_arith)
            requires
                0 <= low <= high,
                0 < span,
        ;
    }
}

/// A walk over the pixels that a rectangle selects on a strip.
#[derive(Debug)]
pub struct LinearSampleView {
    start_idx: usize,
    end_idx: usize,
    offset: usize,
    length: usize,
    empty: bool,
}

impl LinearSampleView {
    /// Starts the walk over what `rect` selects on a strip of `pixel_count`
    /// pixels.
    pub fn new(pixel_count: usize, rect: &Rectangle<Virtual>) -> (view: Self)
        ensures
            view.wf(),
            view.remaining() == linear_cells(pixel_count as nat, *rect),
    {
        if pixel_count == 0 {
            return LinearSampleView { start_idx: 0, end_idx: 0, offset: 0, length: 0, empty: true };
        }
        let last: usize = pixel_count - 1;
        let start_idx: usize = scale_extent(last, rect.left());
        let end_idx: usize = scale_extent(last, rect.right());
        if start_idx > end_idx {
            return LinearSampleView { start_idx, end_idx, offset: 0, length: 0, empty: true };
        }
        let length: usize = end_idx - start_idx;
        let view = LinearSampleView { start_idx, end_idx, offset: 0, length, empty: false };
        assert(view.remaining() =~= linear_cells(pixel_count as nat, *rect));
        view
    }
}

impl CoordinateView for LinearSampleView {
    type Space = Virtual;

    closed spec fn wf(&self) -> bool {
        !self.empty ==> {
            &&& self.start_idx + self.length == self.end_idx
            &&& self.end_idx < usize::MAX
            &&& self.offset <= self.length + 1
        }
    }

    closed spec fn remaining(&self) -> Seq<Cell<Virtual>> {
        if self.empty {
            Seq::empty()
        } else {
            Seq::new(
                (self.length + 1 - self.offset) as nat,
                |k: int| linear_cell(self.start_idx as int, self.length as int, self.offset + k),
            )
        }
    }

    fn next(&mut self) -> (cell: Option<Cell<Virtual>>) {
        if self.empty || self.offset > self.length {
            None
        } else {
            let cur_idx: usize = self.start_idx + self.offset;
            let virt = VirtualCoordinates::new(fraction_of(self.offset, self.length), 0);
            let ghost before = self.remaining();
            self.offset += 1;
            assert(self.remaining() =~= before.drop_first());
            assert(before[0] == (virt, cur_idx));
            Some((virt, cur_idx))
        }
    }
}

/// A strip of pixels, sampled through the linear mapping.
pub struct LinearSampler<'a, P> {
    /// The pixels of the strip.
    pub pixbuf: &'a mut [P],
}

impl<'a, P: Copy> LinearSampler<'a, P> {
    /// A sampler over a strip of pixels.
    pub fn new(pixbuf: &'a mut [P]) -> (sampler: Self)
        ensures
            sampler.pixels() == old(pixbuf)@,
            sampler.wf(),
            final(sampler.pixbuf)@ == final(pixbuf)@,
    {
        let _ = pixbuf.len();
        LinearSampler { pixbuf }
    }
}

impl<'a, P: Copy> Sample for LinearSampler<'a, P> {
    type Space = Virtual;

    type Pixel = P;

    type View = LinearSampleView;

    open spec fn wf(&self) -> bool {
        self.pixbuf@.len() <= usize::MAX
    }

    open spec fn pixels(&self) -> Seq<P> {
        self.pixbuf@
    }

    open spec fn cells(&self, rect: Rectangle<Virtual>) -> Seq<Cell<Virtual>> {
        linear_cells(self.pixels().len(), rect)
    }

    proof fn lemma_cells_exclusive(&self, rect: Rectangle<Virtual>) {
        lemma_linear_cells(self.pixels().len(), rect);
    }

    fn sample(&self, rect: &Rectangle<Virtual>) -> (view: LinearSampleView) {
        LinearSampleView::new(self.pixbuf.len(), rect)
    }

    fn pixel(&self, index: usize) -> (pixel: P) {
        self.pixbuf[index]
    }

    fn set_pixel(&mut self, index: usize, pixel: P)
        ensures
            final(final(self).pixbuf)@ == final(old(self).pixbuf)@,
    {
        self.pixbuf[index] = pixel;
    }
}


/// A mapping from rectangles of the virtual space to walks over cells.
pub trait Select {
    /// The walk over what a rectangle selects.
    type View: CoordinateView;

    /// The cells that a rectangle selects, in order.
    spec fn selected(&self, rect: Rectangle<Virtual>) -> Seq<Cell<<Self::View as CoordinateView>::Space>>;

    /// Starts a walk over what a rectangle selects.
    fn select(&self, rect: &Rectangle<Virtual>) -> (view: Self::View)
        ensures
            view.wf(),
            view.remaining() == self.selected(*rect),
    ;
}

/// The cells of the plain mapping up to a right side: pixel `k` at the
/// virtual column `k`, for every `k` below the right side.
pub open spec fn plain_cells(from: int, max_x: int) -> Seq<Cell<Virtual>> {
    if from >= max_x {
        Seq::empty()
    } else {
        Seq::new(
            (max_x - from) as nat,
            |k: int| (Coordinates::<Virtual> { x: (from + k) as u8, y: 0u8 }, (from + k) as usize),
        )
    }
}

/// A walk over the plain mapping, in which every virtual column is one
/// pixel: the pixels from the first up to the right side of a rectangle.
#[derive(Debug)]
pub struct LinearCoordView {
    max_x: u8,
    idx: usize,
}

impl CoordinateView for LinearCoordView {
    type Space = Virtual;

    closed spec fn wf(&self) -> bool {
        self.idx <= self.max_x
    }

    closed spec fn remaining(&self) -> Seq<Cell<Virtual>> {
        plain_cells(self.idx as int, self.max_x as int)
    }

    fn next(&mut self) -> (cell: Option<Cell<Virtual>>) {
        if self.idx == self.max_x as usize {
            None
        } else {
            let virt = VirtualCoordinates::new(self.idx as u8, 0);
            let phys: usize = self.idx;
            let ghost before = self.remaining();
            self.idx += 1;
            assert(self.remaining() =~= before.drop_first());
            Some((virt, phys))
        }
    }
}

/// The plain mapping of a strip: virtual column `k` is pixel `k`.
#[derive(Debug, Default, Clone, Copy)]
pub struct LinearPixelMapping {}

impl LinearPixelMapping {
    /// The plain mapping.
    pub fn new() -> (mapping: Self)
        ensures
            mapping == (LinearPixelMapping {  }),
    {
        LinearPixelMapping {  }
    }
}

impl Select for LinearPixelMapping {
    type View = LinearCoordView;

    open spec fn selected(&self, rect: Rectangle<Virtual>) -> Seq<Cell<Virtual>> {
        plain_cells(0, rect.bottom_right.x as int)
    }

    fn select(&self, rect: &Rectangle<Virtual>) -> (view: LinearCoordView) {
        LinearCoordView { max_x: rect.bottom_right.x, idx: 0 }
    }
}


/// The first pixel that a rectangle of the linear space selects on a strip
/// of `count` pixels: its left side, or the end of the strip where that
/// lies beyond it.
pub open spec fn strip_start(count: nat, rect: Rectangle<LinearSpace>) -> int {
    if rect.top_left.x < count {
        rect.top_left.x as int
    } else {
        count as int
    }
}

/// The number of pixels that a rectangle of the linear space selects on a
/// strip of `count` pixels: its width, as far as the strip goes. A
/// rectangle whose left side lies right of its right side has no width.
pub open spec fn strip_length(count: nat, rect: Rectangle<LinearSpace>) -> int {
    let width = if rect.top_left.x <= rect.bottom_right.x {
        rect.bottom_right.x - rect.top_left.x
    } else {
        0
    };
    let room = count - strip_start(count, rect);
    if width < room {
        width
    } else {
        room
    }
}

/// The cells that a rectangle of the linear space selects on a strip of
/// `count` pixels: the pixels from its left side up to its right side, as
/// far as the strip goes, each at the coordinate that counts from the left
/// side.
pub open spec fn strip_cells(count: nat, rect: Rectangle<LinearSpace>) -> Seq<Cell<LinearSpace>> {
    Seq::new(
        strip_length(count, rect) as nat,
        |k: int|
            (
                Coordinates::<LinearSpace> { x: k as usize, y: 0usize },
                (strip_start(count, rect) + k) as usize,
            ),
    )
}

/// A walk over the pixels that a rectangle of the linear space selects on a
/// strip.
#[derive(Debug)]
pub struct LinearView {
    start: usize,
    length: usize,
    offset: usize,
}

impl CoordinateView for LinearView {
    type Space = LinearSpace;

    closed spec fn wf(&self) -> bool {
        &&& self.offset <= self.length
        &&& self.start + self.length <= usize::MAX
    }

    closed spec fn remaining(&self) -> Seq<Cell<LinearSpace>> {
        Seq::new(
            (self.length - self.offset) as nat,
            |k: int|
                (
                    Coordinates::<LinearSpace> { x: (self.offset + k) as usize, y: 0usize },
                    (self.start + self.offset + k) as usize,
                ),
        )
    }

    fn next(&mut self) -> (cell: Option<Cell<LinearSpace>>) {
        if self.offset == self.length {
            None
        } else {
            let coords: LinearCoords = Coordinates::new(self.offset, 0);
            let index: usize = self.start + self.offset;
            let ghost before = self.remaining();
            self.offset += 1;
            assert(self.remaining() =~= before.drop_first());
            Some((coords, index))
        }
    }
}

impl<P: Copy, const SIZE: usize> Sample for [P; SIZE] {
    type Space = LinearSpace;

    type Pixel = P;

    type View = LinearView;

    open spec fn wf(&self) -> bool {
        true
    }

    open spec fn pixels(&self) -> Seq<P> {
        self@
    }

    open spec fn cells(&self, rect: Rectangle<LinearSpace>) -> Seq<Cell<LinearSpace>> {
        strip_cells(SIZE as nat, rect)
    }

    proof fn lemma_cells_exclusive(&self, rect: Rectangle<LinearSpace>) {
    }

    fn sample(&self, rect: &Rectangle<LinearSpace>) -> (view: LinearView) {
        let left: usize = rect.left();
        let right: usize = rect.right();
        let start: usize = if left < SIZE { left } else { SIZE };
        let width: usize = if left <= right { right - left } else { 0 };
        let room: usize = SIZE - start;
        let length: usize = if width < room { width } else { room };
        let view = LinearView { start, length, offset: 0 };
        assert(view.remaining() =~= strip_cells(SIZE as nat, *rect));
        view
    }

    fn pixel(&self, index: usize) -> (pixel: P) {
        self[index]
    }

    fn set_pixel(&mut self, index: usize, pixel: P) {
        self[index] = pixel;
    }
}

} // verus!
