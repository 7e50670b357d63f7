//! The contract between coordinate mappings, shaders and pixel buffers:
//! how a rectangle is sampled into cells, how a shader gives each cell a
//! colour, and how that colour is laid over the pixel of the cell.
use crate::geometry::CoordinateSpace;
use crate::geometry::Coordinates;
use crate::geometry::Rectangle;
use crate::liber8tion::interpolate::Fract8;
use crate::pixels::PixelBlend;
use crate::pixels::composited;
use vstd::prelude::*;

verus! {

/// One sampled cell: the coordinates at which a shader is asked for a
/// colour, and the index of the pixel that the colour goes to.
pub type Cell<Space> = (Coordinates<Space>, usize);

/// A finite walk over sampled cells. It is walked once, from the front,
/// and cannot be started again.
pub trait CoordinateView {
    /// The space of the coordinates that the walk yields.
    type Space: CoordinateSpace;

    /// The state of the walk is consistent.
    spec fn wf(&self) -> bool;

    /// The cells that the walk has yet to yield, in order.
    spec fn remaining(&self) -> Seq<Cell<Self::Space>>;

    /// The next cell, or nothing at the end of the walk.
    fn next(&mut self) -> (cell: Option<Cell<Self::Space>>)
        requires
            old(self).wf(),
        ensures
            final(self).wf(),
            cell is None <==> old(self).remaining().len() == 0,
            cell is None ==> final(self).remaining() == old(self).remaining(),
            cell is Some ==> cell->Some_0 == old(self).remaining()[0] && final(self).remaining()
                == old(self).remaining().drop_first(),
    ;
}

/// Every cell lies within a buffer of `count` pixels, and no two cells
/// share a pixel.
pub open spec fn cells_are_exclusive<Space: CoordinateSpace>(
    cells: Seq<Cell<Space>>,
    count: nat,
) -> bool {
    &&& forall|k: int| 0 <= k < cells.len() ==> (#[trigger] cells[k]).1 < count
    &&& forall|j: int, k: int|
        0 <= j < k < cells.len() ==> (#[trigger] cells[j]).1 != (#[trigger] cells[k]).1
}

/// A buffer of pixels together with a mapping that says which pixels a
/// rectangle of a coordinate space selects, and at which coordinates.
pub trait Sample {
    /// The space in which rectangles are given.
    type Space: CoordinateSpace;

    /// The format of the pixels.
    type Pixel: Copy;

    /// The walk over the cells of a sampled rectangle.
    type View: CoordinateView<Space = Self::Space>;

    /// Mapping and buffer fit together.
    spec fn wf(&self) -> bool;

    /// The pixels of the buffer.
    spec fn pixels(&self) -> Seq<Self::Pixel>;

    /// The cells that sampling a rectangle yields, in order. They depend
    /// on the mapping and on the number of pixels, not on what the pixels
    /// hold.
    spec fn cells(&self, rect: Rectangle<Self::Space>) -> Seq<Cell<Self::Space>>;

    /// The cells of a rectangle lie within the buffer, and no two of them
    /// share a pixel.
    proof fn lemma_cells_exclusive(&self, rect: Rectangle<Self::Space>)
        requires
            self.wf(),
        ensures
            cells_are_exclusive(self.cells(rect), self.pixels().len()),
    ;

    /// Starts a walk over the cells of a rectangle.
    fn sample(&self, rect: &Rectangle<Self::Space>) -> (view: Self::View)
        requires
            self.wf(),
        ensures
            view.wf(),
            view.remaining() == self.cells(*rect),
    ;

    /// Reads the pixel of a cell.
    fn pixel(&self, index: usize) -> (pixel: Self::Pixel)
        requires
            self.wf(),
            index < self.pixels().len(),
        ensures
            pixel == self.pixels()[index as int],
    ;

    /// Overwrites the pixel of a cell.
    fn set_pixel(&mut self, index: usize, pixel: Self::Pixel)
        requires
            old(self).wf(),
            index < old(self).pixels().len(),
        ensures
            final(self).wf(),
            final(self).pixels() == old(self).pixels().update(index as int, pixel),
            forall|rect: Rectangle<Self::Space>|
                #[trigger] final(self).cells(rect) == old(self).cells(rect),
    ;
}

/// A function from coordinates and the state of the frame to a colour. It
/// has no state of its own and no effect: the same coordinates and the
/// same uniforms give the same colour.
pub trait Shader<Uniforms, Space: CoordinateSpace, Pixel> {
    /// The colour at the given coordinates.
    spec fn color_at(&self, coords: Coordinates<Space>, uniforms: Uniforms) -> Pixel;

    /// Computes the colour at the given coordinates.
    fn draw(&self, surface_coords: &Coordinates<Space>, uniforms: &Uniforms) -> (pixel: Pixel)
        ensures
            pixel == self.color_at(*surface_coords, *uniforms),
    ;
}

/// The pixels after the first `count` of the cells were painted: each in
/// turn has the colour of the shader at its coordinates laid over its
/// pixel at the given opacity.
pub open spec fn painted_upto<U, Space: CoordinateSpace, O, P: PixelBlend<O>, Sh: Shader<U, Space, O>>(
    pixels: Seq<P>,
    cells: Seq<Cell<Space>>,
    count: nat,
    shader: Sh,
    uniforms: U,
    opacity: Fract8,
) -> Seq<P>
    decreases count,
{
    if count == 0 {
        pixels
    } else {
        let before = painted_upto(pixels, cells, (count - 1) as nat, shader, uniforms, opacity);
        let (coords, index) = cells[count - 1];
        before.update(
            index as int,
            composited(before[index as int], shader.color_at(coords, uniforms), opacity),
        )
    }
}

/// The pixels after all the cells were painted.
pub open spec fn painted<U, Space: CoordinateSpace, O, P: PixelBlend<O>, Sh: Shader<U, Space, O>>(
    pixels: Seq<P>,
    cells: Seq<Cell<Space>>,
    shader: Sh,
    uniforms: U,
    opacity: Fract8,
) -> Seq<P> {
    painted_upto(pixels, cells, cells.len(), shader, uniforms, opacity)
}

/// Painting cells that share no pixel changes the pixel of each cell
/// once, from what it held before, and no other pixel.
pub proof fn lemma_painted_upto<U, Space: CoordinateSpace, O, P: PixelBlend<O>, Sh: Shader<U, Space, O>>(
    pixels: Seq<P>,
    cells: Seq<Cell<Space>>,
    count: nat,
    shader: Sh,
    uniforms: U,
    opacity: Fract8,
)
    requires
        cells_are_exclusive(cells, pixels.len()),
        count <= cells.len(),
    ensures
        painted_upto(pixels, cells, count, shader, uniforms, opacity).len() == pixels.len(),
        forall|k: int|
            0 <= k < count ==> painted_upto(pixels, cells, count, shader, uniforms, opacity)[(
            #[trigger] cells[k]).1 as int] == composited(
                pixels[cells[k].1 as int],
                shader.color_at(cells[k].0, uniforms),
                opacity,
            ),
        forall|i: int|
            0 <= i < pixels.len() && (forall|k: int| 0 <= k < count ==> (#[trigger] cells[k]).1
                != i) ==> #[trigger] painted_upto(
                pixels,
                cells,
                count,
                shader,
                uniforms,
                opacity,
            )[i] == pixels[i],
    decreases count,
{
    if count > 0 {
        lemma_painted_upto(pixels, cells, (count - 1) as nat, shader, uniforms, opacity);
        let before = painted_upto(pixels, cells, (count - 1) as nat, shader, uniforms, opacity);
        let after = painted_upto(pixels, cells, count, shader, uniforms, opacity);
        let last = cells[count - 1];
        assert(before[last.1 as int] == pixels[last.1 as int]);
        assert forall|k: int| 0 <= k < count implies after[(#[trigger] cells[k]).1 as int]
            == composited(
            pixels[cells[k].1 as int],
            shader.color_at(cells[k].0, uniforms),
            opacity,
        ) by {
            if k < count - 1 {
                assert(cells[k].1 != cells[count - 1].1);
            }
        }
    }
}

/// What painting a rectangle does to the buffer: the pixel of every cell
/// of the rectangle has the colour of the shader laid over it, and every
/// pixel outside the rectangle is left as it was.
pub proof fn lemma_painted<U, Space: CoordinateSpace, O, P: PixelBlend<O>, Sh: Shader<U, Space, O>>(
    pixels: Seq<P>,
    cells: Seq<Cell<Space>>,
    shader: Sh,
    uniforms: U,
    opacity: Fract8,
)
    requires
        cells_are_exclusive(cells, pixels.len()),
    ensures
        painted(pixels, cells, shader, uniforms, opacity).len() == pixels.len(),
        forall|k: int|
            0 <= k < cells.len() ==> painted(pixels, cells, shader, uniforms, opacity)[(
            #[trigger] cells[k]).1 as int] == composited(
                pixels[cells[k].1 as int],
                shader.color_at(cells[k].0, uniforms),
                opacity,
            ),
        forall|i: int|
            0 <= i < pixels.len() && (forall|k: int|
                0 <= k < cells.len() ==> (#[trigger] cells[k]).1 != i) ==> #[trigger] painted(
                pixels,
                cells,
                shader,
                uniforms,
                opacity,
            )[i] == pixels[i],
{
    lemma_painted_upto(pixels, cells, cells.len(), shader, uniforms, opacity);
}

/// Lays the colours of a shader over the pixels that a rectangle selects,
/// at the given opacity.
pub fn composite<U, O, Out: Sample, Sh: Shader<U, Out::Space, O>>(
    output: &mut Out,
    shader: &Sh,
    uniforms: &U,
    rect: &Rectangle<Out::Space>,
    opacity: Fract8,
) where Out::Pixel: PixelBlend<O>
    requires
        old(output).wf(),
    ensures
        final(output).wf(),
        final(output).pixels() == painted(
            old(output).pixels(),
            old(output).cells(*rect),
            *shader,
            *uniforms,
            opacity,
        ),
        forall|any: Rectangle<Out::Space>|
            #[trigger] final(output).cells(any) == old(output).cells(any),
{
    let ghost cells = output.cells(*rect);
    let ghost start = output.pixels();
    proof {
        output.lemma_cells_exclusive(*rect);
    }
    let mut view = output.sample(rect);
    let ghost mut done: nat = 0;
    loop
        invariant
            output.wf(),
            view.wf(),
            done <= cells.len(),
            view.remaining() == cells.skip(done as int),
            cells_are_exclusive(cells, start.len()),
            output.pixels() == painted_upto(start, cells, done, *shader, *uniforms, opacity),
            output.pixels().len() == start.len(),
            forall|any: Rectangle<Out::Space>|
                #[trigger] output.cells(any) == old(output).cells(any),
        ensures
            done == cells.len(),
        decreases cells.len() - done,
    {
        match view.next() {
            Some((coords, index)) => {
                assert(cells.skip(done as int)[0] == cells[done as int]);
                assert(cells.skip(done as int).drop_first() == cells.skip(done as int + 1));
                let overlay = shader.draw(&coords, uniforms);
                let under = output.pixel(index);
                output.set_pixel(index, under.add(overlay, opacity));
                proof {
                    done = done + 1;
                }
            },
            None => {
                break ;
            },
        }
    }
}

/// A buffer that shaders can be drawn on.
pub trait Painter<U, Pixel>: Sample + Sized where Self::Pixel: PixelBlend<Pixel> {
    /// Draws the shader over the whole space.
    fn fill<Sh: Shader<U, Self::Space, Pixel>>(&mut self, shader: &Sh, uniforms: &U)
        requires
            old(self).wf(),
        ensures
            final(self).wf(),
            final(self).pixels() == painted(
                old(self).pixels(),
                old(self).cells(Rectangle::<Self::Space>::whole()),
                *shader,
                *uniforms,
                Fract8(255),
            ),
    {
        let everything = Rectangle::<Self::Space>::everything();
        composite(self, shader, uniforms, &everything, Fract8(255));
    }

    /// Draws the shader over a rectangle: the pixel of every cell of the
    /// rectangle takes the colour of the shader at full opacity.
    fn draw<Sh: Shader<U, Self::Space, Pixel>>(
        &mut self,
        shader: &Sh,
        uniforms: &U,
        rect: &Rectangle<Self::Space>,
    )
        requires
            old(self).wf(),
        ensures
            final(self).wf(),
            final(self).pixels() == painted(
                old(self).pixels(),
                old(self).cells(*rect),
                *shader,
                *uniforms,
                Fract8(255),
            ),
    {
        composite(self, shader, uniforms, rect, Fract8(255));
    }
}

impl<U, Pixel, T: Sample> Painter<U, Pixel> for T where T::Pixel: PixelBlend<Pixel> {

}

} // verus!
