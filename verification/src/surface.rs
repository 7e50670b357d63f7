//! The surface engine: drawable layers, each with a shader, a rectangle,
//! an opacity, a visibility and an offset, and the queue through which
//! changes to the layers are staged until the next commit.
//!
//! The queue and the layers are plain values here. A program in which one
//! task changes layers while another renders puts the queue behind a lock
//! and calls `UpdateQueue::push` and `UpdateQueue::try_take` while it holds
//! the lock; nothing else touches the queue.
//!
//! The queue is bounded. A change of a layer whose change waits already is
//! merged and needs no room. A change of another layer is refused by a full
//! queue: `UpdateQueue::push` hands it back and leaves the queue as it is,
//! and the setters of a layer, which hand nothing back, are only to be
//! called where `UpdateQueue::has_room_for` holds.
use crate::geometry::CoordinateOp;
use crate::geometry::CoordinateSpace;
use crate::geometry::Coordinates;
use crate::geometry::Rectangle;
use crate::liber8tion::interpolate::Fract8;
use crate::pixels::PixelBlend;
use crate::render::Sample;
use crate::render::Shader;
use crate::render::composite;
use crate::render::painted;
use ringbuf::traits::Observer;
use ringbuf::traits::Producer;
use vstd::prelude::*;

verus! {

/// A bounded first-in first-out buffer of slot numbers, kept in a ring
/// buffer of fixed capacity on the heap.
#[verifier::external_body]
pub struct SlotRing {
    ring: ringbuf::HeapRb<usize>,
}

/// The slot numbers that a ring holds, oldest first.
pub uninterp spec fn ring_items(ring: SlotRing) -> Seq<usize>;

/// The number of slot numbers that a ring can hold.
pub uninterp spec fn ring_capacity(ring: SlotRing) -> nat;

/// An empty ring of the given capacity.
///
/// This is `ringbuf::HeapRb::new`, which allocates storage for `capacity`
/// items and sets both of its indices to zero, so that the ring holds
/// nothing. It panics where `capacity` is zero, which is left out here.
#[verifier::external_body]
fn ring_new(capacity: usize) -> (ring: SlotRing)
    requires
        capacity > 0,
    ensures
        ring_items(ring) == Seq::<usize>::empty(),
        ring_capacity(ring) == capacity,
{
    SlotRing { ring: ringbuf::HeapRb::new(capacity) }
}

/// The capacity that a ring was made with.
///
/// This is `Observer::capacity` of `ringbuf`, the length of the storage,
/// which is constant for the whole life of the ring and never zero.
#[verifier::external_body]
fn ring_limit(ring: &SlotRing) -> (capacity: usize)
    ensures
        capacity == ring_capacity(*ring),
        capacity > 0,
{
    ring.ring.capacity().get()
}

/// Appends a slot number to a ring that is not full.
///
/// This is `Producer::try_push` of `ringbuf`: where the ring holds fewer
/// items than its capacity, the item is written behind the newest and
/// `Ok` is returned; where the ring is full, the ring is left as it is and
/// the item comes back in `Err`. The capacity never changes.
#[verifier::external_body]
fn ring_try_push(ring: &mut SlotRing, slot: usize) -> (pushed: Result<(), usize>)
    ensures
        ring_capacity(*final(ring)) == ring_capacity(*old(ring)),
        pushed is Ok <==> ring_items(*old(ring)).len() < ring_capacity(*old(ring)),
        pushed is Ok ==> ring_items(*final(ring)) == ring_items(*old(ring)).push(slot),
        pushed is Err ==> pushed->Err_0 == slot && ring_items(*final(ring)) == ring_items(
            *old(ring),
        ),
{
    ring.ring.try_push(slot)
}

/// A drawable layer as the engine holds it.
#[derive(Debug)]
pub struct ShaderBinding<Sh, Space: CoordinateSpace> {
    /// What computes the colours of the layer, if anything does.
    pub shader: Option<Sh>,
    /// The part of the space that the layer covers.
    pub rect: Rectangle<Space>,
    /// How much of the layer shows: 0 is nothing, 255 is all.
    pub opacity: u8,
    /// Whether the layer is drawn at all.
    pub visible: bool,
    /// What is added to the coordinates before the shader is asked.
    pub offset: Coordinates<Space>,
}

/// A change to one layer that waits for the next commit. Every field but
/// the slot is a change of one property, or nothing.
#[derive(Debug)]
pub struct SurfaceUpdate<Sh, Space: CoordinateSpace> {
    /// A new shader, or the removal of the shader.
    pub shader: Option<Option<Sh>>,
    /// A new rectangle.
    pub rect: Option<Rectangle<Space>>,
    /// A new opacity.
    pub opacity: Option<u8>,
    /// A new visibility.
    pub visible: Option<bool>,
    /// A new offset.
    pub offset: Option<Coordinates<Space>>,
    /// The layer that is changed.
    pub slot: usize,
}

impl<Sh, Space: CoordinateSpace> SurfaceUpdate<Sh, Space> {
    /// The change that changes nothing of a layer.
    pub open spec fn untouched(slot: usize) -> Self {
        SurfaceUpdate {
            shader: None,
            rect: None,
            opacity: None,
            visible: None,
            offset: None,
            slot,
        }
    }

    /// This change followed by `later`, as one change: every property that
    /// `later` changes is as `later` has it, and every other is as this
    /// change has it.
    pub open spec fn merged(self, later: Self) -> Self {
        SurfaceUpdate {
            shader: if later.shader is Some { later.shader } else { self.shader },
            rect: if later.rect is Some { later.rect } else { self.rect },
            opacity: if later.opacity is Some { later.opacity } else { self.opacity },
            visible: if later.visible is Some { later.visible } else { self.visible },
            offset: if later.offset is Some { later.offset } else { self.offset },
            slot: self.slot,
        }
    }

    /// The layer after the change: every property that the change names is
    /// as the change has it, and every other is as it was.
    pub open spec fn applied_to(self, binding: ShaderBinding<Sh, Space>) -> ShaderBinding<
        Sh,
        Space,
    > {
        ShaderBinding {
            shader: if self.shader is Some { self.shader->Some_0 } else { binding.shader },
            rect: if self.rect is Some { self.rect->Some_0 } else { binding.rect },
            opacity: if self.opacity is Some { self.opacity->Some_0 } else { binding.opacity },
            visible: if self.visible is Some { self.visible->Some_0 } else { binding.visible },
            offset: if self.offset is Some { self.offset->Some_0 } else { binding.offset },
        }
    }

    /// The change that changes nothing of a layer.
    pub fn new(slot: usize) -> (update: Self)
        ensures
            update == Self::untouched(slot),
    {
        SurfaceUpdate {
            shader: None,
            rect: None,
            opacity: None,
            visible: None,
            offset: None,
            slot,
        }
    }

    /// Takes a later change of the same layer into this one.
    pub fn merge(&mut self, other: Self)
        ensures
            *final(self) == old(self).merged(other),
    {
        if other.shader.is_some() {
            self.shader = other.shader;
        }
        if other.rect.is_some() {
            self.rect = other.rect;
        }
        if other.opacity.is_some() {
            self.opacity = other.opacity;
        }
        if other.visible.is_some() {
            self.visible = other.visible;
        }
        if other.offset.is_some() {
            self.offset = other.offset;
        }
    }
}

impl<Sh, Space: CoordinateSpace> Default for SurfaceUpdate<Sh, Space> {
    /// The change that changes nothing, of a slot that no layer has.
    fn default() -> (update: Self)
        ensures
            update == Self::untouched(usize::MAX),
    {
        SurfaceUpdate::new(usize::MAX)
    }
}

/// The position of the first change of the given slot, or the number of
/// changes where there is none.
pub open spec fn pending_at<Sh, Space: CoordinateSpace>(
    pending: Seq<SurfaceUpdate<Sh, Space>>,
    slot: usize,
    from: int,
) -> int
    decreases pending.len() - from,
{
    if from >= pending.len() {
        pending.len() as int
    } else if pending[from].slot == slot {
        from
    } else {
        pending_at(pending, slot, from + 1)
    }
}

/// No two of the changes are changes of the same slot.
pub open spec fn one_per_slot<Sh, Space: CoordinateSpace>(
    pending: Seq<SurfaceUpdate<Sh, Space>>,
) -> bool {
    forall|i: int, j: int|
        0 <= i < j < pending.len() ==> (#[trigger] pending[i]).slot != (#[trigger] pending[j]).slot
}

/// The slots of the changes, in order.
pub open spec fn slots_of<Sh, Space: CoordinateSpace>(
    pending: Seq<SurfaceUpdate<Sh, Space>>,
) -> Seq<usize> {
    Seq::new(pending.len(), |i: int| pending[i].slot)
}

/// What `pending_at` finds is a change of the slot, and no change before
/// it is.
pub proof fn lemma_pending_at<Sh, Space: CoordinateSpace>(
    pending: Seq<SurfaceUpdate<Sh, Space>>,
    slot: usize,
    from: int,
)
    requires
        0 <= from <= pending.len(),
    ensures
        from <= pending_at(pending, slot, from) <= pending.len(),
        pending_at(pending, slot, from) < pending.len() ==> pending[pending_at(
            pending,
            slot,
            from,
        )].slot == slot,
        forall|i: int|
            from <= i < pending_at(pending, slot, from) ==> (#[trigger] pending[i]).slot != slot,
    decreases pending.len() - from,
{
    if from < pending.len() && pending[from].slot != slot {
        lemma_pending_at(pending, slot, from + 1);
    }
}

/// The changes that wait once `update` was queued behind `pending`, in a
/// queue that holds `capacity` changes. Where a change of the same slot
/// waits, the new one is merged into it; else it is appended. Where it
/// would have to be appended to a full queue, there is no such result.
pub open spec fn queued<Sh, Space: CoordinateSpace>(
    pending: Seq<SurfaceUpdate<Sh, Space>>,
    capacity: nat,
    update: SurfaceUpdate<Sh, Space>,
) -> Option<Seq<SurfaceUpdate<Sh, Space>>> {
    let at = pending_at(pending, update.slot, 0);
    if at < pending.len() {
        Some(pending.update(at, pending[at].merged(update)))
    } else if pending.len() < capacity {
        Some(pending.push(update))
    } else {
        None
    }
}

/// The changes that wait for the next commit: a bounded queue with at most
/// one change for each slot. A second change of a slot is merged into the
/// first, so that the queue grows with the number of layers that are
/// changed and not with the number of changes.
pub struct UpdateQueue<Sh, Space: CoordinateSpace> {
    /// The slots that have a change waiting, in the order in which they
    /// were first queued. The ring has a fixed capacity, which bounds the
    /// queue.
    order: SlotRing,
    /// The change of each of those slots, in the same order.
    staged: Vec<SurfaceUpdate<Sh, Space>>,
    /// Something was queued since the queue was last taken.
    damaged: bool,
}

impl<Sh, Space: CoordinateSpace> UpdateQueue<Sh, Space> {
    /// The changes that wait, oldest first.
    pub closed spec fn pending(&self) -> Seq<SurfaceUpdate<Sh, Space>> {
        self.staged@
    }

    /// The number of changes that the queue can hold.
    pub closed spec fn capacity(&self) -> nat {
        ring_capacity(self.order)
    }

    /// Something was queued since the queue was last taken.
    pub closed spec fn is_damaged(&self) -> bool {
        self.damaged
    }

    /// The queue is consistent: it holds no more than its capacity, at most
    /// one change for each slot, and is marked as damaged just when it
    /// holds something.
    pub closed spec fn wf(&self) -> bool {
        &&& ring_items(self.order) == slots_of(self.staged@)
        &&& self.staged@.len() <= ring_capacity(self.order)
        &&& ring_capacity(self.order) > 0
        &&& one_per_slot(self.staged@)
        &&& self.damaged <==> self.staged@.len() > 0
    }

    /// What `wf` says of the changes that wait.
    pub proof fn lemma_wf(&self)
        requires
            self.wf(),
        ensures
            self.pending().len() <= self.capacity(),
            self.capacity() > 0,
            one_per_slot(self.pending()),
            self.is_damaged() <==> self.pending().len() > 0,
    {
    }

    /// An empty queue that can hold `capacity` changes.
    pub fn new(capacity: usize) -> (queue: Self)
        requires
            capacity > 0,
        ensures
            queue.wf(),
            queue.pending() == Seq::<SurfaceUpdate<Sh, Space>>::empty(),
            queue.capacity() == capacity,
            !queue.is_damaged(),
    {
        let queue = UpdateQueue { order: ring_new(capacity), staged: Vec::new(), damaged: false };
        assert(slots_of(queue.staged@) =~= Seq::<usize>::empty());
        queue
    }

    /// Queues a change. Where a change of the same slot waits already, the
    /// new one is merged into it, which always succeeds. Else the change is
    /// appended, unless the queue is full: then the queue is left as it is
    /// and the change comes back as the error.
    pub fn push(&mut self, update: SurfaceUpdate<Sh, Space>) -> (pushed: Result<
        (),
        SurfaceUpdate<Sh, Space>,
    >)
        requires
            old(self).wf(),
        ensures
            final(self).wf(),
            final(self).capacity() == old(self).capacity(),
            pushed is Ok <==> queued(old(self).pending(), old(self).capacity(), update) is Some,
            pushed is Ok ==> final(self).pending() == queued(
                old(self).pending(),
                old(self).capacity(),
                update,
            )->Some_0,
            pushed is Err ==> pushed->Err_0 == update && final(self).pending() == old(self).pending() && final(self).is_damaged() == old(self).is_damaged(),
            pushed is Ok ==> final(self).is_damaged(),
    {
        let slot: usize = update.slot;
        let count: usize = self.staged.len();
        let mut i: usize = 0;
        while i < count
            invariant
                i <= count,
                count == self.staged@.len(),
                pending_at(self.staged@, slot, 0) == pending_at(self.staged@, slot, i as int),
            ensures
                i < count ==> self.staged@[i as int].slot == slot,
            decreases count - i,
        {
            if self.staged[i].slot == slot {
                break ;
            }
            i += 1;
        }
        proof {
            lemma_pending_at(self.staged@, slot, 0);
        }
        let ghost before = self.staged@;
        if i < count {
            assert(pending_at(before, slot, 0) == i);
            self.staged[i].merge(update);
            proof {
                assert(slots_of(self.staged@) =~= slots_of(before));
            }
            Ok(())
        } else {
            assert(pending_at(before, slot, 0) == count);
            match ring_try_push(&mut self.order, slot) {
                Ok(_) => {
                    self.staged.push(update);
                    self.damaged = true;
                    proof {
                        assert(slots_of(self.staged@) =~= slots_of(before).push(slot));
                    }
                    Ok(())
                },
                Err(_) => Err(update),
            }
        }
    }

    /// The number of changes that wait.
    pub fn len(&self) -> (count: usize)
        ensures
            count == self.pending().len(),
    {
        self.staged.len()
    }

    /// Whether a change of the given slot would be taken: one waits
    /// already, into which it would be merged, or the queue is not full.
    pub fn has_room_for(&self, slot: usize) -> (room: bool)
        requires
            self.wf(),
        ensures
            room == (pending_at(self.pending(), slot, 0) < self.pending().len()
                || self.pending().len() < self.capacity()),
    {
        let count: usize = self.staged.len();
        if count < ring_limit(&self.order) {
            proof {
                lemma_pending_at(self.staged@, slot, 0);
            }
            return true;
        }
        let mut i: usize = 0;
        while i < count
            invariant
                i <= count,
                count == self.staged@.len(),
                pending_at(self.staged@, slot, 0) == pending_at(self.staged@, slot, i as int),
            decreases count - i,
        {
            if self.staged[i].slot == slot {
                return true;
            }
            i += 1;
        }
        false
    }

    /// Takes every change that waits, oldest first, and leaves the queue
    /// empty, with the capacity it had. Where nothing was queued since the
    /// queue was last taken, nothing is taken.
    pub fn try_take(&mut self) -> (taken: Option<Vec<SurfaceUpdate<Sh, Space>>>)
        requires
            old(self).wf(),
        ensures
            final(self).wf(),
            final(self).capacity() == old(self).capacity(),
            !final(self).is_damaged(),
            final(self).pending() == Seq::<SurfaceUpdate<Sh, Space>>::empty(),
            taken is Some <==> old(self).is_damaged(),
            taken is Some ==> taken->Some_0@ == old(self).pending(),
    {
        if self.damaged {
            let capacity: usize = ring_limit(&self.order);
            self.order = ring_new(capacity);
            self.damaged = false;
            let mut updates: Vec<SurfaceUpdate<Sh, Space>> = Vec::new();
            core::mem::swap(&mut self.staged, &mut updates);
            assert(slots_of(self.staged@) =~= Seq::<usize>::empty());
            Some(updates)
        } else {
            None
        }
    }
}


/// The layers after the first `count` of the changes were applied, each in
/// turn to the layer of its slot. A change of a slot that no layer has is
/// dropped.
pub open spec fn applied_upto<Sh, Space: CoordinateSpace>(
    bindings: Seq<ShaderBinding<Sh, Space>>,
    updates: Seq<SurfaceUpdate<Sh, Space>>,
    count: nat,
) -> Seq<ShaderBinding<Sh, Space>>
    decreases count,
{
    if count == 0 {
        bindings
    } else {
        let before = applied_upto(bindings, updates, (count - 1) as nat);
        let update = updates[count - 1];
        if update.slot < before.len() {
            before.update(update.slot as int, update.applied_to(before[update.slot as int]))
        } else {
            before
        }
    }
}

/// The layers after all the changes were applied, in order.
pub open spec fn applied_all<Sh, Space: CoordinateSpace>(
    bindings: Seq<ShaderBinding<Sh, Space>>,
    updates: Seq<SurfaceUpdate<Sh, Space>>,
) -> Seq<ShaderBinding<Sh, Space>> {
    applied_upto(bindings, updates, updates.len())
}

/// Applying changes neither adds nor removes a layer.
pub proof fn lemma_applied_keeps_layers<Sh, Space: CoordinateSpace>(
    bindings: Seq<ShaderBinding<Sh, Space>>,
    updates: Seq<SurfaceUpdate<Sh, Space>>,
    count: nat,
)
    ensures
        applied_upto(bindings, updates, count).len() == bindings.len(),
    decreases count,
{
    if count > 0 {
        lemma_applied_keeps_layers(bindings, updates, (count - 1) as nat);
    }
}

/// Where no two changes are changes of the same slot, a layer ends up as
/// the one change of its slot leaves it, whole, and a layer without a
/// change ends up as it was.
pub proof fn lemma_applied_per_slot<Sh, Space: CoordinateSpace>(
    bindings: Seq<ShaderBinding<Sh, Space>>,
    updates: Seq<SurfaceUpdate<Sh, Space>>,
    count: nat,
)
    requires
        one_per_slot(updates),
        count <= updates.len(),
    ensures
        applied_upto(bindings, updates, count).len() == bindings.len(),
        forall|k: int|
            0 <= k < count && (#[trigger] updates[k]).slot < bindings.len() ==> applied_upto(
                bindings,
                updates,
                count,
            )[updates[k].slot as int] == updates[k].applied_to(bindings[updates[k].slot as int]),
        forall|slot: int|
            0 <= slot < bindings.len() && (forall|k: int|
                0 <= k < count ==> (#[trigger] updates[k]).slot != slot)
                ==> #[trigger] applied_upto(bindings, updates, count)[slot] == bindings[slot],
    decreases count,
{
    if count > 0 {
        lemma_applied_per_slot(bindings, updates, (count - 1) as nat);
        let before = applied_upto(bindings, updates, (count - 1) as nat);
        let after = applied_upto(bindings, updates, count);
        let last = updates[count - 1];
        if last.slot < bindings.len() {
            assert(before[last.slot as int] == bindings[last.slot as int]);
        }
        assert forall|k: int|
            0 <= k < count && (#[trigger] updates[k]).slot < bindings.len() implies after[updates[k].slot as int]
            == updates[k].applied_to(bindings[updates[k].slot as int]) by {
            if k < count - 1 {
                assert(updates[k].slot != updates[count - 1].slot);
            }
        }
    }
}

/// A shader seen through an offset: the coordinates are moved by the
/// offset before the shader is asked.
pub struct Translated<'a, Sh, Space: CoordinateSpace> {
    /// The shader that is asked.
    pub shader: &'a Sh,
    /// What is added to the coordinates.
    pub offset: Coordinates<Space>,
}

impl<'a, U, O, Space: CoordinateSpace, Sh: Shader<U, Space, O>> Shader<U, Space, O> for Translated<
    'a,
    Sh,
    Space,
> {
    open spec fn color_at(&self, coords: Coordinates<Space>, uniforms: U) -> O {
        self.shader.color_at(coords.translated_spec(self.offset), uniforms)
    }

    fn draw(&self, surface_coords: &Coordinates<Space>, uniforms: &U) -> (pixel: O) {
        let adjusted = surface_coords.translated(&self.offset);
        self.shader.draw(&adjusted, uniforms)
    }
}

impl<Sh, Space: CoordinateSpace> ShaderBinding<Sh, Space> {
    /// The layer takes part in rendering: it is visible, not wholly
    /// transparent, and has a shader.
    pub open spec fn is_drawn(self) -> bool {
        self.opacity > 0 && self.visible && self.shader is Some
    }

    /// A fresh layer over the given area: without a shader, fully opaque,
    /// visible and without an offset.
    pub open spec fn fresh(area: Rectangle<Space>) -> Self {
        ShaderBinding {
            shader: None,
            rect: area,
            opacity: 255,
            visible: true,
            offset: Coordinates {
                x: Space::Data::from_value(0),
                y: Space::Data::from_value(0),
            },
        }
    }
}

/// The pixels after one layer was rendered onto them: where the layer is
/// drawn, the colours of its shader, asked at the coordinates moved by its
/// offset, are composited at its opacity onto the pixels that its rectangle
/// selects. A layer that is not drawn changes nothing.
pub open spec fn layer_rendered<U, O, Space: CoordinateSpace, Sh: Shader<U, Space, O>, Out: Sample<
    Space = Space,
>>(
    binding: ShaderBinding<Sh, Space>,
    output: Out,
    pixels: Seq<Out::Pixel>,
    uniforms: U,
) -> Seq<Out::Pixel> where Out::Pixel: PixelBlend<O> {
    if binding.is_drawn() {
        painted(
            pixels,
            output.cells(binding.rect),
            Translated { shader: &binding.shader->Some_0, offset: binding.offset },
            uniforms,
            Fract8(binding.opacity),
        )
    } else {
        pixels
    }
}

/// The pixels after the first `count` layers were rendered onto them, the
/// lowest slot first, so that a layer of a higher slot is drawn over those
/// of lower slots.
pub open spec fn rendered_upto<U, O, Space: CoordinateSpace, Sh: Shader<U, Space, O>, Out: Sample<
    Space = Space,
>>(
    bindings: Seq<ShaderBinding<Sh, Space>>,
    count: nat,
    output: Out,
    pixels: Seq<Out::Pixel>,
    uniforms: U,
) -> Seq<Out::Pixel> where Out::Pixel: PixelBlend<O>
    decreases count,
{
    if count == 0 {
        pixels
    } else {
        layer_rendered(
            bindings[count - 1],
            output,
            rendered_upto(bindings, (count - 1) as nat, output, pixels, uniforms),
            uniforms,
        )
    }
}

/// The layers of the engine, in the order in which they are drawn: the
/// slot of a layer is its place in that order. Layers are added and
/// changed, and never removed.
pub struct ShaderChain<Sh, Space: CoordinateSpace> {
    /// The layers, by slot.
    pub bindings: Vec<ShaderBinding<Sh, Space>>,
}

/// The handle of one layer: it names the slot, and stages changes of the
/// layer in the queue of the engine.
#[derive(Debug)]
pub struct BufferedSurface {
    slot: usize,
}

impl BufferedSurface {
    /// The slot of the layer.
    pub closed spec fn slot_spec(&self) -> usize {
        self.slot
    }

    /// The slot of the layer: its place in the order of drawing.
    pub fn slot(&self) -> (slot: usize)
        ensures
            slot == self.slot_spec(),
    {
        self.slot
    }
}

/// The handle of a layer: through it changes of the layer are staged in
/// the queue of the engine, where they wait for the next commit.
///
/// A change is merged into the change of the layer that waits, or appended
/// where none waits. The queue must take it: a queue that is full and holds
/// no change of the layer takes none, which `UpdateQueue::has_room_for`
/// tells.
pub trait Surface<Sh, Space: CoordinateSpace> {
    /// The slot of the layer that the handle names.
    spec fn names_slot(&self) -> usize;

    /// The slot of the layer: its place in the order of drawing.
    fn slot(&self) -> (slot: usize)
        ensures
            slot == self.names_slot(),
    ;

    /// Stages a new shader for the layer.
    fn set_shader(
        &mut self,
        updates: &mut UpdateQueue<Sh, Space>,
        shader: Sh,
    )
        requires
            old(updates).wf(),
            queued(
                old(updates).pending(),
                old(updates).capacity(),
                (SurfaceUpdate { shader: Some(Some(shader)), rect: None, opacity: None, visible: None, offset: None, slot: old(self).names_slot() }),
            ) is Some,
        ensures
            final(self).names_slot() == old(self).names_slot(),
            final(updates).wf(),
            final(updates).capacity() == old(updates).capacity(),
            final(updates).is_damaged(),
            final(updates).pending() == queued(
                old(updates).pending(),
                old(updates).capacity(),
                (SurfaceUpdate { shader: Some(Some(shader)), rect: None, opacity: None, visible: None, offset: None, slot: old(self).names_slot() }),
            )->Some_0,
    ;

    /// Stages the removal of the shader of the layer.
    fn clear_shader(
        &mut self,
        updates: &mut UpdateQueue<Sh, Space>,
    )
        requires
            old(updates).wf(),
            queued(
                old(updates).pending(),
                old(updates).capacity(),
                (SurfaceUpdate { shader: Some(None), rect: None, opacity: None, visible: None, offset: None, slot: old(self).names_slot() }),
            ) is Some,
        ensures
            final(self).names_slot() == old(self).names_slot(),
            final(updates).wf(),
            final(updates).capacity() == old(updates).capacity(),
            final(updates).is_damaged(),
            final(updates).pending() == queued(
                old(updates).pending(),
                old(updates).capacity(),
                (SurfaceUpdate { shader: Some(None), rect: None, opacity: None, visible: None, offset: None, slot: old(self).names_slot() }),
            )->Some_0,
    ;

    /// Stages a new rectangle for the layer.
    fn set_rect(
        &mut self,
        updates: &mut UpdateQueue<Sh, Space>,
        rect: Rectangle<Space>,
    )
        requires
            old(updates).wf(),
            queued(
                old(updates).pending(),
                old(updates).capacity(),
                (SurfaceUpdate { shader: None, rect: Some(rect), opacity: None, visible: None, offset: None, slot: old(self).names_slot() }),
            ) is Some,
        ensures
            final(self).names_slot() == old(self).names_slot(),
            final(updates).wf(),
            final(updates).capacity() == old(updates).capacity(),
            final(updates).is_damaged(),
            final(updates).pending() == queued(
                old(updates).pending(),
                old(updates).capacity(),
                (SurfaceUpdate { shader: None, rect: Some(rect), opacity: None, visible: None, offset: None, slot: old(self).names_slot() }),
            )->Some_0,
    ;

    /// Stages a new opacity for the layer: 0 is wholly transparent and 255
    /// wholly opaque.
    fn set_opacity(
        &mut self,
        updates: &mut UpdateQueue<Sh, Space>,
        opacity: u8,
    )
        requires
            old(updates).wf(),
            queued(
                old(updates).pending(),
                old(updates).capacity(),
                (SurfaceUpdate { shader: None, rect: None, opacity: Some(opacity), visible: None, offset: None, slot: old(self).names_slot() }),
            ) is Some,
        ensures
            final(self).names_slot() == old(self).names_slot(),
            final(updates).wf(),
            final(updates).capacity() == old(updates).capacity(),
            final(updates).is_damaged(),
            final(updates).pending() == queued(
                old(updates).pending(),
                old(updates).capacity(),
                (SurfaceUpdate { shader: None, rect: None, opacity: Some(opacity), visible: None, offset: None, slot: old(self).names_slot() }),
            )->Some_0,
    ;

    /// Stages a new visibility for the layer, which leaves the opacity as it
    /// is.
    fn set_visible(
        &mut self,
        updates: &mut UpdateQueue<Sh, Space>,
        visible: bool,
    )
        requires
            old(updates).wf(),
            queued(
                old(updates).pending(),
                old(updates).capacity(),
                (SurfaceUpdate { shader: None, rect: None, opacity: None, visible: Some(visible), offset: None, slot: old(self).names_slot() }),
            ) is Some,
        ensures
            final(self).names_slot() == old(self).names_slot(),
            final(updates).wf(),
            final(updates).capacity() == old(updates).capacity(),
            final(updates).is_damaged(),
            final(updates).pending() == queued(
                old(updates).pending(),
                old(updates).capacity(),
                (SurfaceUpdate { shader: None, rect: None, opacity: None, visible: Some(visible), offset: None, slot: old(self).names_slot() }),
            )->Some_0,
    ;

    /// Stages a new offset for the layer.
    fn set_offset(
        &mut self,
        updates: &mut UpdateQueue<Sh, Space>,
        offset: Coordinates<Space>,
    )
        requires
            old(updates).wf(),
            queued(
                old(updates).pending(),
                old(updates).capacity(),
                (SurfaceUpdate { shader: None, rect: None, opacity: None, visible: None, offset: Some(offset), slot: old(self).names_slot() }),
            ) is Some,
        ensures
            final(self).names_slot() == old(self).names_slot(),
            final(updates).wf(),
            final(updates).capacity() == old(updates).capacity(),
            final(updates).is_damaged(),
            final(updates).pending() == queued(
                old(updates).pending(),
                old(updates).capacity(),
                (SurfaceUpdate { shader: None, rect: None, opacity: None, visible: None, offset: Some(offset), slot: old(self).names_slot() }),
            )->Some_0,
    ;
}

impl<Sh, Space: CoordinateSpace> Surface<Sh, Space> for BufferedSurface {
    open spec fn names_slot(&self) -> usize {
        self.slot_spec()
    }

    fn slot(&self) -> (slot: usize) {
        self.slot
    }

    fn set_shader(
        &mut self,
        updates: &mut UpdateQueue<Sh, Space>,
        shader: Sh,
    ) {
        let _ = updates.push(SurfaceUpdate { shader: Some(Some(shader)), rect: None, opacity: None, visible: None, offset: None, slot: self.slot });
    }

    fn clear_shader(
        &mut self,
        updates: &mut UpdateQueue<Sh, Space>,
    ) {
        let _ = updates.push(SurfaceUpdate { shader: Some(None), rect: None, opacity: None, visible: None, offset: None, slot: self.slot });
    }

    fn set_rect(
        &mut self,
        updates: &mut UpdateQueue<Sh, Space>,
        rect: Rectangle<Space>,
    ) {
        let _ = updates.push(SurfaceUpdate { shader: None, rect: Some(rect), opacity: None, visible: None, offset: None, slot: self.slot });
    }

    fn set_opacity(
        &mut self,
        updates: &mut UpdateQueue<Sh, Space>,
        opacity: u8,
    ) {
        let _ = updates.push(SurfaceUpdate { shader: None, rect: None, opacity: Some(opacity), visible: None, offset: None, slot: self.slot });
    }

    fn set_visible(
        &mut self,
        updates: &mut UpdateQueue<Sh, Space>,
        visible: bool,
    ) {
        let _ = updates.push(SurfaceUpdate { shader: None, rect: None, opacity: None, visible: Some(visible), offset: None, slot: self.slot });
    }

    fn set_offset(
        &mut self,
        updates: &mut UpdateQueue<Sh, Space>,
        offset: Coordinates<Space>,
    ) {
        let _ = updates.push(SurfaceUpdate { shader: None, rect: None, opacity: None, visible: None, offset: Some(offset), slot: self.slot });
    }
}

impl<Sh, Space: CoordinateSpace> ShaderChain<Sh, Space> {
    /// No layers.
    pub fn new() -> (chain: Self)
        ensures
            chain.bindings@.len() == 0,
    {
        ShaderChain { bindings: Vec::new() }
    }

    /// Applies changes that were taken from the queue, in order, each to
    /// the layer of its slot and every property of it at once.
    pub fn apply(&mut self, updates: Vec<SurfaceUpdate<Sh, Space>>)
        ensures
            final(self).bindings@ == applied_all(old(self).bindings@, updates@),
    {
        let mut updates = updates;
        let ghost all = updates@;
        let ghost start = self.bindings@;
        let count: usize = updates.len();
        let mut done: usize = 0;
        while done < count
            invariant
                done <= count,
                count == all.len(),
                updates@.len() == count,
                forall|k: int| done <= k < count ==> #[trigger] updates@[k] == all[k],
                self.bindings@ == applied_upto(start, all, done as nat),
            decreases count - done,
        {
            proof {
                lemma_applied_keeps_layers(start, all, done as nat);
            }
            let slot: usize = updates[done].slot;
            if slot < self.bindings.len() {
                let opacity: Option<u8> = updates[done].opacity;
                let rect: Option<Rectangle<Space>> = updates[done].rect;
                let visible: Option<bool> = updates[done].visible;
                let offset: Option<Coordinates<Space>> = updates[done].offset;
                if let Some(shader) = updates[done].shader.take() {
                    self.bindings[slot].shader = shader;
                }
                if let Some(opacity) = opacity {
                    self.bindings[slot].opacity = opacity;
                }
                if let Some(rect) = rect {
                    self.bindings[slot].rect = rect;
                }
                if let Some(visible) = visible {
                    self.bindings[slot].visible = visible;
                }
                if let Some(offset) = offset {
                    self.bindings[slot].offset = offset;
                }
            }
            done += 1;
        }
    }

    /// Adds a layer over the given area, above all the layers there are:
    /// without a shader, fully opaque, visible and without an offset.
    pub fn new_surface(&mut self, area: Rectangle<Space>) -> (surface: Result<BufferedSurface, ()>)
        ensures
            surface is Ok,
            surface->Ok_0.slot_spec() == old(self).bindings@.len(),
            final(self).bindings@ == old(self).bindings@.push(ShaderBinding::fresh(area)),
    {
        let next_slot: usize = self.bindings.len();
        let offset = Coordinates::<Space>::top_left();
        proof {
            offset.x.lemma_value_in_range();
            Space::Data::lemma_from_value(0);
            Space::Data::lemma_value_injective(offset.x, Space::Data::from_value(0));
            Space::Data::lemma_value_injective(offset.y, Space::Data::from_value(0));
        }
        self.bindings.push(
            ShaderBinding { opacity: 255, shader: None, rect: area, visible: true, offset },
        );
        Ok(BufferedSurface { slot: next_slot })
    }

    /// Renders every layer that is drawn onto the output, from the lowest
    /// slot to the highest.
    pub fn render_to<U, O, Out: Sample<Space = Space>>(&self, output: &mut Out, uniforms: &U) where
        Sh: Shader<U, Space, O>,
        Out::Pixel: PixelBlend<O>,

        requires
            old(output).wf(),
        ensures
            final(output).wf(),
            final(output).pixels() == rendered_upto(
                self.bindings@,
                self.bindings@.len(),
                *old(output),
                old(output).pixels(),
                *uniforms,
            ),
            forall|any: Rectangle<Space>| #[trigger] final(output).cells(any) == old(output).cells(any),
    {
        let count: usize = self.bindings.len();
        let mut slot: usize = 0;
        while slot < count
            invariant
                slot <= count,
                count == self.bindings@.len(),
                output.wf(),
                output.pixels() == rendered_upto(
                    self.bindings@,
                    slot as nat,
                    *old(output),
                    old(output).pixels(),
                    *uniforms,
                ),
                forall|any: Rectangle<Space>| #[trigger] output.cells(any) == old(output).cells(any),
            decreases count - slot,
        {
            let surface = &self.bindings[slot];
            let opacity: u8 = surface.opacity;
            if opacity > 0 && surface.visible {
                if let Some(shader) = &surface.shader {
                    let moved = Translated { shader, offset: surface.offset };
                    composite(output, &moved, uniforms, &surface.rect, Fract8(opacity));
                }
            }
            slot += 1;
        }
    }
}


/// The first change of a slot is where `pending_at` says.
pub proof fn lemma_pending_at_is<Sh, Space: CoordinateSpace>(
    pending: Seq<SurfaceUpdate<Sh, Space>>,
    slot: usize,
    at: int,
)
    requires
        0 <= at <= pending.len(),
        at < pending.len() ==> pending[at].slot == slot,
        forall|i: int| 0 <= i < at ==> (#[trigger] pending[i]).slot != slot,
    ensures
        pending_at(pending, slot, 0) == at,
{
    lemma_pending_at(pending, slot, 0);
    let found = pending_at(pending, slot, 0);
    if found < at {
        assert(pending[found].slot != slot);
    }
}

/// Two changes of one slot that are queued without a commit between them
/// wait as exactly one change: the first with the second merged into it.
/// This holds where the first is appended and where it is merged into a
/// change that waits already; the number of waiting changes is the same
/// after the second as after the first.
pub proof fn lemma_second_update_merges<Sh, Space: CoordinateSpace>(
    pending: Seq<SurfaceUpdate<Sh, Space>>,
    capacity: nat,
    first: SurfaceUpdate<Sh, Space>,
    second: SurfaceUpdate<Sh, Space>,
)
    requires
        one_per_slot(pending),
        first.slot == second.slot,
        queued(pending, capacity, first) is Some,
    ensures
        queued(queued(pending, capacity, first)->Some_0, capacity, second) is Some,
        queued(queued(pending, capacity, first)->Some_0, capacity, second)->Some_0.len() == queued(
            pending,
            capacity,
            first,
        )->Some_0.len(),
        pending_at(pending, first.slot, 0) == pending.len() ==> queued(
            queued(pending, capacity, first)->Some_0,
            capacity,
            second,
        )->Some_0 == pending.push(first.merged(second)),
        pending_at(pending, first.slot, 0) < pending.len() ==> queued(
            queued(pending, capacity, first)->Some_0,
            capacity,
            second,
        )->Some_0 == pending.update(
            pending_at(pending, first.slot, 0),
            pending[pending_at(pending, first.slot, 0)].merged(first).merged(second),
        ),
{
    let at = pending_at(pending, first.slot, 0);
    lemma_pending_at(pending, first.slot, 0);
    let once = queued(pending, capacity, first)->Some_0;
    lemma_pending_at_is(once, second.slot, at);
    if at == pending.len() {
        assert(once.update(at, once[at].merged(second)) =~= pending.push(first.merged(second)));
    } else {
        assert(once.update(at, once[at].merged(second)) =~= pending.update(
            at,
            pending[at].merged(first).merged(second),
        ));
    }
}

/// A layer to which two merged changes are applied has, for every
/// property, the value of the later change where that names one, else
/// that of the earlier where that names one, and else the value it had.
pub proof fn lemma_merged_applies_latest<Sh, Space: CoordinateSpace>(
    binding: ShaderBinding<Sh, Space>,
    first: SurfaceUpdate<Sh, Space>,
    second: SurfaceUpdate<Sh, Space>,
)
    ensures
        first.merged(second).applied_to(binding) == second.applied_to(first.applied_to(binding)),
        first.merged(second).applied_to(binding).shader == if second.shader is Some {
            second.shader->Some_0
        } else if first.shader is Some {
            first.shader->Some_0
        } else {
            binding.shader
        },
        first.merged(second).applied_to(binding).rect == if second.rect is Some {
            second.rect->Some_0
        } else if first.rect is Some {
            first.rect->Some_0
        } else {
            binding.rect
        },
        first.merged(second).applied_to(binding).opacity == if second.opacity is Some {
            second.opacity->Some_0
        } else if first.opacity is Some {
            first.opacity->Some_0
        } else {
            binding.opacity
        },
        first.merged(second).applied_to(binding).visible == if second.visible is Some {
            second.visible->Some_0
        } else if first.visible is Some {
            first.visible->Some_0
        } else {
            binding.visible
        },
        first.merged(second).applied_to(binding).offset == if second.offset is Some {
            second.offset->Some_0
        } else if first.offset is Some {
            first.offset->Some_0
        } else {
            binding.offset
        },
{
}

/// Changes that are staged for a fresh layer wait until the commit, and
/// the commit applies them together. With `hidden` a change of the
/// visibility and `dimmed` a change of the opacity of the layer that was
/// added last, both queued into an empty queue: one change waits, the
/// layers are as they were when the layer was added, visible and fully
/// opaque, and applying what waits hides and dims the layer at once and
/// leaves every other layer and every other property as it was.
pub proof fn lemma_staged_until_commit<Sh, Space: CoordinateSpace>(
    layers: Seq<ShaderBinding<Sh, Space>>,
    area: Rectangle<Space>,
    capacity: nat,
    visible: bool,
    opacity: u8,
)
    requires
        capacity > 0,
        layers.len() < usize::MAX,
    ensures
        ({
            let slot = layers.len() as usize;
            let added = layers.push(ShaderBinding::<Sh, Space>::fresh(area));
            let hidden = SurfaceUpdate::<Sh, Space> {
                visible: Some(visible),
                ..SurfaceUpdate::untouched(slot)
            };
            let dimmed = SurfaceUpdate::<Sh, Space> {
                opacity: Some(opacity),
                ..SurfaceUpdate::untouched(slot)
            };
            let waiting = queued(queued(Seq::empty(), capacity, hidden)->Some_0, capacity, dimmed);
            let committed = applied_all(added, waiting->Some_0);
            &&& queued(Seq::empty(), capacity, hidden) is Some
            &&& waiting is Some
            &&& waiting->Some_0.len() == 1
            &&& added[slot as int].visible
            &&& added[slot as int].opacity == 255
            &&& committed.len() == added.len()
            &&& committed[slot as int] == (ShaderBinding {
                visible,
                opacity,
                ..ShaderBinding::<Sh, Space>::fresh(area)
            })
            &&& forall|other: int| 0 <= other < layers.len() ==> committed[other] == layers[other]
        }),
{
    let slot = layers.len() as usize;
    let added = layers.push(ShaderBinding::<Sh, Space>::fresh(area));
    let hidden = SurfaceUpdate::<Sh, Space> {
        visible: Some(visible),
        ..SurfaceUpdate::untouched(slot)
    };
    let dimmed = SurfaceUpdate::<Sh, Space> {
        opacity: Some(opacity),
        ..SurfaceUpdate::untouched(slot)
    };
    let nothing = Seq::<SurfaceUpdate<Sh, Space>>::empty();
    assert(pending_at(nothing, slot, 0) == 0);
    lemma_second_update_merges(nothing, capacity, hidden, dimmed);
    let waiting = queued(queued(nothing, capacity, hidden)->Some_0, capacity, dimmed)->Some_0;
    assert(waiting == nothing.push(hidden.merged(dimmed)));
    assert(one_per_slot(waiting));
    lemma_applied_per_slot(added, waiting, 1);
    assert(waiting[0].slot == slot);
    let committed = applied_all(added, waiting);
    assert(committed[slot as int] == waiting[0].applied_to(added[slot as int]));
    assert forall|other: int| 0 <= other < layers.len() implies committed[other]
        == layers[other] by {
        assert(waiting[0].slot != other);
        assert(committed[other] == added[other]);
    }
}

/// An engine that hands out layers and renders them.
pub trait Surfaces<Sh, Space: CoordinateSpace> {
    /// The handle of a layer.
    type Surface: Surface<Sh, Space>;

    /// What goes wrong when no layer can be added.
    type Error;

    /// The engine is consistent.
    spec fn is_consistent(&self) -> bool;

    /// The layers as the last commit left them, by slot.
    spec fn layers(&self) -> Seq<ShaderBinding<Sh, Space>>;

    /// The changes that wait for the next commit, oldest first.
    spec fn waiting(&self) -> Seq<SurfaceUpdate<Sh, Space>>;

    /// The number of changes that can wait at once.
    spec fn room(&self) -> nat;

    /// The engine can hold one more layer.
    spec fn can_grow(&self) -> bool;

    /// Stages a change: it is merged into the change of its slot that
    /// waits, or appended where none waits, unless there is no room for
    /// it: then nothing changes and the change comes back as the error.
    fn stage(&mut self, update: SurfaceUpdate<Sh, Space>) -> (staged: Result<
        (),
        SurfaceUpdate<Sh, Space>,
    >)
        requires
            old(self).is_consistent(),
        ensures
            final(self).is_consistent(),
            final(self).layers() == old(self).layers(),
            final(self).room() == old(self).room(),
            staged is Ok <==> queued(old(self).waiting(), old(self).room(), update) is Some,
            staged is Ok ==> final(self).waiting() == queued(
                old(self).waiting(),
                old(self).room(),
                update,
            )->Some_0,
            staged is Err ==> staged->Err_0 == update && final(self).waiting() == old(self).waiting(),
    ;

    /// Adds a layer over the given area, above all the layers there are. A
    /// new layer is visible, fully opaque, and has no shader and no offset.
    fn new_surface(&mut self, area: Rectangle<Space>) -> (surface: Result<
        Self::Surface,
        Self::Error,
    >)
        requires
            old(self).is_consistent(),
        ensures
            final(self).is_consistent(),
            final(self).waiting() == old(self).waiting(),
            final(self).room() == old(self).room(),
            surface is Ok <==> old(self).can_grow(),
            surface is Ok ==> surface->Ok_0.names_slot() == old(self).layers().len(),
            surface is Ok ==> final(self).layers() == old(self).layers().push(
                ShaderBinding::fresh(area),
            ),
            surface is Err ==> final(self).layers() == old(self).layers(),
    ;

    /// Commits what waits, and then renders every layer that is drawn onto
    /// the output, from the lowest slot to the highest.
    fn render_to<U, O, Out: Sample<Space = Space>>(&mut self, output: &mut Out, uniforms: &U) where
        Sh: Shader<U, Space, O>,
        Out::Pixel: PixelBlend<O>,

        requires
            old(self).is_consistent(),
            old(output).wf(),
        ensures
            final(self).is_consistent(),
            final(self).layers() == applied_all(old(self).layers(), old(self).waiting()),
            final(self).waiting().len() == 0,
            final(self).room() == old(self).room(),
            final(output).wf(),
            final(output).pixels() == rendered_upto(
                final(self).layers(),
                final(self).layers().len(),
                *old(output),
                old(output).pixels(),
                *uniforms,
            ),
            forall|any: Rectangle<Space>| #[trigger] final(output).cells(any) == old(output).cells(any),
    ;
}

/// The surface engine: the layers, and the queue of the changes that wait
/// for the next commit.
pub struct BufferedSurfacePool<Sh, Space: CoordinateSpace> {
    /// The layers as the last commit left them.
    pub pool: ShaderChain<Sh, Space>,
    /// The changes that were staged since.
    pub updates: UpdateQueue<Sh, Space>,
}

impl<Sh, Space: CoordinateSpace> BufferedSurfacePool<Sh, Space> {
    /// The engine is consistent: its queue is.
    pub open spec fn wf(&self) -> bool {
        self.updates.wf()
    }

    /// An engine without layers, whose queue holds `capacity` changes.
    pub fn new(capacity: usize) -> (surfaces: Self)
        requires
            capacity > 0,
        ensures
            surfaces.wf(),
            surfaces.pool.bindings@.len() == 0,
            surfaces.updates.pending().len() == 0,
            surfaces.updates.capacity() == capacity,
    {
        BufferedSurfacePool { pool: ShaderChain::new(), updates: UpdateQueue::new(capacity) }
    }

    /// Adds a layer over the given area, above all the layers there are. A
    /// new layer is visible, fully opaque, and has no shader and no offset.
    pub fn new_surface(&mut self, area: Rectangle<Space>) -> (surface: Result<BufferedSurface, ()>)
        requires
            old(self).wf(),
        ensures
            final(self).wf(),
            surface is Ok,
            surface->Ok_0.slot_spec() == old(self).pool.bindings@.len(),
            final(self).pool.bindings@ == old(self).pool.bindings@.push(ShaderBinding::fresh(area)),
            final(self).updates == old(self).updates,
    {
        self.pool.new_surface(area)
    }

    /// Applies every change that waits, in the order in which the changes
    /// were first queued, and empties the queue. The queue is emptied
    /// before the first change is applied, and every change is applied as
    /// a whole.
    pub fn commit(&mut self)
        requires
            old(self).wf(),
        ensures
            final(self).wf(),
            final(self).pool.bindings@ == applied_all(
                old(self).pool.bindings@,
                old(self).updates.pending(),
            ),
            final(self).updates.pending().len() == 0,
            final(self).updates.capacity() == old(self).updates.capacity(),
    {
        proof {
            self.updates.lemma_wf();
        }
        match self.updates.try_take() {
            Some(queue) => {
                self.pool.apply(queue);
            },
            None => {},
        }
    }

    /// Commits, and then renders every layer that is drawn onto the
    /// output, from the lowest slot to the highest.
    pub fn render_to<U, O, Out: Sample<Space = Space>>(&mut self, output: &mut Out, uniforms: &U) where
        Sh: Shader<U, Space, O>,
        Out::Pixel: PixelBlend<O>,

        requires
            old(self).wf(),
            old(output).wf(),
        ensures
            final(self).wf(),
            final(self).pool.bindings@ == applied_all(
                old(self).pool.bindings@,
                old(self).updates.pending(),
            ),
            final(self).updates.pending().len() == 0,
            final(self).updates.capacity() == old(self).updates.capacity(),
            final(output).wf(),
            final(output).pixels() == rendered_upto(
                final(self).pool.bindings@,
                final(self).pool.bindings@.len(),
                *old(output),
                old(output).pixels(),
                *uniforms,
            ),
            forall|any: Rectangle<Space>| #[trigger] final(output).cells(any) == old(output).cells(any),
    {
        self.commit();
        self.pool.render_to(output, uniforms);
    }
}

impl<Sh, Space: CoordinateSpace> Surfaces<Sh, Space> for BufferedSurfacePool<Sh, Space> {
    type Surface = BufferedSurface;

    type Error = ();

    open spec fn is_consistent(&self) -> bool {
        self.wf()
    }

    open spec fn layers(&self) -> Seq<ShaderBinding<Sh, Space>> {
        self.pool.bindings@
    }

    open spec fn waiting(&self) -> Seq<SurfaceUpdate<Sh, Space>> {
        self.updates.pending()
    }

    open spec fn room(&self) -> nat {
        self.updates.capacity()
    }

    /// The layers of this engine grow without a bound.
    open spec fn can_grow(&self) -> bool {
        true
    }

    fn stage(&mut self, update: SurfaceUpdate<Sh, Space>) -> (staged: Result<
        (),
        SurfaceUpdate<Sh, Space>,
    >) {
        self.updates.push(update)
    }

    fn new_surface(&mut self, area: Rectangle<Space>) -> (surface: Result<BufferedSurface, ()>) {
        BufferedSurfacePool::new_surface(self, area)
    }

    fn render_to<U, O, Out: Sample<Space = Space>>(&mut self, output: &mut Out, uniforms: &U) where
        Sh: Shader<U, Space, O>,
        Out::Pixel: PixelBlend<O>,
     {
        BufferedSurfacePool::render_to(self, output, uniforms)
    }
}

impl<Sh, Space: CoordinateSpace> Default for BufferedSurfacePool<Sh, Space> {
    /// An engine without layers, whose queue holds 128 changes.
    fn default() -> (surfaces: Self)
        ensures
            surfaces.wf(),
            surfaces.pool.bindings@.len() == 0,
            surfaces.updates.pending().len() == 0,
            surfaces.updates.capacity() == 128,
    {
        BufferedSurfacePool::new(128)
    }
}


/// Collects the first properties of a layer, and then adds the layer with
/// them.
pub struct SurfaceBuilder<Sh, Space: CoordinateSpace> {
    rect: Option<Rectangle<Space>>,
    opacity: Option<u8>,
    shader: Option<Sh>,
    visible: Option<bool>,
}

impl<Sh, Space: CoordinateSpace> SurfaceBuilder<Sh, Space> {
    /// The area that was asked for, if one was.
    pub closed spec fn area(&self) -> Option<Rectangle<Space>> {
        self.rect
    }

    /// The change that `finish` stages for the layer of the given slot:
    /// the opacity, shader and visibility that were asked for.
    pub closed spec fn first_update(&self, slot: usize) -> SurfaceUpdate<Sh, Space> {
        SurfaceUpdate {
            shader: if self.shader is Some { Some(self.shader) } else { None },
            rect: None,
            opacity: self.opacity,
            visible: self.visible,
            offset: None,
            slot,
        }
    }

    /// Something was asked for that `finish` has to stage.
    pub closed spec fn stages_something(&self) -> bool {
        self.opacity is Some || self.shader is Some || self.visible is Some
    }

    /// Starts building a layer of which nothing is asked yet.
    pub fn build() -> (builder: Self)
        ensures
            builder.area() is None,
            !builder.stages_something(),
            forall|slot: usize|
                #[trigger] builder.first_update(slot) == SurfaceUpdate::<Sh, Space>::untouched(slot),
    {
        SurfaceBuilder { opacity: None, shader: None, rect: None, visible: None }
    }

    /// Asks for an opacity.
    pub fn opacity(self, opacity: u8) -> (builder: Self)
        ensures
            builder.area() == self.area(),
            builder.stages_something(),
            forall|slot: usize|
                #[trigger] builder.first_update(slot) == (SurfaceUpdate {
                    opacity: Some(opacity),
                    ..self.first_update(slot)
                }),
    {
        let mut builder = self;
        builder.opacity = Some(opacity);
        builder
    }

    /// Asks for an area. A layer for which none is asked covers the whole
    /// space.
    pub fn rect(self, rect: Rectangle<Space>) -> (builder: Self)
        ensures
            builder.area() == Some(rect),
            builder.stages_something() == self.stages_something(),
            forall|slot: usize| #[trigger] builder.first_update(slot) == self.first_update(slot),
    {
        let mut builder = self;
        builder.rect = Some(rect);
        builder
    }

    /// Asks for a shader.
    pub fn shader(self, shader: Sh) -> (builder: Self)
        ensures
            builder.area() == self.area(),
            builder.stages_something(),
            forall|slot: usize|
                #[trigger] builder.first_update(slot) == (SurfaceUpdate {
                    shader: Some(Some(shader)),
                    ..self.first_update(slot)
                }),
    {
        let mut builder = self;
        builder.shader = Some(shader);
        builder
    }

    /// Asks for a visibility.
    pub fn visible(self, visible: bool) -> (builder: Self)
        ensures
            builder.area() == self.area(),
            builder.stages_something(),
            forall|slot: usize|
                #[trigger] builder.first_update(slot) == (SurfaceUpdate {
                    visible: Some(visible),
                    ..self.first_update(slot)
                }),
    {
        let mut builder = self;
        builder.visible = Some(visible);
        builder
    }

    /// Adds the layer to the engine, over the area that was asked for or
    /// over the whole space, and stages the opacity, shader and visibility
    /// that were asked for, which wait for the next commit as every change
    /// does. Where something is to be staged there must be room for it, as
    /// for the setters of a layer.
    pub fn finish<SS: Surfaces<Sh, Space>>(self, surfaces: &mut SS) -> (surface: Result<
        SS::Surface,
        SS::Error,
    >)
        requires
            old(surfaces).is_consistent(),
            self.stages_something() ==> queued(
                old(surfaces).waiting(),
                old(surfaces).room(),
                self.first_update(old(surfaces).layers().len() as usize),
            ) is Some,
        ensures
            final(surfaces).is_consistent(),
            final(surfaces).room() == old(surfaces).room(),
            surface is Ok <==> old(surfaces).can_grow(),
            surface is Ok ==> surface->Ok_0.names_slot() == old(surfaces).layers().len(),
            surface is Ok ==> final(surfaces).layers() == old(surfaces).layers().push(
                ShaderBinding::fresh(
                    if self.area() is Some {
                        self.area()->Some_0
                    } else {
                        Rectangle::whole()
                    },
                ),
            ),
            surface is Ok && self.stages_something() ==> final(surfaces).waiting() == queued(
                old(surfaces).waiting(),
                old(surfaces).room(),
                self.first_update(old(surfaces).layers().len() as usize),
            )->Some_0,
            surface is Ok && !self.stages_something() ==> final(surfaces).waiting() == old(surfaces).waiting(),
            surface is Err ==> final(surfaces).layers() == old(surfaces).layers() && final(surfaces).waiting() == old(surfaces).waiting(),
    {
        let area: Rectangle<Space> = match self.rect {
            None => Rectangle::everything(),
            Some(r) => r,
        };
        let stages: bool = self.opacity.is_some() || self.shader.is_some()
            || self.visible.is_some();
        match surfaces.new_surface(area) {
            Ok(surface) => {
                if stages {
                    let update = SurfaceUpdate {
                        shader: match self.shader {
                            Some(shader) => Some(Some(shader)),
                            None => None,
                        },
                        rect: None,
                        opacity: self.opacity,
                        visible: self.visible,
                        offset: None,
                        slot: surface.slot(),
                    };
                    let _ = surfaces.stage(update);
                }
                Ok(surface)
            },
            Err(e) => Err(e),
        }
    }
}

} // verus!
