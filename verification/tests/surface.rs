use figments::geometry::{Coordinates, Rectangle, Virtual};
use figments::mappings::linear::{LinearSampler, LinearSpace};
use figments::pixels::{Rgb, Rgba};
use figments::render::Shader;
use figments::shaders::{FrameNumber, RgbWaves, Solid};
use figments::surface::{
    BufferedSurfacePool, ShaderBinding, ShaderChain, Surface, SurfaceBuilder, SurfaceUpdate,
    Surfaces, UpdateQueue,
};

type Pool = BufferedSurfacePool<Solid<Rgb>, Virtual>;

#[derive(Debug)]
struct Ramp;

impl Shader<u8, Virtual, Rgb> for Ramp {
    fn color_at(&self, coords: Coordinates<Virtual>, uniforms: u8) -> Rgb {
        Rgb::new(coords.x, coords.y, uniforms)
    }

    fn draw(&self, surface_coords: &Coordinates<Virtual>, uniforms: &u8) -> Rgb {
        Rgb::new(surface_coords.x, surface_coords.y, *uniforms)
    }
}

fn whole() -> Rectangle<Virtual> {
    Rectangle::everything()
}

fn layer(pool: &Pool, slot: usize) -> &ShaderBinding<Solid<Rgb>, Virtual> {
    &pool.pool.bindings[slot]
}

#[test]
fn a_new_surface_is_opaque_and_visible() {
    let mut pool = Pool::default();
    let mut first = pool.new_surface(Rectangle::new_from_coordinates(1, 2, 3, 4)).unwrap();
    let mut second = pool.new_surface(whole()).unwrap();
    assert_eq!(first.slot(), 0);
    assert_eq!(second.slot(), 1);
    assert_eq!(pool.pool.bindings.len(), 2);
    let binding = layer(&pool, 0);
    assert_eq!(binding.opacity, 255);
    assert!(binding.visible);
    assert!(binding.shader.is_none());
    assert_eq!(binding.rect, Rectangle::new_from_coordinates(1, 2, 3, 4));
    assert_eq!(binding.offset, Coordinates::new(0, 0));
    assert_eq!(pool.updates.len(), 0);
}

#[test]
fn staged_changes_wait_for_the_commit() {
    let mut pool = Pool::default();
    let mut surface = pool.new_surface(whole()).unwrap();
    surface.set_visible(&mut pool.updates, false);
    surface.set_opacity(&mut pool.updates, 128);
    assert!(layer(&pool, 0).visible);
    assert_eq!(layer(&pool, 0).opacity, 255);
    assert_eq!(pool.updates.len(), 1);
    pool.commit();
    assert!(!layer(&pool, 0).visible);
    assert_eq!(layer(&pool, 0).opacity, 128);
    assert_eq!(pool.updates.len(), 0);
}

#[test]
fn two_updates_of_one_slot_merge() {
    let mut pool = Pool::default();
    let mut surface = pool.new_surface(whole()).unwrap();
    surface.set_opacity(&mut pool.updates, 10);
    surface.set_rect(&mut pool.updates, Rectangle::new_from_coordinates(1, 1, 2, 2));
    surface.set_opacity(&mut pool.updates, 20);
    assert_eq!(pool.updates.len(), 1);
    let taken = pool.updates.try_take().unwrap();
    assert_eq!(taken.len(), 1);
    assert_eq!(taken[0].slot, 0);
    assert_eq!(taken[0].opacity, Some(20));
    assert_eq!(taken[0].rect, Some(Rectangle::new_from_coordinates(1, 1, 2, 2)));
    assert_eq!(taken[0].visible, None);
    assert_eq!(taken[0].offset, None);
    assert!(taken[0].shader.is_none());
    pool.pool.apply(taken);
    let binding = layer(&pool, 0);
    assert_eq!(binding.opacity, 20);
    assert_eq!(binding.rect, Rectangle::new_from_coordinates(1, 1, 2, 2));
    assert!(binding.visible);
    assert_eq!(binding.offset, Coordinates::new(0, 0));
}

#[test]
fn merging_keeps_what_the_later_change_does_not_name() {
    let mut first: SurfaceUpdate<Solid<Rgb>, Virtual> = SurfaceUpdate::new(3);
    first.opacity = Some(1);
    first.visible = Some(false);
    let mut second: SurfaceUpdate<Solid<Rgb>, Virtual> = SurfaceUpdate::new(3);
    second.opacity = Some(2);
    second.offset = Some(Coordinates::new(5, 6));
    second.shader = Some(None);
    first.merge(second);
    assert_eq!(first.slot, 3);
    assert_eq!(first.opacity, Some(2));
    assert_eq!(first.visible, Some(false));
    assert_eq!(first.offset, Some(Coordinates::new(5, 6)));
    assert_eq!(first.rect, None);
    assert!(matches!(first.shader, Some(None)));
    let nothing: SurfaceUpdate<Solid<Rgb>, Virtual> = SurfaceUpdate::default();
    assert_eq!(nothing.slot, usize::MAX);
    assert!(nothing.opacity.is_none() && nothing.rect.is_none() && nothing.visible.is_none());
}

#[test]
fn changes_are_taken_in_the_order_of_their_first_push() {
    let mut pool = Pool::default();
    let mut a = pool.new_surface(whole()).unwrap();
    let mut b = pool.new_surface(whole()).unwrap();
    let mut c = pool.new_surface(whole()).unwrap();
    b.set_opacity(&mut pool.updates, 1);
    c.set_opacity(&mut pool.updates, 2);
    a.set_opacity(&mut pool.updates, 3);
    b.set_visible(&mut pool.updates, false);
    let taken = pool.updates.try_take().unwrap();
    let slots: Vec<usize> = taken.iter().map(|u| u.slot).collect();
    assert_eq!(slots, vec![1, 2, 0]);
    assert_eq!(taken[0].visible, Some(false));
    assert!(pool.updates.try_take().is_none());
}

#[test]
fn a_full_queue_refuses_a_new_slot_and_still_merges() {
    let mut queue: UpdateQueue<Solid<Rgb>, Virtual> = UpdateQueue::new(2);
    let mut chain: ShaderChain<Solid<Rgb>, Virtual> = ShaderChain::new();
    let mut a = chain.new_surface(whole()).unwrap();
    let mut b = chain.new_surface(whole()).unwrap();
    let c = chain.new_surface(whole()).unwrap();
    assert!(queue.has_room_for(c.slot()));
    a.set_opacity(&mut queue, 1);
    b.set_opacity(&mut queue, 2);
    assert!(!queue.has_room_for(c.slot()));
    assert!(queue.has_room_for(b.slot()));
    let mut change: SurfaceUpdate<Solid<Rgb>, Virtual> = SurfaceUpdate::new(c.slot());
    change.opacity = Some(3);
    let back = queue.push(change).err().unwrap();
    assert_eq!(back.slot, 2);
    assert_eq!(back.opacity, Some(3));
    assert_eq!(queue.len(), 2);
    // a change of a slot that waits already is merged, full or not
    assert!(queue.has_room_for(a.slot()));
    a.set_visible(&mut queue, false);
    assert_eq!(queue.len(), 2);
    // once taken, the queue has its capacity again
    let taken = queue.try_take().unwrap();
    assert_eq!(taken.len(), 2);
    assert_eq!(taken[0].visible, Some(false));
    assert_eq!(taken[0].opacity, Some(1));
    assert_eq!(queue.len(), 0);
    assert!(queue.has_room_for(2));
    let mut third: SurfaceUpdate<Solid<Rgb>, Virtual> = SurfaceUpdate::new(2);
    third.opacity = Some(3);
    assert!(queue.push(third).is_ok());
    a.set_opacity(&mut queue, 3);
    assert!(!queue.has_room_for(b.slot()));
    assert!(queue.push(SurfaceUpdate::new(b.slot())).is_err());
}

#[test]
fn an_empty_queue_has_nothing_to_take() {
    let mut queue: UpdateQueue<Solid<Rgb>, Virtual> = UpdateQueue::new(1);
    assert!(queue.try_take().is_none());
    assert_eq!(queue.len(), 0);
}

#[test]
fn a_change_of_an_unknown_slot_is_dropped() {
    let mut pool = Pool::default();
    let mut surface = pool.new_surface(whole()).unwrap();
    let mut stray: SurfaceUpdate<Solid<Rgb>, Virtual> = SurfaceUpdate::new(9);
    stray.opacity = Some(1);
    pool.updates.push(stray).unwrap();
    surface.set_opacity(&mut pool.updates, 7);
    pool.commit();
    assert_eq!(pool.pool.bindings.len(), 1);
    assert_eq!(layer(&pool, 0).opacity, 7);
}

#[test]
fn shaders_are_set_and_cleared() {
    let mut pool = Pool::default();
    let mut surface = pool.new_surface(whole()).unwrap();
    surface.set_shader(&mut pool.updates, Solid::new(Rgb::new(1, 2, 3)));
    surface.set_offset(&mut pool.updates, Coordinates::new(4, 5));
    pool.commit();
    assert_eq!(layer(&pool, 0).shader.unwrap().color, Rgb::new(1, 2, 3));
    assert_eq!(layer(&pool, 0).offset, Coordinates::new(4, 5));
    surface.clear_shader(&mut pool.updates);
    pool.commit();
    assert!(layer(&pool, 0).shader.is_none());
    assert_eq!(layer(&pool, 0).offset, Coordinates::new(4, 5));
}

#[test]
fn one_white_surface_renders_white() {
    let mut pool = Pool::default();
    let mut surface = pool.new_surface(whole()).unwrap();
    surface.set_shader(&mut pool.updates, Solid::new(Rgb::new(255, 255, 255)));
    let mut pixbuf = [Rgb::new(0, 0, 0); 1];
    {
        let mut sampler = LinearSampler::new(&mut pixbuf);
        pool.render_to(&mut sampler, &());
    }
    assert_eq!(pixbuf, [Rgb::new(255, 255, 255)]);
}

#[test]
fn higher_slots_are_drawn_over_lower_ones() {
    let mut pool = Pool::default();
    let mut below = pool.new_surface(whole()).unwrap();
    let mut above = pool.new_surface(Rectangle::new_from_coordinates(128, 0, 255, 0)).unwrap();
    below.set_shader(&mut pool.updates, Solid::new(Rgb::new(10, 200, 0)));
    above.set_shader(&mut pool.updates, Solid::new(Rgb::new(200, 10, 255)));
    above.set_opacity(&mut pool.updates, 128);
    let mut pixbuf = [Rgb::new(9, 9, 9); 5];
    {
        let mut sampler = LinearSampler::new(&mut pixbuf);
        pool.render_to(&mut sampler, &());
    }
    assert_eq!(
        pixbuf,
        [
            Rgb::new(10, 200, 0),
            Rgb::new(10, 200, 0),
            Rgb::new(105, 105, 128),
            Rgb::new(105, 105, 128),
            Rgb::new(105, 105, 128),
        ]
    );
}

#[test]
fn hidden_and_transparent_and_empty_surfaces_are_skipped() {
    let mut pool = Pool::default();
    let mut hidden = pool.new_surface(whole()).unwrap();
    let mut clear = pool.new_surface(whole()).unwrap();
    let _empty = pool.new_surface(whole()).unwrap();
    hidden.set_shader(&mut pool.updates, Solid::new(Rgb::new(1, 1, 1)));
    hidden.set_visible(&mut pool.updates, false);
    clear.set_shader(&mut pool.updates, Solid::new(Rgb::new(2, 2, 2)));
    clear.set_opacity(&mut pool.updates, 0);
    let mut pixbuf = [Rgb::new(9, 9, 9); 3];
    {
        let mut sampler = LinearSampler::new(&mut pixbuf);
        pool.render_to(&mut sampler, &());
    }
    assert_eq!(pixbuf, [Rgb::new(9, 9, 9); 3]);
    // hiding leaves the opacity as it was
    assert_eq!(layer(&pool, 0).opacity, 255);
    hidden.set_visible(&mut pool.updates, true);
    {
        let mut sampler = LinearSampler::new(&mut pixbuf);
        pool.render_to(&mut sampler, &());
    }
    assert_eq!(pixbuf, [Rgb::new(1, 1, 1); 3]);
}

#[test]
fn the_offset_moves_the_coordinates_of_the_shader() {
    let mut pool: BufferedSurfacePool<Ramp, Virtual> = BufferedSurfacePool::new(4);
    let mut surface = pool.new_surface(whole()).unwrap();
    surface.set_shader(&mut pool.updates, Ramp);
    surface.set_offset(&mut pool.updates, Coordinates::new(100, 7));
    let mut pixbuf = [Rgb::new(0, 0, 0); 3];
    {
        let mut sampler = LinearSampler::new(&mut pixbuf);
        pool.render_to(&mut sampler, &42);
    }
    assert_eq!(pixbuf, [Rgb::new(100, 7, 42), Rgb::new(227, 7, 42), Rgb::new(255, 7, 42)]);
}

#[test]
fn overlays_with_alpha_are_composited_by_their_alpha() {
    let mut pool: BufferedSurfacePool<Solid<Rgba>, Virtual> = BufferedSurfacePool::default();
    let mut surface = pool.new_surface(whole()).unwrap();
    surface.set_shader(&mut pool.updates, Solid::new(Rgba::new(200, 10, 255, 128)));
    let mut pixbuf = [Rgb::new(10, 200, 0); 2];
    {
        let mut sampler = LinearSampler::new(&mut pixbuf);
        pool.render_to(&mut sampler, &());
    }
    assert_eq!(pixbuf, [Rgb::new(105, 105, 128); 2]);
}

#[test]
fn the_builder_adds_a_layer_and_stages_its_properties() {
    let mut pool = Pool::new(2);
    let surface = SurfaceBuilder::build()
        .shader(Solid::new(Rgb::new(5, 6, 7)))
        .opacity(99)
        .visible(false)
        .rect(Rectangle::new_from_coordinates(1, 2, 3, 4))
        .finish(&mut pool)
        .unwrap();
    assert_eq!(surface.slot(), 0);
    assert_eq!(layer(&pool, 0).rect, Rectangle::new_from_coordinates(1, 2, 3, 4));
    assert_eq!(layer(&pool, 0).opacity, 255);
    assert!(layer(&pool, 0).shader.is_none());
    assert_eq!(pool.updates.len(), 1);
    pool.commit();
    assert_eq!(layer(&pool, 0).opacity, 99);
    assert!(!layer(&pool, 0).visible);
    assert_eq!(layer(&pool, 0).shader.unwrap().color, Rgb::new(5, 6, 7));
}

#[test]
fn the_builder_covers_everything_by_default_and_stages_nothing() {
    let mut pool = Pool::new(1);
    let surface = SurfaceBuilder::build().finish(&mut pool).unwrap();
    assert_eq!(surface.slot(), 0);
    assert_eq!(layer(&pool, 0).rect, whole());
    assert_eq!(pool.updates.len(), 0);
}

#[test]
fn the_builder_needs_room_only_for_what_it_stages() {
    let mut pool = Pool::new(1);
    let first = SurfaceBuilder::build().opacity(1).finish(&mut pool);
    assert!(first.is_ok());
    assert_eq!(pool.updates.len(), 1);
    // the queue is full: a layer of which something is asked cannot be built now
    assert!(!pool.updates.has_room_for(pool.pool.bindings.len()));
    // a layer of which nothing is asked needs no room
    let second = SurfaceBuilder::build().finish(&mut pool);
    assert_eq!(second.unwrap().slot(), 1);
    assert_eq!(pool.updates.len(), 1);
    pool.commit();
    assert!(pool.updates.has_room_for(pool.pool.bindings.len()));
    let third = SurfaceBuilder::build().visible(false).finish(&mut pool);
    assert_eq!(third.unwrap().slot(), 2);
    pool.commit();
    assert!(!layer(&pool, 2).visible);
    assert_eq!(layer(&pool, 2).opacity, 255);
    assert!(layer(&pool, 2).shader.is_none());
}

#[test]
fn waves_scroll_with_the_frame() {
    let shader = RgbWaves::default();
    let at = |x: usize, y: usize, frame: usize| -> Rgb {
        Shader::<FrameNumber, LinearSpace, Rgb>::draw(&shader, &Coordinates::new(x, y), &FrameNumber(frame))
    };
    // column 0, frame 0: sine of 0, cosine of 0, sine of 0
    assert_eq!(at(0, 0, 0), Rgb::new(128, 255, 128));
    // the row shifts every level
    assert_eq!(at(0, 3, 0), Rgb::new(131, 2, 131));
    // column 1: sine of 3, cosine of 5, sine of 2
    assert_eq!(at(1, 0, 0), Rgb::new(137, 251, 134));
    assert_eq!(at(2, 0, 45), Rgb::new(248, 221, 246));
    assert_eq!(at(7, 300, 1000), Rgb::new(251, 254, 40));
}

#[test]
fn an_engine_is_used_through_its_traits() {
    fn build_and_render<SS: Surfaces<Solid<Rgb>, Virtual>>(surfaces: &mut SS) -> [Rgb; 2] {
        let surface = SurfaceBuilder::build()
            .shader(Solid::new(Rgb::new(3, 2, 1)))
            .finish(surfaces)
            .ok()
            .unwrap();
        assert_eq!(surface.slot(), 0);
        let mut change: SurfaceUpdate<Solid<Rgb>, Virtual> = SurfaceUpdate::new(surface.slot());
        change.opacity = Some(255);
        assert!(surfaces.stage(change).is_ok());
        let mut pixbuf = [Rgb::new(0, 0, 0); 2];
        {
            let mut sampler = LinearSampler::new(&mut pixbuf);
            surfaces.render_to(&mut sampler, &());
        }
        pixbuf
    }
    let mut pool = Pool::new(1);
    assert_eq!(build_and_render(&mut pool), [Rgb::new(3, 2, 1); 2]);
    // a second slot finds a queue of one place free again after the commit
    let mut second = Surfaces::new_surface(&mut pool, whole()).unwrap();
    second.set_opacity(&mut pool.updates, 9);
    let mut refused: SurfaceUpdate<Solid<Rgb>, Virtual> = SurfaceUpdate::new(0);
    refused.visible = Some(false);
    assert_eq!(pool.stage(refused).err().unwrap().slot, 0);
}
