use figments::gamma::{frame_with_gamma, GammaCurve, WithGamma};
use figments::geometry::{Rectangle, Virtual};
use figments::mappings::linear::LinearSampler;
use figments::output::{Brightness, GammaCorrected, NullControls};
use figments::pixels::{Bgr, Grb, Rgb};
use figments::power::{brightness_for_mw, frame_as_milliwatts, AsMilliwatts};
use figments::shaders::Solid;
use figments::smart_leds::PowerControls;
use figments::surface::{BufferedSurfacePool, Surface};

fn halving() -> GammaCurve {
    let mut table = [0u8; 256];
    for (level, entry) in table.iter_mut().enumerate() {
        *entry = (level / 2) as u8;
    }
    GammaCurve::from_table(table)
}

#[test]
fn the_draw_of_a_pixel() {
    assert_eq!(Rgb::new(255, 255, 255).as_milliwatts(), 212);
    assert_eq!(Rgb::new(0, 0, 0).as_milliwatts(), 5);
    assert_eq!(Rgb::new(128, 64, 32).as_milliwatts(), 67);
    assert_eq!(Grb::new(64, 128, 32).as_milliwatts(), 67);
    assert_eq!(Bgr::new(32, 64, 128).as_milliwatts(), 67);
}

#[test]
fn the_draw_of_a_frame_is_the_sum() {
    let frame = [Rgb::new(255, 255, 255), Rgb::new(0, 0, 0), Rgb::new(128, 64, 32)];
    assert_eq!(frame.as_milliwatts(), 284);
    assert_eq!(frame.to_vec().as_milliwatts(), 284);
    assert_eq!(frame_as_milliwatts(&frame[..2]), 217);
    assert_eq!(frame_as_milliwatts::<Rgb>(&[]), 0);
}

#[test]
fn a_frame_under_the_ceiling_keeps_the_target() {
    assert_eq!(brightness_for_mw(400, 255, 500), 255);
    assert_eq!(brightness_for_mw(500, 255, 500), 255);
    assert_eq!(brightness_for_mw(1000, 127, 500), 127);
    assert_eq!(brightness_for_mw(0, 200, 0), 200);
    assert_eq!(brightness_for_mw(u32::MAX, 0, 0), 0);
}

#[test]
fn a_frame_over_the_ceiling_is_dimmed_to_the_ceiling() {
    assert_eq!(brightness_for_mw(1000, 255, 500), 127);
    assert_eq!(brightness_for_mw(1000, 128, 500), 127);
    assert_eq!(brightness_for_mw(54272, 255, 2000), 9);
    assert_eq!(brightness_for_mw(54272, 200, 2000), 9);
    assert_eq!(brightness_for_mw(u32::MAX, 255, 1), 0);
    for (total, target, ceiling) in
        [(1000u64, 255u64, 500u64), (54272, 200, 2000), (u32::MAX as u64, 255, 12345), (700, 3, 1)]
    {
        let effective = brightness_for_mw(total as u32, target as u8, ceiling as u32) as u64;
        let requested = total * target / 255;
        assert!(requested > ceiling);
        assert!(effective < target);
        assert!(requested * effective <= target * ceiling);
        assert!(requested * effective / target <= ceiling);
    }
}

#[test]
fn the_default_curve_corrects_nothing() {
    let curve = GammaCurve::default();
    for level in 0..=255u8 {
        assert_eq!(curve.corrected(level), level);
        assert_eq!(curve.index(level as usize), level);
    }
    assert!(curve.is_monotonic());
    assert_eq!(Rgb::new(1, 2, 3).with_gamma(&curve), Rgb::new(1, 2, 3));
}

#[test]
fn a_curve_corrects_every_channel() {
    let curve = halving();
    assert!(curve.is_monotonic());
    assert_eq!(Rgb::new(200, 100, 51).with_gamma(&curve), Rgb::new(100, 50, 25));
    assert_eq!(Grb::new(200, 100, 51).with_gamma(&curve), Grb::new(100, 50, 25));
    assert_eq!(Bgr::new(200, 100, 51).with_gamma(&curve), Bgr::new(100, 50, 25));
    assert_eq!(
        frame_with_gamma(&[Rgb::new(2, 4, 6), Rgb::new(255, 0, 1)], &curve),
        vec![Rgb::new(1, 2, 3), Rgb::new(127, 0, 0)]
    );
    let mut table = [0u8; 256];
    table[3] = 9;
    assert!(!GammaCurve::from_table(table).is_monotonic());
}

#[test]
fn new_controls_are_on_at_full_brightness() {
    let controls = PowerControls::new(2000);
    assert_eq!(controls.max_mw(), 2000);
    assert_eq!(controls.brightness(), 255);
    assert!(controls.is_on());
    assert_eq!(controls.last_mw(), 0);
}

#[test]
fn a_frame_within_the_budget_passes_unchanged() {
    let mut controls = PowerControls::new(2000);
    let frame = [Rgb::new(255, 255, 255), Rgb::new(1, 2, 3)];
    assert_eq!(controls.prepare(&frame), frame.to_vec());
    assert_eq!(controls.last_mw(), 217);
}

#[test]
fn a_frame_over_the_budget_is_dimmed() {
    let mut controls = PowerControls::new(500);
    let frame = [Rgb::new(255, 255, 255); 10];
    // 2120 mW at full brightness: 255 * 500 / 2120 = 60
    let shown = controls.prepare(&frame);
    assert_eq!(controls.last_mw(), 2120);
    assert_eq!(shown, vec![Rgb::new(60, 60, 60); 10]);
    // the estimate, scaled by the brightness, is within the ceiling
    assert!(2120 * 60 / 255 <= 500);
}

#[test]
fn the_target_brightness_dims_every_frame() {
    let mut controls = PowerControls::new(100_000);
    controls.set_brightness(128);
    assert_eq!(controls.brightness(), 128);
    let shown = controls.prepare(&[Rgb::new(200, 100, 2)]);
    assert_eq!(shown, vec![Rgb::new(100, 50, 1)]);
}

#[test]
fn gamma_is_corrected_before_the_draw_is_estimated() {
    let mut controls = PowerControls::new(100_000);
    controls.set_gamma(halving());
    let shown = controls.prepare(&[Grb::new(255, 255, 255)]);
    assert_eq!(shown, vec![Grb::new(127, 127, 127)]);
    // 127 * 80 / 256 + 127 * 55 / 256 + 127 * 75 / 256 + 5
    assert_eq!(controls.last_mw(), 39 + 27 + 37 + 5);
}

#[test]
fn an_output_that_is_off_shows_black() {
    let mut controls = PowerControls::new(100_000);
    assert_eq!(controls.prepare(&[Rgb::new(9, 9, 9)]), vec![Rgb::new(9, 9, 9)]);
    let estimate = controls.last_mw();
    controls.set_on(false);
    assert!(!controls.is_on());
    assert_eq!(controls.prepare(&[Rgb::new(255, 255, 255); 3]), vec![Rgb::new(0, 0, 0); 3]);
    assert_eq!(controls.last_mw(), estimate);
    controls.set_on(true);
    assert_eq!(controls.prepare(&[Rgb::new(255, 255, 255)]), vec![Rgb::new(255, 255, 255)]);
}

#[test]
fn controls_of_nothing_drop_what_is_set() {
    let mut controls = NullControls::default();
    controls.set_brightness(3);
    controls.set_on(false);
    controls.set_gamma(GammaCurve::default());
}

#[test]
fn one_white_pixel_from_surface_to_output() {
    let mut surfaces: BufferedSurfacePool<Solid<Rgb>, Virtual> = BufferedSurfacePool::default();
    let mut surface = surfaces.new_surface(Rectangle::everything()).unwrap();
    surface.set_shader(&mut surfaces.updates, Solid::new(Rgb::new(255, 255, 255)));
    let mut pixbuf = [Rgb::new(0, 0, 0); 1];
    {
        let mut sampler = LinearSampler::new(&mut pixbuf);
        surfaces.render_to(&mut sampler, &());
    }
    // compositing alone gives white
    assert_eq!(pixbuf, [Rgb::new(255, 255, 255)]);
    // within the budget the output stage leaves it white
    let mut controls = PowerControls::new(1000);
    assert_eq!(controls.prepare(&pixbuf), vec![Rgb::new(255, 255, 255)]);
    // only gamma and the power stage change what is shown
    let mut tight = PowerControls::new(106);
    assert_eq!(tight.prepare(&pixbuf), vec![Rgb::new(127, 127, 127)]);
    let mut curved = PowerControls::new(1000);
    curved.set_gamma(halving());
    assert_eq!(curved.prepare(&pixbuf), vec![Rgb::new(127, 127, 127)]);
}
