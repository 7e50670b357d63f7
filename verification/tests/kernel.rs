use figments::liber8tion::interpolate::{
    avg7, ease_in_out_quad, grad8, lerp7by8, lerp8by8, map8, scale8, Fract8, Fract8Ops,
};
use figments::liber8tion::rhythm::{beat16, beat8, beat88, beatsin8};
use figments::liber8tion::trig::{cos8, sin8, Trig8};
use figments::liber8tion::{qadd8, qsub8, sqrt16, Hsv, IntoRgb8};
use figments::pixels::{Rgb, Rgba};

#[test]
fn scale_rounds_down() {
    assert_eq!(200u8.scale8(Fract8(128)), 100);
    assert_eq!(255u8.scale8(Fract8(254)), 254);
    assert_eq!(1u8.scale8(Fract8(255)), 1);
    assert_eq!(2u8.scale8(Fract8(127)), 0);
    assert_eq!(scale8(191u8, Fract8(85)), 63);
}

#[test]
fn scale_at_the_ends_of_the_fraction() {
    for value in 0..=255u8 {
        assert_eq!(value.scale8(Fract8(0)), 0);
        assert_eq!(value.scale8(Fract8(255)), value);
        assert_eq!(value.scale8(Fract8::max_value()), value);
        assert_eq!(value.scale8(Fract8::min_value()), 0);
    }
}

#[test]
fn blend_is_exact_at_the_ends() {
    for a in [0u8, 1, 17, 127, 128, 254, 255] {
        for b in [0u8, 1, 99, 200, 255] {
            assert_eq!(a.blend8(b, Fract8(0)), a);
            assert_eq!(a.blend8(b, Fract8(255)), b);
        }
    }
}

#[test]
fn blend_between_the_ends() {
    assert_eq!(10u8.blend8(200, Fract8(128)), 105);
    assert_eq!(200u8.blend8(10, Fract8(64)), 152);
    assert_eq!(0u8.blend8(255, Fract8(1)), 1);
    assert_eq!(255u8.blend8(0, Fract8(254)), 1);
    for fraction in 0..=255u8 {
        let out = 40u8.blend8(90, Fract8(fraction));
        assert!(40 <= out && out <= 90);
    }
}

#[test]
fn saturating_add_stops_at_the_top() {
    assert_eq!(Fract8Ops::saturating_add(200u8, 100u8), 255);
    assert_eq!(Fract8Ops::saturating_add(20u8, 100u8), 120);
    assert_eq!(
        Fract8Ops::saturating_add(Rgb::new(250, 1, 128), Rgb::new(10, 2, 128)),
        Rgb::new(255, 3, 255)
    );
}

#[test]
fn lerp_scales_the_distance() {
    assert_eq!(lerp8by8(10u8, 110u8, Fract8(255)), 110);
    assert_eq!(lerp8by8(10u8, 110u8, Fract8(0)), 10);
    assert_eq!(lerp8by8(10u8, 110u8, Fract8(128)), 60);
    assert_eq!(lerp8by8(110u8, 10u8, Fract8(128)), 60);
    assert_eq!(lerp7by8(-100, 100, Fract8(255)), 100);
    assert_eq!(lerp7by8(-100, 100, Fract8(128)), 0);
    assert_eq!(lerp7by8(100, -100, Fract8(128)), 0);
    assert_eq!(lerp7by8(-128, 127, Fract8(255)), 127);
}

#[test]
fn wide_and_boolean_values_follow_their_low_byte_and_one_half() {
    assert_eq!(300usize.scale8(Fract8(255)), 44);
    assert_eq!(1000usize.lerp8by8(1100, Fract8(255)), 1100);
    assert_eq!(Fract8Ops::saturating_add(usize::MAX, 3usize), usize::MAX);
    assert!(true.blend8(true, Fract8(200)));
    assert!(!true.blend8(false, Fract8(200)));
    assert!(true.blend8(false, Fract8(100)));
    assert!(false.lerp8by8(true, Fract8(128)));
    assert!(!false.lerp8by8(true, Fract8(127)));
}

#[test]
fn averages_and_gradients() {
    assert_eq!(avg7(-128, -128), -128);
    assert_eq!(avg7(127, 127), 127);
    assert_eq!(avg7(-3, 4), 1);
    assert_eq!(avg7(5, -6), 0);
    assert_eq!(grad8(0, 10, 20), avg7(10, 20));
    assert_eq!(grad8(4, 10, 20), avg7(20, 10));
    assert_eq!(grad8(1, 10, 20), avg7(-10, 20));
    assert_eq!(grad8(2, 10, 20), avg7(10, -20));
    assert_eq!(grad8(7, 10, 20), avg7(-20, -10));
    assert_eq!(grad8(1, -128, 0), avg7(-128, 0));
}

#[test]
fn map_and_ease() {
    assert_eq!(map8(Fract8(255), Fract8(10), Fract8(20)), Fract8(20));
    assert_eq!(map8(Fract8(0), Fract8(10), Fract8(20)), Fract8(10));
    assert_eq!(map8(Fract8(128), Fract8(100), Fract8(200)), Fract8(150));
    let eased: Vec<u8> =
        [0u8, 64, 127, 128, 200, 255].iter().map(|i| ease_in_out_quad(Fract8(*i)).0).collect();
    assert_eq!(eased, vec![0, 32, 126, 129, 233, 255]);
}

#[test]
fn fractions_from_ratios_and_raw_bytes() {
    assert_eq!(Fract8::from_ratio(48, 128).to_raw(), 96);
    assert_eq!(Fract8::from_ratio(32, 85).to_raw(), 96);
    assert_eq!(Fract8::from_ratio(8, 42).to_raw(), 48);
    assert_eq!(Fract8::from_ratio(1, 1).to_raw(), 0);
    assert_eq!(Fract8::from_raw(7), Fract8(7));
    assert_eq!(Fract8(7).abs_diff(Fract8(10)), Fract8(3));
    assert_eq!(Fract8(10).abs_diff(Fract8(7)), Fract8(3));
    assert_eq!(Fract8(250).wrapping_add(&Fract8(10)), Fract8(4));
    assert_eq!(Fract8(16).wrapping_mul(&Fract8(17)), Fract8(16));
}

#[test]
fn saturating_bytes_and_square_roots() {
    assert_eq!(qadd8(200, 100), 255);
    assert_eq!(qadd8(1, 2), 3);
    assert_eq!(qsub8(1, 2), 0);
    assert_eq!(qsub8(200, 100), 100);
    for x in [0u16, 1, 2, 3, 4, 15, 16, 17, 255, 256, 287, 7904, 7905, 65024, 65025, 65535] {
        let root = sqrt16(x) as u32;
        assert!(root * root <= x as u32 && (x as u32) < (root + 1) * (root + 1), "sqrt16({x}) = {root}");
    }
    assert_eq!(sqrt16(65535), 255);
    assert_eq!(sqrt16(2), 1);
}

#[test]
fn hue_saturation_value_to_red_green_blue() {
    assert_eq!(Hsv::new(0, 255, 255).into_rgb8(), Rgb::new(251, 0, 0));
    assert_eq!(Hsv::new(85, 255, 255).into_rgb8(), Rgb::new(0, 251, 0));
    assert_eq!(Hsv::new(170, 255, 255).into_rgb8(), Rgb::new(0, 0, 251));
    assert_eq!(Hsv::new(32, 128, 200).into_rgb8(), Rgb::new(162, 135, 99));
    assert_eq!(Hsv::new(200, 0, 77).into_rgb8(), Rgb::new(77, 77, 77));
    assert_eq!(Hsv::new(64, 255, 128).into_rgb8(), Rgb::new(32, 94, 0));
    assert_eq!(Hsv::new(0, 255, 255).into_rgba8(), Rgba::new(251, 0, 0, 255));
    assert_eq!(IntoRgb8::into_rgb8(Rgb::new(1, 2, 3)), Rgb::new(1, 2, 3));
    assert_eq!(IntoRgb8::into_rgb8(Hsv::new(85, 255, 255)), Rgb::new(0, 251, 0));
}

#[test]
fn red_green_blue_to_hue_saturation_value() {
    assert_eq!(Hsv::from_rgb(Rgb::new(255, 0, 0)), Hsv::new(0, 255, 255));
    assert_eq!(Hsv::from_rgb(Rgb::new(0, 255, 0)), Hsv::new(96, 255, 255));
    assert_eq!(Hsv::from_rgb(Rgb::new(0, 0, 255)), Hsv::new(160, 255, 255));
    assert_eq!(Hsv::from_rgb(Rgb::new(10, 10, 10)), Hsv::new(0, 0, 50));
    assert_eq!(Hsv::from_rgb(Rgb::new(255, 255, 255)), Hsv::new(0, 0, 255));
    assert_eq!(Hsv::from_rgb(Rgb::new(0, 0, 0)), Hsv::new(0, 0, 0));
    assert_eq!(Hsv::from_rgb(Rgb::new(200, 100, 50)), Hsv::new(86, 142, 198));
    assert_eq!(Hsv::from_rgb(Rgb::new(12, 200, 180)), Hsv::new(153, 200, 255));
    assert_eq!(Hsv::from_rgb(Rgb::new(128, 128, 0)), Hsv::new(63, 255, 255));
    assert_eq!(Hsv::from_rgba(Rgba::new(255, 0, 0, 9)), Hsv::new(0, 255, 255));
}

#[test]
fn conversion_back_loses_information() {
    let hsv = Hsv::new(0, 255, 255);
    let back = Hsv::from_rgb(hsv.into_rgb8());
    assert_eq!(back, Hsv::new(0, 255, 253));
    assert_ne!(back, hsv);
}

#[test]
fn sine_and_cosine_by_table() {
    let angles = [0u8, 1, 16, 32, 63, 64, 65, 100, 128, 129, 191, 192, 255];
    let sines: Vec<u8> = angles.iter().map(|a| sin8(*a)).collect();
    assert_eq!(sines, vec![128, 131, 177, 218, 254, 255, 254, 207, 128, 125, 2, 1, 125]);
    for theta in 0..=255u8 {
        assert_eq!(cos8(theta), sin8(theta.wrapping_add(64)));
        assert_eq!(theta.cos8(), theta.wrapping_add(64).sin8());
    }
    assert_eq!(cos8(0u8), 255);
    assert_eq!(cos8(200u8), 152);
}

#[test]
fn sine_of_wider_angles() {
    assert_eq!(sin8(300usize), 239);
    assert_eq!(sin8(255usize), sin8(0u8));
    assert_eq!(sin8(64i32), 255);
    assert_eq!(sin8(-1i32), sin8(255u8));
    assert_eq!(sin8(-255i32), sin8(0u8));
    assert_eq!(sin8(-256i32), sin8(255u8));
    assert_eq!(cos8(-1i32), cos8(255u8));
    assert_eq!(Fract8(64).sin8(), 255);
    assert_eq!(Fract8(0).cos8(), 255);
}

#[test]
fn beats() {
    assert_eq!(beat88(120 * 256, 1000), 178);
    assert_eq!(beat88(60 * 256, 500), 32812);
    assert_eq!(beat88(30000, 123456), 29652);
    assert_eq!(beat16(60, 500), 32812);
    assert_eq!(beat16(60 * 256, 500), 32812);
    assert_eq!(beat8(60, 500), 128);
    assert_eq!(beatsin8(60, 10, 100, 500, 7), 47);
    for time in [0u32, 1, 77, 5000, 99999, u32::MAX] {
        let level = beatsin8(33, 40, 50, time, 3);
        assert!(40 <= level && level <= 50);
    }
    assert_eq!(beatsin8(33, 40, 40, 1234, 3), 40);
}

#[test]
fn colour_models_convert_through_from_and_into() {
    assert_eq!(Hsv::from(Rgb::new(255, 0, 0)), Hsv::new(0, 255, 255));
    assert_eq!(Hsv::from(Rgba::new(0, 255, 0, 3)), Hsv::new(96, 255, 255));
    let rgb: Rgb = Hsv::new(85, 255, 255).into();
    assert_eq!(rgb, Rgb::new(0, 251, 0));
    let rgba: Rgba = Hsv::new(170, 255, 255).into();
    assert_eq!(rgba, Rgba::new(0, 0, 251, 255));
}
