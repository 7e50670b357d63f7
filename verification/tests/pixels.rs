use figments::liber8tion::interpolate::{Fract8, Fract8Ops};
use figments::pixels::{
    Bgr, Bgra, Grb, HardwarePixel, PixelBlend, PixelFormat, PixelSink, PixelSrc, Rgb, Rgba,
};

#[test]
fn blend_of_pixels_is_exact_at_the_ends() {
    let a = Rgb::new(1, 200, 30);
    let b = Rgb::new(250, 3, 99);
    assert_eq!(a.blend_pixel(b, Fract8(0)), a);
    assert_eq!(a.blend_pixel(b, Fract8(255)), b);
    let c = Rgba::new(1, 2, 3, 4);
    let d = Rgba::new(200, 100, 50, 25);
    assert_eq!(c.blend_pixel(d, Fract8(0)), c);
    assert_eq!(c.blend_pixel(d, Fract8(255)), d);
    let e = Grb::new(9, 8, 7);
    let f = Grb::new(90, 80, 70);
    assert_eq!(e.blend_pixel(f, Fract8(0)), e);
    assert_eq!(e.blend_pixel(f, Fract8(255)), f);
    let g = Bgr::new(9, 8, 7);
    let h = Bgr::new(90, 80, 70);
    assert_eq!(g.blend_pixel(h, Fract8(0)), g);
    assert_eq!(g.blend_pixel(h, Fract8(255)), h);
    let i = Bgra::new(9, 8, 7, 6);
    let j = Bgra::new(90, 80, 70, 60);
    assert_eq!(i.blend_pixel(j, Fract8(0)), i);
    assert_eq!(i.blend_pixel(j, Fract8(255)), j);
}

#[test]
fn blend_of_pixels_goes_channel_by_channel() {
    let a = Rgb::new(10, 200, 0);
    let b = Rgb::new(200, 10, 255);
    assert_eq!(a.blend_pixel(b, Fract8(128)), Rgb::new(105, 105, 128));
    assert_eq!(a.blend8(b, Fract8(128)), Rgb::new(105, 105, 128));
    assert_eq!(Rgb::new(200, 100, 2).scale8(Fract8(128)), Rgb::new(100, 50, 1));
    assert_eq!(Rgb::new(10, 110, 0).lerp8by8(Rgb::new(110, 10, 0), Fract8(128)), Rgb::new(60, 60, 0));
}

#[test]
fn add_without_opacity_leaves_the_pixel() {
    let p = Rgb::new(1, 2, 3);
    assert_eq!(p.add(Rgb::new(200, 200, 200), Fract8(0)), p);
    assert_eq!(p.add(Rgba::new(200, 200, 200, 255), Fract8(0)), p);
    let q = Grb::new(4, 5, 6);
    assert_eq!(q.add(Grb::new(100, 100, 100), Fract8(0)), q);
    assert_eq!(q.add(Rgb::new(100, 100, 100), Fract8(0)), q);
    assert_eq!(true.add(Rgba::new(0, 0, 0, 0), Fract8(0)), true);
}

#[test]
fn add_at_full_opacity_yields_the_overlay() {
    let p = Rgb::new(1, 2, 3);
    let overlay = Rgb::new(200, 100, 50);
    assert_eq!(p.add(overlay, Fract8(255)), overlay);
    assert_eq!(Bgra::new(1, 2, 3, 4).add(Bgra::new(5, 6, 7, 8), Fract8(255)), Bgra::new(5, 6, 7, 8));
    assert_eq!(Grb::new(1, 2, 3).add(Rgb::new(20, 10, 30), Fract8(255)), Grb::new(10, 20, 30));
}

#[test]
fn add_at_full_opacity_respects_the_alpha_of_the_overlay() {
    let p = Rgb::new(10, 20, 30);
    assert_eq!(p.add(Rgba::new(200, 100, 50, 255), Fract8(255)), Rgb::new(200, 100, 50));
    assert_eq!(p.add(Rgba::new(200, 100, 50, 0), Fract8(255)), p);
    assert_eq!(
        p.add(Rgba::new(200, 100, 50, 128), Fract8(255)),
        p.blend8(Rgb::new(200, 100, 50), Fract8(128))
    );
    // the alpha of the overlay scales the opacity that is passed
    assert_eq!(
        p.add(Rgba::new(200, 100, 50, 128), Fract8(128)),
        p.blend8(Rgb::new(200, 100, 50), Fract8(64))
    );
}

#[test]
fn add_between_is_the_blend() {
    let p = Rgb::new(10, 200, 0);
    let overlay = Rgb::new(200, 10, 255);
    assert_eq!(p.add(overlay, Fract8(128)), Rgb::new(105, 105, 128));
    assert_eq!(p.add(overlay, Fract8(128)), p.blend_pixel(overlay, Fract8(128)));
}

#[test]
fn multiply_scales_channel_by_channel() {
    assert_eq!(Rgb::new(200, 100, 50).multiply(Rgb::new(255, 128, 0)), Rgb::new(200, 50, 0));
    assert_eq!(Grb::new(100, 200, 50).multiply(Rgb::new(255, 128, 0)), Grb::new(50, 200, 0));
    assert_eq!(Bgr::new(50, 100, 200).multiply(Rgb::new(128, 128, 128)), Bgr::new(25, 50, 100));
    assert_eq!(
        Rgba::new(200, 100, 50, 255).multiply(Rgba::new(255, 128, 0, 128)),
        Rgba::new(200, 50, 0, 128)
    );
    assert_eq!(Rgb::new(200, 100, 50).multiply(Rgba::new(255, 128, 0, 7)), Rgb::new(200, 50, 0));
}

#[test]
fn one_bit_pixels() {
    assert!(false.blend_pixel(Rgba::new(100, 20, 8, 0), Fract8(128)));
    assert!(!true.blend_pixel(Rgba::new(100, 20, 7, 0), Fract8(128)));
    assert!(true.blend_pixel(Rgba::new(0, 0, 0, 0), Fract8(127)));
    assert!(true.multiply(Rgba::new(128, 128, 128, 128)));
    assert!(!true.multiply(Rgba::new(128, 128, 128, 127)));
}

#[test]
fn blank_pixels_and_conversions() {
    assert_eq!(Rgb::blank(), Rgb::new(0, 0, 0));
    assert_eq!(Rgba::blank(), Rgba::new(0, 0, 0, 0));
    assert_eq!(Grb::from_rgb(Rgb::new(1, 2, 3)), Grb::new(2, 1, 3));
    assert_eq!(Bgr::from_rgb(Rgb::new(1, 2, 3)), Bgr::new(3, 2, 1));
    assert_eq!(Rgba::from_rgb(Rgb::new(1, 2, 3)), Rgba::new(1, 2, 3, 255));
    assert_eq!(Bgra::from_rgb(Rgb::new(1, 2, 3)), Bgra::new(3, 2, 1, 255));
    assert_eq!(Rgb::from_rgb(Rgb::new(1, 2, 3)), Rgb::new(1, 2, 3));
    assert_eq!(Rgba::new(1, 2, 3, 4).rgb(), Rgb::new(1, 2, 3));
    assert_eq!(Bgra::new(3, 2, 1, 4).rgb(), Rgb::new(1, 2, 3));
}

#[test]
fn sources_and_sinks() {
    let mut pixel = Rgb::new(0, 0, 0);
    pixel.set(&Rgb::new(1, 2, 3));
    assert_eq!(pixel, Rgb::new(1, 2, 3));
    pixel.set(&Rgba::new(9, 8, 7, 6));
    assert_eq!(pixel, Rgb::new(9, 8, 7));
    assert_eq!(PixelSrc::<Rgb>::get_pixel(&pixel), Rgb::new(9, 8, 7));
    let mut other = Grb::new(0, 0, 0);
    other.set(&Rgba::new(9, 8, 7, 6));
    assert_eq!(other, Grb::new(8, 9, 7));
}
