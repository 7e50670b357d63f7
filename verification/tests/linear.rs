use figments::geometry::{Coordinates, Rectangle, Virtual};
use figments::liber8tion::interpolate::Fract8;
use figments::mappings::linear::{
    LinearCoordView, LinearPixelMapping, LinearSampleView, LinearSampler, LinearSpace, Select,
};
use figments::mappings::{fraction_of, scale_extent};
use figments::pixels::Rgb;
use figments::render::{composite, CoordinateView, Painter, Sample};
use figments::shaders::Solid;

fn walk(count: usize, rect: &Rectangle<Virtual>) -> Vec<(u8, u8, usize)> {
    let mut view = LinearSampleView::new(count, rect);
    let mut cells = Vec::new();
    while let Some((coords, index)) = view.next() {
        cells.push((coords.x, coords.y, index));
    }
    assert!(view.next().is_none());
    cells
}

#[test]
fn extents_scale_by_fractions_of_255() {
    assert_eq!(scale_extent(255, 255), 255);
    assert_eq!(scale_extent(299, 255), 299);
    assert_eq!(scale_extent(299, 0), 0);
    assert_eq!(scale_extent(299, 128), 150);
    assert_eq!(scale_extent(1000, 1), 3);
    assert_eq!(scale_extent(usize::MAX, 255), usize::MAX);
    assert_eq!(scale_extent(usize::MAX, 254), ((usize::MAX as u128 * 254) / 255) as usize);
    assert_eq!(fraction_of(0, 0), 0);
    assert_eq!(fraction_of(0, 9), 0);
    assert_eq!(fraction_of(9, 9), 255);
    assert_eq!(fraction_of(1, 3), 85);
    assert_eq!(fraction_of(usize::MAX, usize::MAX), 255);
}

#[test]
fn everything_yields_every_pixel_once() {
    for count in [1usize, 2, 3, 10, 255, 256, 257, 300, 1000] {
        let cells = walk(count, &Rectangle::everything());
        assert_eq!(cells.len(), count);
        for (k, cell) in cells.iter().enumerate() {
            assert_eq!(cell.2, k);
            assert_eq!(cell.1, 0);
            let expected = if count > 1 { (255 * k / (count - 1)) as u8 } else { 0 };
            assert_eq!(cell.0, expected);
        }
        assert_eq!(cells[0].0, 0);
        if count > 1 {
            assert_eq!(cells[count - 1].0, 255);
        }
    }
}

#[test]
fn a_strip_without_pixels_yields_nothing() {
    assert_eq!(walk(0, &Rectangle::everything()), vec![]);
}

#[test]
fn a_sub_rectangle_yields_its_scaled_range() {
    // 101 pixels: the sides scale against the last index, 100
    let rect = Rectangle::new_from_coordinates(51, 0, 102, 255);
    let cells = walk(101, &rect);
    let indices: Vec<usize> = cells.iter().map(|c| c.2).collect();
    assert_eq!(indices, (20..=40).collect::<Vec<usize>>());
    assert_eq!(cells[0].0, 0);
    assert_eq!(cells[20].0, 255);
    assert_eq!(cells[10].0, 127);
    assert_eq!(cells[1].0, 12);
}

#[test]
fn a_rectangle_of_no_width_yields_one_pixel() {
    let rect = Rectangle::new_from_coordinates(128, 0, 128, 0);
    assert_eq!(walk(11, &rect), vec![(0, 0, 5)]);
}

#[test]
fn a_crossed_rectangle_yields_nothing() {
    let rect = Rectangle::new_from_coordinates(200, 0, 100, 255);
    assert_eq!(walk(50, &rect), vec![]);
}

#[test]
fn painting_leaves_pixels_outside_untouched() {
    let mut pixbuf = vec![Rgb::new(1, 2, 3); 101];
    {
        let mut sampler = LinearSampler::new(&mut pixbuf);
        let rect = Rectangle::new_from_coordinates(51, 0, 102, 255);
        Painter::<(), Rgb>::draw(&mut sampler, &Solid::new(Rgb::new(9, 9, 9)), &(), &rect);
    }
    for (index, pixel) in pixbuf.iter().enumerate() {
        if (20..=40).contains(&index) {
            assert_eq!(*pixel, Rgb::new(9, 9, 9));
        } else {
            assert_eq!(*pixel, Rgb::new(1, 2, 3));
        }
    }
}

#[test]
fn fill_paints_every_pixel() {
    let mut pixbuf = [Rgb::new(1, 2, 3); 7];
    {
        let mut sampler = LinearSampler::new(&mut pixbuf);
        Painter::<(), Rgb>::fill(&mut sampler, &Solid::new(Rgb::new(4, 5, 6)), &());
        assert_eq!(sampler.pixel(3), Rgb::new(4, 5, 6));
    }
    assert_eq!(pixbuf, [Rgb::new(4, 5, 6); 7]);
}

#[test]
fn compositing_at_an_opacity_blends() {
    let mut pixbuf = [Rgb::new(10, 200, 0); 4];
    {
        let mut sampler = LinearSampler::new(&mut pixbuf);
        composite(
            &mut sampler,
            &Solid::new(Rgb::new(200, 10, 255)),
            &(),
            &Rectangle::everything(),
            Fract8(128),
        );
    }
    assert_eq!(pixbuf, [Rgb::new(105, 105, 128); 4]);
}

#[test]
fn the_plain_mapping_counts_columns() {
    let mapping = LinearPixelMapping::new();
    let mut view: LinearCoordView = mapping.select(&Rectangle::new_from_coordinates(0, 0, 4, 0));
    let mut cells = Vec::new();
    while let Some((coords, index)) = view.next() {
        cells.push((coords, index));
    }
    assert_eq!(
        cells,
        vec![
            (Coordinates::new(0, 0), 0),
            (Coordinates::new(1, 0), 1),
            (Coordinates::new(2, 0), 2),
            (Coordinates::new(3, 0), 3),
        ]
    );
    let mut nothing = mapping.select(&Rectangle::new_from_coordinates(0, 0, 0, 0));
    assert!(nothing.next().is_none());
}

fn strip_walk<const N: usize>(pixbuf: &[Rgb; N], rect: &Rectangle<LinearSpace>) -> Vec<(usize, usize, usize)> {
    let mut view = pixbuf.sample(rect);
    let mut cells = Vec::new();
    while let Some((coords, index)) = view.next() {
        cells.push((coords.x, coords.y, index));
    }
    assert!(view.next().is_none());
    cells
}

#[test]
fn an_array_is_sampled_by_pixel_index() {
    let pixbuf = [Rgb::new(0, 0, 0); 10];
    assert_eq!(
        strip_walk(&pixbuf, &Rectangle::new_from_coordinates(2, 0, 5, 0)),
        vec![(0, 0, 2), (1, 0, 3), (2, 0, 4)]
    );
    assert_eq!(strip_walk(&pixbuf, &Rectangle::everything()).len(), 10);
    assert_eq!(strip_walk(&pixbuf, &Rectangle::everything())[9], (9, 0, 9));
    // the strip ends before the rectangle does
    assert_eq!(
        strip_walk(&pixbuf, &Rectangle::new_from_coordinates(8, 0, 20, 0)),
        vec![(0, 0, 8), (1, 0, 9)]
    );
    // the rectangle starts beyond the strip, has no width, or is crossed
    assert_eq!(strip_walk(&pixbuf, &Rectangle::new_from_coordinates(10, 0, 20, 0)), vec![]);
    assert_eq!(strip_walk(&pixbuf, &Rectangle::new_from_coordinates(30, 0, 40, 0)), vec![]);
    assert_eq!(strip_walk(&pixbuf, &Rectangle::new_from_coordinates(3, 0, 3, 0)), vec![]);
    assert_eq!(strip_walk(&pixbuf, &Rectangle::new_from_coordinates(5, 0, 2, 0)), vec![]);
}

#[test]
fn an_array_is_painted_directly() {
    let mut pixbuf = [Rgb::new(1, 1, 1); 6];
    Painter::<(), Rgb>::draw(
        &mut pixbuf,
        &Solid::new(Rgb::new(7, 8, 9)),
        &(),
        &Rectangle::new_from_coordinates(1, 0, 4, 0),
    );
    assert_eq!(
        pixbuf,
        [
            Rgb::new(1, 1, 1),
            Rgb::new(7, 8, 9),
            Rgb::new(7, 8, 9),
            Rgb::new(7, 8, 9),
            Rgb::new(1, 1, 1),
            Rgb::new(1, 1, 1),
        ]
    );
}
