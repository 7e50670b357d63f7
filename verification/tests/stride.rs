use figments::geometry::{Coordinates, Rectangle, Virtual};
use figments::mappings::linear::LinearSampleView;
use figments::mappings::stride::{Stride, StrideSampler, StrideView};

type StrideMapping = figments::mappings::stride::StrideMapping<64>;
use figments::pixels::Rgb;
use figments::render::{CoordinateView, Sample, Shader};

struct Ramp;

impl Shader<(), Virtual, Rgb> for Ramp {
    fn color_at(&self, coords: Coordinates<Virtual>, _uniforms: ()) -> Rgb {
        Rgb::new(coords.x, coords.y, 0)
    }

    fn draw(&self, surface_coords: &Coordinates<Virtual>, _uniforms: &()) -> Rgb {
        Rgb::new(surface_coords.x, surface_coords.y, 0)
    }
}

#[test]
fn test_full_range_sample() {
    // The buffer starts with increasingly red pixels
    const PIXEL_COUNT: usize = 256;
    let mut pixbuf: [Rgb; PIXEL_COUNT] = [Rgb::new(0, 0, 0); PIXEL_COUNT];
    for n in 0..PIXEL_COUNT {
        pixbuf[n] = Rgb::new(n as u8, 0, 0);
    }
    let map = StrideMapping::default();
    let mut sampler = StrideSampler::new(&mut pixbuf, &map);
    let mut num_sampled = 0;

    // Sample all pixels. Since the default stride mapping is a 255px long strip, this should always have x = 0, and y = physical index
    let mut view = sampler.sample(&Rectangle::everything());
    while let Some((coords, idx)) = view.next() {
        assert_eq!(idx, num_sampled);
        assert_eq!(coords.x, 0);
        let pix = sampler.pixel(idx);
        sampler.set_pixel(idx, Rgb::new(pix.r, coords.x as u8, coords.y as u8));
        num_sampled += 1;
    }

    // The strip has 255 pixels: the last pixel of the buffer lies beyond it
    assert_eq!(num_sampled, 255, "Expected to sample 255 pixels, but got {num_sampled} {pixbuf:?}");

    // Read back the pixels to make sure the red and green were unchanged, and blue is the position along the strip
    for (idx, pix) in pixbuf[..].into_iter().enumerate() {
        let expected = if idx < 255 { Rgb::new(idx as u8, 0, (255 * idx / 254) as u8) } else { Rgb::new(255, 0, 0) };
        assert_eq!(pix, &expected, "Pixel {idx} of {PIXEL_COUNT} has incorrect color {pix:?} while sampling everything: {pixbuf:?}");
    }
}

#[test]
fn outside_shader_can_be_drawn() {
    let shader = Ramp;
    assert_eq!(shader.draw(&Coordinates::new(3, 4), &()), Rgb::new(3, 4, 0));
}

fn cells_of(map: &StrideMapping, rect: &Rectangle<Virtual>) -> Vec<(u8, u8, usize)> {
    let mut view = StrideView::new(map, rect);
    let mut cells = Vec::new();
    while let Some((coords, index)) = view.next() {
        cells.push((coords.x, coords.y, index));
    }
    assert!(view.next().is_none());
    cells
}

#[test]
fn strips_lie_end_to_end() {
    let map = StrideMapping::from_json(&[(0, 6, 6, false), (1, 6, 6, true), (2, 4, 9, false)]);
    assert_eq!(map.pixel_count, 21);
    assert_eq!(map.strides.len(), 3);
    assert_eq!(
        map.strides[1],
        Stride { length: 6, x: 1, y: 6, reverse: true, physical_idx: 6 }
    );
    assert_eq!(map.strides[2].physical_idx, 12);
    assert_eq!(map.size, Rectangle::new_from_coordinates(0, 4, 2, 12));
}

#[test]
fn the_size_bounds_every_strip() {
    let map = StrideMapping::from_json(&[(5, 9, 1, false), (3, 2, 4, true), (7, 0, 2, false)]);
    assert_eq!(map.size, Rectangle::new_from_coordinates(3, 0, 7, 9));
    assert_eq!(map.pixel_count, 7);
}

#[test]
fn what_a_mapping_can_be_made_of() {
    assert!(StrideMapping::accepts(&[(0, 0, 1, false)]));
    assert!(StrideMapping::accepts(&[(0, 0, 255, false), (1, 3, 2, true)]));
    assert!(!StrideMapping::accepts(&[]));
    assert!(!StrideMapping::accepts(&[(0, 0, 0, false)]));
    assert!(!StrideMapping::accepts(&[(0, 0, 3, false), (1, 0, 0, false)]));
    assert!(!StrideMapping::accepts(&[(0, usize::MAX, 1, false)]));
    assert!(StrideMapping::accepts(&[(0, usize::MAX - 1, 1, false)]));
    assert!(!StrideMapping::accepts(&[(0, 0, usize::MAX, false), (1, 0, 1, false)]));
    assert!(StrideMapping::accepts(&[(0, 0, usize::MAX - 1, false), (1, 0, 1, false)]));
}

#[test]
fn pixels_of_a_strip_run_down_or_up() {
    let down = Stride { length: 5, x: 0, y: 3, reverse: false, physical_idx: 10 };
    assert_eq!(down.pixel_idx_for_offset(0), 10);
    assert_eq!(down.pixel_idx_for_offset(4), 14);
    let up = Stride { length: 5, x: 0, y: 3, reverse: true, physical_idx: 10 };
    assert_eq!(up.pixel_idx_for_offset(0), 14);
    assert_eq!(up.pixel_idx_for_offset(4), 10);
}

#[test]
fn the_default_mapping_is_one_strip_of_255() {
    let map = StrideMapping::default();
    assert_eq!(map.pixel_count, 255);
    assert_eq!(map.size, Rectangle::new_from_coordinates(0, 0, 0, 254));
    assert_eq!(map.strides, vec![Stride { length: 255, x: 0, y: 0, reverse: false, physical_idx: 0 }]);
    assert!(map.is_wf());
    let made = StrideMapping::new();
    assert_eq!(made.strides, map.strides);
    assert_eq!(made.pixel_count, 255);
    assert_eq!(made.size, map.size);
    assert_eq!(cells_of(&map, &Rectangle::everything()).len(), 255);
}

#[test]
fn a_mapping_has_room_for_so_many_strips() {
    type Small = figments::mappings::stride::StrideMapping<2>;
    assert!(Small::accepts(&[(0, 0, 1, false), (1, 0, 1, false)]));
    assert!(!Small::accepts(&[(0, 0, 1, false), (1, 0, 1, false), (2, 0, 1, false)]));
    let map = Small::from_json(&[(0, 0, 1, false), (1, 0, 1, false)]);
    assert!(map.is_wf());
    type Nothing = figments::mappings::stride::StrideMapping<0>;
    assert!(!Nothing::accepts(&[(0, 0, 1, false)]));
    assert!(!Nothing::default().is_wf());
}

#[test]
fn a_mapping_that_was_tampered_with_is_not_consistent() {
    let good = StrideMapping::from_json(&[(0, 6, 6, false), (1, 6, 6, true), (2, 4, 9, false)]);
    assert!(good.is_wf());
    let mut count = StrideMapping::from_json(&[(0, 0, 2, false), (1, 0, 2, false)]);
    count.pixel_count = 5;
    assert!(!count.is_wf());
    let mut start = StrideMapping::from_json(&[(0, 0, 2, false), (1, 0, 2, false)]);
    start.strides[1].physical_idx = 1;
    assert!(!start.is_wf());
    let mut size = StrideMapping::from_json(&[(0, 0, 2, false), (1, 0, 2, false)]);
    size.size = Rectangle::new_from_coordinates(0, 0, 1, 2);
    assert!(!size.is_wf());
    let mut empty = StrideMapping::from_json(&[(0, 0, 2, false)]);
    empty.strides[0].length = 0;
    assert!(!empty.is_wf());
    let mut none = StrideMapping::from_json(&[(0, 0, 2, false)]);
    none.strides.clear();
    assert!(!none.is_wf());
}

#[test]
fn a_panel_of_strips_that_turn_at_the_ends() {
    // three columns of three pixels, the middle one wired bottom up
    let map = StrideMapping::from_json(&[(0, 0, 3, false), (1, 0, 3, true), (2, 0, 3, false)]);
    let cells = cells_of(&map, &Rectangle::everything());
    assert_eq!(
        cells,
        vec![
            (0, 0, 0),
            (0, 127, 1),
            (0, 255, 2),
            (127, 0, 5),
            (127, 127, 4),
            (127, 255, 3),
            (255, 0, 6),
            (255, 127, 7),
            (255, 255, 8),
        ]
    );
}

#[test]
fn strips_of_different_lengths_are_clipped_to_the_window() {
    let map = StrideMapping::from_json(&[(0, 2, 2, false), (1, 0, 5, false), (2, 4, 1, true)]);
    // the display is 3 columns by 5 rows; the strips cover rows 2..3, 0..4 and 4
    assert_eq!(map.size, Rectangle::new_from_coordinates(0, 0, 2, 4));
    let all = cells_of(&map, &Rectangle::everything());
    let indices: Vec<usize> = all.iter().map(|c| c.2).collect();
    assert_eq!(indices, vec![0, 1, 2, 3, 4, 5, 6, 7]);
    assert_eq!(all[0], (0, 127, 0));
    assert_eq!(all[1], (0, 191, 1));
    assert_eq!(all[7], (255, 255, 7));
    // rows 1 to 3 of all columns: the window is scaled from the virtual rectangle
    let window = Rectangle::new_from_coordinates(0, 64, 255, 192);
    let part = cells_of(&map, &window);
    assert_eq!(
        part,
        vec![(0, 127, 0), (0, 255, 1), (127, 0, 3), (127, 127, 4), (127, 255, 5)]
    );
    // a window of one row
    let row = Rectangle::new_from_coordinates(0, 255, 255, 255);
    assert_eq!(cells_of(&map, &row), vec![(127, 0, 6), (255, 0, 7)]);
}

#[test]
fn columns_without_a_strip_are_skipped() {
    let map = StrideMapping::from_json(&[(0, 0, 2, false), (3, 0, 2, false)]);
    let cells = cells_of(&map, &Rectangle::everything());
    assert_eq!(cells, vec![(0, 0, 0), (0, 255, 1), (255, 0, 2), (255, 255, 3)]);
}

#[test]
fn the_window_of_a_view() {
    let map = StrideMapping::from_json(&[(2, 10, 11, false), (4, 10, 11, false)]);
    let view = StrideView::new(&map, &Rectangle::new_from_coordinates(0, 0, 255, 128));
    assert_eq!(view.range(), Rectangle::new_from_coordinates(2, 10, 4, 15));
}

#[test]
fn a_crossed_rectangle_selects_nothing() {
    let map = StrideMapping::default();
    assert_eq!(cells_of(&map, &Rectangle::new_from_coordinates(0, 200, 0, 100)), vec![]);
}

#[test]
fn one_strip_behaves_as_the_linear_mapping() {
    for count in [1usize, 2, 7, 100, 256, 300] {
        let map = StrideMapping::from_json(&[(0, 0, count, false)]);
        for (low, high) in [(0u8, 255u8), (10, 20), (128, 128), (0, 0), (255, 255), (3, 250)] {
            let along_rows = Rectangle::new_from_coordinates(0, low, 255, high);
            let along_columns = Rectangle::new_from_coordinates(low, 0, high, 255);
            let strided = cells_of(&map, &along_rows);
            let mut linear = Vec::new();
            let mut view = LinearSampleView::new(count, &along_columns);
            while let Some((coords, index)) = view.next() {
                linear.push((coords.y, coords.x, index));
            }
            assert_eq!(strided, linear, "count {count}, from {low} to {high}");
        }
    }
}

#[test]
fn no_pixel_is_sampled_twice() {
    let map = StrideMapping::from_json(&[
        (0, 6, 6, false),
        (1, 6, 6, true),
        (2, 6, 6, false),
        (3, 4, 9, true),
        (4, 4, 14, false),
        (5, 0, 17, true),
        (6, 2, 12, false),
    ]);
    let cells = cells_of(&map, &Rectangle::everything());
    assert_eq!(cells.len(), map.pixel_count);
    let mut seen = vec![false; map.pixel_count];
    for cell in cells {
        assert!(!seen[cell.2]);
        seen[cell.2] = true;
    }
}

#[test]
fn a_shader_is_painted_through_the_mapping() {
    let map = StrideMapping::from_json(&[(0, 0, 2, false), (1, 0, 2, true)]);
    let mut pixbuf = [Rgb::new(0, 0, 7); 5];
    {
        let mut sampler = StrideSampler::new(&mut pixbuf, &map);
        figments::render::Painter::<(), Rgb>::fill(&mut sampler, &Ramp, &());
    }
    assert_eq!(
        pixbuf,
        [
            Rgb::new(0, 0, 0),
            Rgb::new(0, 255, 0),
            Rgb::new(255, 255, 0),
            Rgb::new(255, 0, 0),
            Rgb::new(0, 0, 7),
        ]
    );
}

#[test]
fn ready_made_displays() {
    let lights = StrideMapping::new_fairylights();
    assert_eq!(lights.pixel_count, 50);
    assert_eq!(lights.size, Rectangle::new_from_coordinates(0, 0, 0, 49));
    let mask = StrideMapping::new_cyberplague();
    assert_eq!(mask.pixel_count, 130);
    assert_eq!(mask.strides.len(), 13);
    assert_eq!(mask.size, Rectangle::new_from_coordinates(0, 0, 12, 17));
    assert_eq!(mask.strides[3], Stride { length: 9, x: 3, y: 4, reverse: true, physical_idx: 18 });
    let jar = StrideMapping::new_jar();
    assert_eq!(jar.pixel_count, 307);
    assert_eq!(jar.size, Rectangle::new_from_coordinates(0, 0, 17, 17));
    let panel = StrideMapping::new_panel();
    assert_eq!(panel.pixel_count, 256);
    assert_eq!(panel.size, Rectangle::new_from_coordinates(0, 0, 15, 15));
    assert!(panel.strides[1].reverse && !panel.strides[2].reverse);
    let albus = StrideMapping::new_albus();
    assert_eq!(albus.pixel_count, 151);
    assert_eq!(albus.size, Rectangle::new_from_coordinates(0, 0, 7, 28));
    for map in [lights, mask, jar, panel, albus] {
        let cells = cells_of(&map, &Rectangle::everything());
        assert_eq!(cells.len(), map.pixel_count);
    }
}
