use figments::geometry::{CoordinateOp, Coordinates, Rectangle, Virtual, VirtualCoordinates};
use figments::mappings::linear::LinearSpace;
use figments::mappings::stride::StrideSpace;

fn virt(left: u8, top: u8, right: u8, bottom: u8) -> Rectangle<Virtual> {
    Rectangle::new_from_coordinates(left, top, right, bottom)
}

#[test]
fn corners_of_the_spaces() {
    assert_eq!(VirtualCoordinates::top_left(), Coordinates::new(0, 0));
    assert_eq!(VirtualCoordinates::top_right(), Coordinates::new(255, 0));
    assert_eq!(VirtualCoordinates::bottom_left(), Coordinates::new(0, 255));
    assert_eq!(VirtualCoordinates::bottom_right(), Coordinates::new(255, 255));
    assert_eq!(Coordinates::<LinearSpace>::bottom_right(), Coordinates::new(usize::MAX, usize::MAX));
    assert_eq!(Coordinates::<StrideSpace>::top_left(), Coordinates::new(0, 0));
}

#[test]
fn everything_spans_the_space() {
    let all = Rectangle::<Virtual>::everything();
    assert_eq!(all, virt(0, 0, 255, 255));
    assert_eq!(all.width(), 255);
    assert_eq!(all.height(), 255);
    let wide = Rectangle::<StrideSpace>::everything();
    assert_eq!(wide.right(), usize::MAX);
    assert_eq!(wide.bottom(), usize::MAX);
    assert_eq!(wide.left(), 0);
    assert_eq!(wide.top(), 0);
}

#[test]
fn sides_of_a_rectangle() {
    let rect = Rectangle::new(Coordinates::<Virtual>::new(3, 5), Coordinates::new(30, 50));
    assert_eq!(rect.left(), 3);
    assert_eq!(rect.top(), 5);
    assert_eq!(rect.right(), 30);
    assert_eq!(rect.bottom(), 50);
    assert_eq!(rect.width(), 27);
    assert_eq!(rect.height(), 45);
    assert_eq!(rect, virt(3, 5, 30, 50));
}

#[test]
fn quarter_turns_of_a_point() {
    let point: VirtualCoordinates = Coordinates::new(10, 20);
    assert_eq!(point.rotated(0), Coordinates::new(10, 20));
    assert_eq!(point.rotated(1), Coordinates::new(235, 10));
    assert_eq!(point.rotated(2), Coordinates::new(245, 235));
    assert_eq!(point.rotated(3), Coordinates::new(20, 245));
    assert_eq!(point.rotated(4), point);
    assert_eq!(point.rotated(7), point.rotated(3));
    assert_eq!(point.rotated(1).rotated(1), point.rotated(2));
    assert_eq!(point.rotated(2).rotated(1), point.rotated(3));
}

#[test]
fn four_quarter_turns_return_the_rectangle() {
    for rect in [virt(0, 0, 255, 255), virt(1, 2, 3, 4), virt(10, 200, 10, 200), virt(0, 7, 99, 8)] {
        let turned = rect.rotated(1).rotated(1).rotated(1).rotated(1);
        assert_eq!(turned, rect);
        assert_eq!(rect.rotated(4), rect);
        assert_eq!(rect.rotated(2).rotated(2), rect);
    }
    let wide: Rectangle<StrideSpace> = Rectangle::new_from_coordinates(1, 2, 30, 40);
    assert_eq!(wide.rotated(1).rotated(1).rotated(1).rotated(1), wide);
}

#[test]
fn a_quarter_turn_of_a_rectangle() {
    assert_eq!(virt(1, 2, 3, 4).rotated(1), virt(251, 1, 253, 3));
    assert_eq!(virt(1, 2, 3, 4).rotated(2), virt(252, 251, 254, 253));
    assert_eq!(virt(1, 2, 3, 4).rotated(3), virt(2, 252, 4, 254));
}

#[test]
fn a_turn_orders_the_corners() {
    let crossed = virt(5, 0, 0, 0);
    assert_eq!(crossed.rotated(0), virt(0, 0, 5, 0));
    assert_eq!(crossed.rotated(4), virt(0, 0, 5, 0));
}

#[test]
fn distances_are_rounded_down_and_held() {
    let origin: VirtualCoordinates = Coordinates::new(0, 0);
    assert_eq!(origin.distance_to(&Coordinates::new(3, 4)), 5);
    assert_eq!(Coordinates::<Virtual>::new(3, 4).distance_to(&origin), 5);
    assert_eq!(origin.distance_to(&Coordinates::new(1, 1)), 1);
    assert_eq!(origin.distance_to(&Coordinates::new(255, 255)), 255);
    assert_eq!(origin.distance_to(&Coordinates::new(0, 255)), 255);
    assert_eq!(u8::distance(10, 10, 10, 10), 0);
    assert_eq!(u16::distance(0, 0, 300, 400), 500);
    assert_eq!(u16::distance(0, 0, 65535, 65535), 65535);
    assert_eq!(usize::distance(0, 0, 3000, 4000), 5000);
    assert_eq!(usize::distance(7000, 1, 1000, 8001), 10000);
    assert_eq!(usize::distance(0, 0, usize::MAX, usize::MAX), usize::MAX);
}

#[test]
fn offsets_stop_at_the_edge() {
    let point: VirtualCoordinates = Coordinates::new(250, 5);
    assert_eq!(point.translated(&Coordinates::new(10, 10)), Coordinates::new(255, 15));
    assert_eq!(point.translated(&Coordinates::new(0, 0)), point);
}

#[test]
fn scalars_of_the_spaces() {
    assert_eq!(u8::min_value(), 0);
    assert_eq!(<u8 as CoordinateOp>::max_value(), 255);
    assert_eq!(200u8.reflected(), 55);
    assert_eq!(CoordinateOp::saturating_add(200u8, 100u8), 255);
    assert_eq!(7u16.lesser(9), 7);
    assert_eq!(7u16.greater(9), 9);
    assert_eq!(9usize.span_from(7), 2);
    assert_eq!(0usize.reflected(), usize::MAX);
}
