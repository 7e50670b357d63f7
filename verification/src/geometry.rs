//! Two-dimensional geometry: coordinate spaces, points and rectangles whose
//! sides follow the axes.
use crate::liber8tion::is_sqrt;
use crate::liber8tion::isqrt;
use crate::liber8tion::lemma_isqrt_is;
use crate::liber8tion::lemma_sqrt_exists;
use crate::liber8tion::lemma_sqrt_monotonic;
use vstd::prelude::*;

verus! {

/// The sum of the squares of the distances along the two axes.
pub open spec fn squared_distance(x1: int, y1: int, x2: int, y2: int) -> int {
    (x1 - x2) * (x1 - x2) + (y1 - y2) * (y1 - y2)
}

/// The distance between two points, rounded down and held at `limit`.
pub open spec fn distance_between(x1: int, y1: int, x2: int, y2: int, limit: int) -> int {
    let root = isqrt(squared_distance(x1, y1, x2, y2));
    if root > limit {
        limit
    } else {
        root
    }
}

/// The square root of a number of 128 bits, rounded down.
///
/// This is `num::integer::Roots::sqrt` for `u128`, which returns the
/// truncated principal square root: the `r` with `r * r <= x` and
/// `x < (r + 1) * (r + 1)`. It does not panic on an unsigned number.
#[verifier::external_body]
fn integer_sqrt(x: u128) -> (root: u128)
    ensures
        is_sqrt(x as int, root as int),
{
    num::integer::Roots::sqrt(&x)
}

/// The distance between two points whose coordinates fit in 64 bits,
/// rounded down and held at `limit`.
fn distance_within(x1: u64, y1: u64, x2: u64, y2: u64, limit: u64) -> (distance: u64)
    ensures
        distance as int == distance_between(
            x1 as int,
            y1 as int,
            x2 as int,
            y2 as int,
            limit as int,
        ),
{
    let dx: u128 = if x1 >= x2 { (x1 - x2) as u128 } else { (x2 - x1) as u128 };
    let dy: u128 = if y1 >= y2 { (y1 - y2) as u128 } else { (y2 - y1) as u128 };
    assert(dx * dx == (x1 - x2) * (x1 - x2) && 0 <= dx * dx <= 0xffff_ffff_ffff_ffff
        * 0xffff_ffff_ffff_ffff) by (nonlinear_arith)
        requires
            dx == x1 - x2 || dx == x2 - x1,
            0 <= dx <= 0xffff_ffff_ffff_ffff,
    ;
    assert(dy * dy == (y1 - y2) * (y1 - y2) && 0 <= dy * dy <= 0xffff_ffff_ffff_ffff
        * 0xffff_ffff_ffff_ffff) by (nonlinear_arith)
        requires
            dy == y1 - y2 || dy == y2 - y1,
            0 <= dy <= 0xffff_ffff_ffff_ffff,
    ;
    let sum: u128 = (dx * dx).saturating_add(dy * dy);
    let root: u128 = integer_sqrt(sum);
    proof {
        let exact = squared_distance(x1 as int, y1 as int, x2 as int, y2 as int);
        lemma_sqrt_exists(exact as nat);
        if exact == sum {
            lemma_isqrt_is(exact, root as int);
        } else {
            lemma_sqrt_monotonic(sum as int, exact);
            lemma_isqrt_is(sum as int, root as int);
            assert(is_sqrt(sum as int, 0xffff_ffff_ffff_ffff)) by (nonlinear_arith)
                requires
                    sum == 0xffff_ffff_ffff_ffff_ffff_ffff_ffff_ffff,
            ;
            lemma_isqrt_is(sum as int, 0xffff_ffff_ffff_ffff);
        }
    }
    if root > limit as u128 {
        limit
    } else {
        root as u64
    }
}

/// The numbers that coordinates are made of: unsigned, with a largest
/// value.
pub trait CoordinateOp: Copy + Sized + core::fmt::Debug + Eq + Ord + core::hash::Hash {
    /// The number that the value stands for.
    spec fn value(self) -> int;

    /// The largest number of the type. The smallest is zero.
    spec fn limit() -> int;

    /// The value that stands for a number.
    spec fn from_value(number: int) -> Self;

    /// Every number from zero to the limit has a value.
    proof fn lemma_from_value(number: int)
        requires
            0 <= number <= Self::limit(),
        ensures
            Self::from_value(number).value() == number,
    ;

    /// Every value lies between zero and the limit.
    proof fn lemma_value_in_range(self)
        ensures
            0 <= self.value() <= Self::limit(),
    ;

    /// Values are told apart by their numbers.
    proof fn lemma_value_injective(a: Self, b: Self)
        requires
            a.value() == b.value(),
        ensures
            a == b,
    ;

    /// The smallest value within a coordinate space.
    fn min_value() -> (low: Self)
        ensures
            low.value() == 0,
    ;

    /// The largest value within a coordinate space.
    fn max_value() -> (high: Self)
        ensures
            high.value() == Self::limit(),
    ;

    /// The value mirrored through the largest value.
    fn reflected(self) -> (mirrored: Self)
        ensures
            mirrored.value() == Self::limit() - self.value(),
    ;

    /// The smaller of two values.
    fn lesser(self, other: Self) -> (low: Self)
        ensures
            low == if self.value() <= other.value() { self } else { other },
    ;

    /// The larger of two values.
    fn greater(self, other: Self) -> (high: Self)
        ensures
            high == if self.value() >= other.value() { self } else { other },
    ;

    /// How far `self` lies beyond `start`.
    fn span_from(self, start: Self) -> (span: Self)
        requires
            start.value() <= self.value(),
        ensures
            span.value() == self.value() - start.value(),
    ;

    /// The sum, held at the largest value.
    fn saturating_add(self, other: Self) -> (sum: Self)
        ensures
            sum.value() == if self.value() + other.value() > Self::limit() {
                Self::limit()
            } else {
                self.value() + other.value()
            },
    ;

    /// The distance between two points, rounded down and held at the
    /// largest value.
    fn distance(x1: Self, y1: Self, x2: Self, y2: Self) -> (distance: Self)
        ensures
            distance.value() == distance_between(
                x1.value(),
                y1.value(),
                x2.value(),
                y2.value(),
                Self::limit(),
            ),
    ;
}

impl CoordinateOp for u8 {
    open spec fn value(self) -> int {
        self as int
    }

    open spec fn from_value(number: int) -> Self {
        number as u8
    }

    proof fn lemma_from_value(number: int) {
    }

    open spec fn limit() -> int {
        255
    }

    proof fn lemma_value_in_range(self) {
    }

    proof fn lemma_value_injective(a: Self, b: Self) {
    }

    fn min_value() -> (low: Self) {
        0
    }

    fn max_value() -> (high: Self) {
        255
    }

    fn reflected(self) -> (mirrored: Self) {
        255 - self
    }

    fn lesser(self, other: Self) -> (low: Self) {
        if self <= other {
            self
        } else {
            other
        }
    }

    fn greater(self, other: Self) -> (high: Self) {
        if self >= other {
            self
        } else {
            other
        }
    }

    fn span_from(self, start: Self) -> (span: Self) {
        self - start
    }

    fn saturating_add(self, other: Self) -> (sum: Self) {
        if self > 255 - other {
            255
        } else {
            self + other
        }
    }

    fn distance(x1: Self, y1: Self, x2: Self, y2: Self) -> (distance: Self) {
        distance_within(x1 as u64, y1 as u64, x2 as u64, y2 as u64, 255) as u8
    }
}

impl CoordinateOp for u16 {
    open spec fn value(self) -> int {
        self as int
    }

    open spec fn from_value(number: int) -> Self {
        number as u16
    }

    proof fn lemma_from_value(number: int) {
    }

    open spec fn limit() -> int {
        65535
    }

    proof fn lemma_value_in_range(self) {
    }

    proof fn lemma_value_injective(a: Self, b: Self) {
    }

    fn min_value() -> (low: Self) {
        0
    }

    fn max_value() -> (high: Self) {
        65535
    }

    fn reflected(self) -> (mirrored: Self) {
        65535 - self
    }

    fn lesser(self, other: Self) -> (low: Self) {
        if self <= other {
            self
        } else {
            other
        }
    }

    fn greater(self, other: Self) -> (high: Self) {
        if self >= other {
            self
        } else {
            other
        }
    }

    fn span_from(self, start: Self) -> (span: Self) {
        self - start
    }

    fn saturating_add(self, other: Self) -> (sum: Self) {
        if self > 65535 - other {
            65535
        } else {
            self + other
        }
    }

    fn distance(x1: Self, y1: Self, x2: Self, y2: Self) -> (distance: Self) {
        distance_within(x1 as u64, y1 as u64, x2 as u64, y2 as u64, 65535) as u16
    }
}

impl CoordinateOp for usize {
    open spec fn value(self) -> int {
        self as int
    }

    open spec fn from_value(number: int) -> Self {
        number as usize
    }

    proof fn lemma_from_value(number: int) {
    }

    open spec fn limit() -> int {
        usize::MAX as int
    }

    proof fn lemma_value_in_range(self) {
    }

    proof fn lemma_value_injective(a: Self, b: Self) {
    }

    fn min_value() -> (low: Self) {
        0
    }

    fn max_value() -> (high: Self) {
        usize::MAX
    }

    fn reflected(self) -> (mirrored: Self) {
        usize::MAX - self
    }

    fn lesser(self, other: Self) -> (low: Self) {
        if self <= other {
            self
        } else {
            other
        }
    }

    fn greater(self, other: Self) -> (high: Self) {
        if self >= other {
            self
        } else {
            other
        }
    }

    fn span_from(self, start: Self) -> (span: Self) {
        self - start
    }

    fn saturating_add(self, other: Self) -> (sum: Self) {
        if self > usize::MAX - other {
            usize::MAX
        } else {
            self + other
        }
    }

    fn distance(x1: Self, y1: Self, x2: Self, y2: Self) -> (distance: Self) {
        distance_within(x1 as u64, y1 as u64, x2 as u64, y2 as u64, usize::MAX as u64) as usize
    }
}

/// A two-dimensional domain and the type of its numbers. Spaces do not mix:
/// a point of one space is no point of another.
pub trait CoordinateSpace: Copy + core::fmt::Debug + Eq + Ord + core::hash::Hash {
    /// The numbers of this space.
    type Data: CoordinateOp;
}

/// The space that shaders are written against: 0 to 255 along each axis,
/// whatever the number and the wiring of the pixels.
#[derive(Clone, Copy, Debug, Default, PartialEq, Eq, PartialOrd, Ord, Hash)]
pub struct Virtual {}

impl CoordinateSpace for Virtual {
    type Data = u8;
}

/// A point of the virtual space.
pub type VirtualCoordinates = Coordinates<Virtual>;

/// A point of a coordinate space.
#[derive(Clone, Copy, Debug, PartialEq, Eq, PartialOrd, Ord, Hash)]
pub struct Coordinates<S: CoordinateSpace> {
    /// Position along the horizontal axis.
    pub x: S::Data,
    /// Position along the vertical axis.
    pub y: S::Data,
}

/// A rectangle, by its top left and its bottom right corner.
#[derive(Clone, Copy, Debug, PartialEq, Eq, PartialOrd, Ord, Hash)]
pub struct Rectangle<Space: CoordinateSpace> {
    /// The corner with the smallest coordinates.
    pub top_left: Coordinates<Space>,
    /// The corner with the largest coordinates.
    pub bottom_right: Coordinates<Space>,
}


impl<S: CoordinateSpace> Coordinates<S> {
    /// The point after `rotation` quarter turns around the centre of the
    /// space. One quarter turn takes `(x, y)` to `(limit - y, x)`.
    pub open spec fn rotated_spec(self, rotation: int) -> Self
        recommends
            0 <= rotation,
    {
        let quarter = rotation % 4;
        if quarter == 1 {
            Coordinates { x: reflected_value::<S>(self.y), y: self.x }
        } else if quarter == 2 {
            Coordinates { x: reflected_value::<S>(self.x), y: reflected_value::<S>(self.y) }
        } else if quarter == 3 {
            Coordinates { x: self.y, y: reflected_value::<S>(self.x) }
        } else {
            self
        }
    }

    /// The point with each coordinate moved by that of `offset`, held at
    /// the edge of the space.
    pub open spec fn translated_spec(self, offset: Self) -> Self {
        Coordinates {
            x: saturated_sum::<S>(self.x, offset.x),
            y: saturated_sum::<S>(self.y, offset.y),
        }
    }

    /// The point with the given coordinates.
    pub fn new(x: S::Data, y: S::Data) -> (point: Self)
        ensures
            point == (Coordinates::<S> { x, y }),
    {
        Coordinates { x, y }
    }

    /// The point after `rotation` quarter turns around the centre of the
    /// space.
    pub fn rotated(&self, rotation: u8) -> (point: Self)
        ensures
            point == self.rotated_spec(rotation as int),
    {
        let quarter: u8 = rotation % 4;
        if quarter == 1 {
            let x = self.y.reflected();
            proof {
                lemma_reflected_value::<S>(self.y, x);
            }
            Coordinates { x, y: self.x }
        } else if quarter == 2 {
            let x = self.x.reflected();
            let y = self.y.reflected();
            proof {
                lemma_reflected_value::<S>(self.x, x);
                lemma_reflected_value::<S>(self.y, y);
            }
            Coordinates { x, y }
        } else if quarter == 3 {
            let y = self.x.reflected();
            proof {
                lemma_reflected_value::<S>(self.x, y);
            }
            Coordinates { x: self.y, y }
        } else {
            Coordinates { x: self.x, y: self.y }
        }
    }

    /// The point with each coordinate moved by that of `offset`, held at
    /// the edge of the space.
    pub fn translated(&self, offset: &Self) -> (point: Self)
        ensures
            point == self.translated_spec(*offset),
    {
        let x = self.x.saturating_add(offset.x);
        let y = self.y.saturating_add(offset.y);
        proof {
            lemma_saturated_sum::<S>(self.x, offset.x, x);
            lemma_saturated_sum::<S>(self.y, offset.y, y);
        }
        Coordinates { x, y }
    }

    /// The top left corner of the space.
    pub fn top_left() -> (point: Self)
        ensures
            point.x.value() == 0,
            point.y.value() == 0,
    {
        Coordinates { x: S::Data::min_value(), y: S::Data::min_value() }
    }

    /// The top right corner of the space.
    pub fn top_right() -> (point: Self)
        ensures
            point.x.value() == S::Data::limit(),
            point.y.value() == 0,
    {
        Coordinates { x: S::Data::max_value(), y: S::Data::min_value() }
    }

    /// The bottom left corner of the space.
    pub fn bottom_left() -> (point: Self)
        ensures
            point.x.value() == 0,
            point.y.value() == S::Data::limit(),
    {
        Coordinates { x: S::Data::min_value(), y: S::Data::max_value() }
    }

    /// The bottom right corner of the space.
    pub fn bottom_right() -> (point: Self)
        ensures
            point.x.value() == S::Data::limit(),
            point.y.value() == S::Data::limit(),
    {
        Coordinates { x: S::Data::max_value(), y: S::Data::max_value() }
    }

    /// The distance to another point, rounded down and held at the largest
    /// value of the space.
    pub fn distance_to(&self, other: &Self) -> (distance: S::Data)
        ensures
            distance.value() == distance_between(
                self.x.value(),
                self.y.value(),
                other.x.value(),
                other.y.value(),
                S::Data::limit(),
            ),
    {
        S::Data::distance(self.x, self.y, other.x, other.y)
    }
}

/// The value of a space that mirrors `v` through the largest value.
pub open spec fn reflected_value<S: CoordinateSpace>(v: S::Data) -> S::Data {
    S::Data::from_value(S::Data::limit() - v.value())
}

/// The value of a space that stands for the sum of two values, held at the
/// largest value.
pub open spec fn saturated_sum<S: CoordinateSpace>(a: S::Data, b: S::Data) -> S::Data {
    S::Data::from_value(
        if a.value() + b.value() > S::Data::limit() {
            S::Data::limit()
        } else {
            a.value() + b.value()
        },
    )
}

/// The smaller of two values of a space.
pub open spec fn lesser_value<S: CoordinateSpace>(a: S::Data, b: S::Data) -> S::Data {
    if a.value() <= b.value() {
        a
    } else {
        b
    }
}

/// The larger of two values of a space.
pub open spec fn greater_value<S: CoordinateSpace>(a: S::Data, b: S::Data) -> S::Data {
    if a.value() >= b.value() {
        a
    } else {
        b
    }
}

/// A value whose number is the mirror image of that of `v` is the
/// reflected value of `v`.
pub proof fn lemma_reflected_value<S: CoordinateSpace>(v: S::Data, mirrored: S::Data)
    requires
        mirrored.value() == S::Data::limit() - v.value(),
    ensures
        reflected_value::<S>(v) == mirrored,
        reflected_value::<S>(mirrored) == v,
{
    v.lemma_value_in_range();
    mirrored.lemma_value_in_range();
    S::Data::lemma_from_value(S::Data::limit() - v.value());
    S::Data::lemma_from_value(S::Data::limit() - mirrored.value());
    S::Data::lemma_value_injective(reflected_value::<S>(v), mirrored);
    S::Data::lemma_value_injective(reflected_value::<S>(mirrored), v);
}

/// A value whose number is the saturated sum of two values is their
/// saturated sum.
pub proof fn lemma_saturated_sum<S: CoordinateSpace>(a: S::Data, b: S::Data, sum: S::Data)
    requires
        sum.value() == if a.value() + b.value() > S::Data::limit() {
            S::Data::limit()
        } else {
            a.value() + b.value()
        },
    ensures
        saturated_sum::<S>(a, b) == sum,
{
    sum.lemma_value_in_range();
    S::Data::lemma_from_value(sum.value());
    S::Data::lemma_value_injective(saturated_sum::<S>(a, b), sum);
}

impl<Space: CoordinateSpace> Rectangle<Space> {
    /// The top left corner lies neither right of nor below the bottom
    /// right corner.
    pub open spec fn is_ordered(self) -> bool {
        &&& self.top_left.x.value() <= self.bottom_right.x.value()
        &&& self.top_left.y.value() <= self.bottom_right.y.value()
    }

    /// The smallest rectangle with ordered corners that holds the two
    /// points.
    pub open spec fn spanning(a: Coordinates<Space>, b: Coordinates<Space>) -> Self {
        Rectangle {
            top_left: Coordinates {
                x: lesser_value::<Space>(a.x, b.x),
                y: lesser_value::<Space>(a.y, b.y),
            },
            bottom_right: Coordinates {
                x: greater_value::<Space>(a.x, b.x),
                y: greater_value::<Space>(a.y, b.y),
            },
        }
    }

    /// The rectangle after `rotation` quarter turns around the centre of
    /// the space: the rectangle that spans the two turned corners.
    pub open spec fn rotated_spec(self, rotation: int) -> Self {
        Self::spanning(
            self.top_left.rotated_spec(rotation),
            self.bottom_right.rotated_spec(rotation),
        )
    }

    /// The rectangle that covers the whole space.
    pub open spec fn whole() -> Self {
        Rectangle {
            top_left: Coordinates {
                x: Space::Data::from_value(0),
                y: Space::Data::from_value(0),
            },
            bottom_right: Coordinates {
                x: Space::Data::from_value(Space::Data::limit()),
                y: Space::Data::from_value(Space::Data::limit()),
            },
        }
    }

    /// The rectangle covers the whole space.
    pub open spec fn is_everything(self) -> bool {
        &&& self.top_left.x.value() == 0
        &&& self.top_left.y.value() == 0
        &&& self.bottom_right.x.value() == Space::Data::limit()
        &&& self.bottom_right.y.value() == Space::Data::limit()
    }

    /// The rectangle between two corners.
    pub fn new(top_left: Coordinates<Space>, bottom_right: Coordinates<Space>) -> (rect: Self)
        ensures
            rect == (Rectangle::<Space> { top_left, bottom_right }),
    {
        Rectangle { top_left, bottom_right }
    }

    /// The rectangle between the four given sides.
    pub fn new_from_coordinates(
        left: Space::Data,
        top: Space::Data,
        right: Space::Data,
        bottom: Space::Data,
    ) -> (rect: Self)
        ensures
            rect == (Rectangle::<Space> {
                top_left: Coordinates { x: left, y: top },
                bottom_right: Coordinates { x: right, y: bottom },
            }),
    {
        Rectangle {
            top_left: Coordinates { x: left, y: top },
            bottom_right: Coordinates { x: right, y: bottom },
        }
    }

    /// The rectangle after `rotation` quarter turns around the centre of
    /// the space.
    pub fn rotated(&self, rotation: u8) -> (rect: Self)
        ensures
            rect == self.rotated_spec(rotation as int),
            rect.is_ordered(),
    {
        let a = self.top_left.rotated(rotation);
        let b = self.bottom_right.rotated(rotation);
        Rectangle {
            top_left: Coordinates { x: a.x.lesser(b.x), y: a.y.lesser(b.y) },
            bottom_right: Coordinates { x: a.x.greater(b.x), y: a.y.greater(b.y) },
        }
    }

    /// The rectangle that covers the whole space.
    pub fn everything() -> (rect: Self)
        ensures
            rect == Self::whole(),
            rect.is_everything(),
            rect.is_ordered(),
    {
        let rect = Rectangle {
            top_left: Coordinates::<Space>::top_left(),
            bottom_right: Coordinates::<Space>::bottom_right(),
        };
        proof {
            rect.top_left.x.lemma_value_in_range();
            Space::Data::lemma_from_value(0);
            Space::Data::lemma_from_value(Space::Data::limit());
            Space::Data::lemma_value_injective(rect.top_left.x, Space::Data::from_value(0));
            Space::Data::lemma_value_injective(rect.top_left.y, Space::Data::from_value(0));
            Space::Data::lemma_value_injective(
                rect.bottom_right.x,
                Space::Data::from_value(Space::Data::limit()),
            );
            Space::Data::lemma_value_injective(
                rect.bottom_right.y,
                Space::Data::from_value(Space::Data::limit()),
            );
        }
        rect
    }

    /// The distance between the left and the right side.
    pub fn width(&self) -> (width: Space::Data)
        requires
            self.top_left.x.value() <= self.bottom_right.x.value(),
        ensures
            width.value() == self.bottom_right.x.value() - self.top_left.x.value(),
    {
        self.bottom_right.x.span_from(self.top_left.x)
    }

    /// The distance between the top and the bottom side.
    pub fn height(&self) -> (height: Space::Data)
        requires
            self.top_left.y.value() <= self.bottom_right.y.value(),
        ensures
            height.value() == self.bottom_right.y.value() - self.top_left.y.value(),
    {
        self.bottom_right.y.span_from(self.top_left.y)
    }

    /// The left side.
    pub fn left(&self) -> (left: Space::Data)
        ensures
            left == self.top_left.x,
    {
        self.top_left.x
    }

    /// The top side.
    pub fn top(&self) -> (top: Space::Data)
        ensures
            top == self.top_left.y,
    {
        self.top_left.y
    }

    /// The right side.
    pub fn right(&self) -> (right: Space::Data)
        ensures
            right == self.bottom_right.x,
    {
        self.bottom_right.x
    }

    /// The bottom side.
    pub fn bottom(&self) -> (bottom: Space::Data)
        ensures
            bottom == self.bottom_right.y,
    {
        self.bottom_right.y
    }
}

/// One quarter turn after `n` quarter turns is `n + 1` quarter turns of a
/// point.
pub proof fn lemma_point_turns_add<S: CoordinateSpace>(point: Coordinates<S>, n: int)
    requires
        0 <= n,
    ensures
        point.rotated_spec(n).rotated_spec(1) == point.rotated_spec(n + 1),
{
    let mx = reflected_value::<S>(point.x);
    let my = reflected_value::<S>(point.y);
    lemma_value_has_mirror::<S>(point.x);
    lemma_value_has_mirror::<S>(point.y);
    lemma_reflected_value::<S>(point.x, mx);
    lemma_reflected_value::<S>(point.y, my);
}

/// Every value of a space has a mirror image in it.
pub proof fn lemma_value_has_mirror<S: CoordinateSpace>(v: S::Data)
    ensures
        reflected_value::<S>(v).value() == S::Data::limit() - v.value(),
{
    v.lemma_value_in_range();
    S::Data::lemma_from_value(S::Data::limit() - v.value());
}

/// A point returns to where it was after four quarter turns.
pub proof fn lemma_point_four_turns<S: CoordinateSpace>(point: Coordinates<S>)
    ensures
        point.rotated_spec(1).rotated_spec(1).rotated_spec(1).rotated_spec(1) == point,
{
    lemma_point_turns_add::<S>(point, 1);
    lemma_point_turns_add::<S>(point, 2);
    lemma_point_turns_add::<S>(point, 3);
}

/// Rotating a rectangle with ordered corners four times by a quarter turn
/// returns the rectangle.
pub proof fn lemma_rectangle_four_turns<S: CoordinateSpace>(rect: Rectangle<S>)
    requires
        rect.is_ordered(),
    ensures
        rect.rotated_spec(1).rotated_spec(1).rotated_spec(1).rotated_spec(1) == rect,
{
    let l = rect.top_left.x;
    let t = rect.top_left.y;
    let r = rect.bottom_right.x;
    let b = rect.bottom_right.y;
    lemma_value_has_mirror::<S>(l);
    lemma_value_has_mirror::<S>(t);
    lemma_value_has_mirror::<S>(r);
    lemma_value_has_mirror::<S>(b);
    let ml = reflected_value::<S>(l);
    let mt = reflected_value::<S>(t);
    let mr = reflected_value::<S>(r);
    let mb = reflected_value::<S>(b);
    lemma_reflected_value::<S>(l, ml);
    lemma_reflected_value::<S>(t, mt);
    lemma_reflected_value::<S>(r, mr);
    lemma_reflected_value::<S>(b, mb);
    let one = rect.rotated_spec(1);
    assert(one == (Rectangle::<S> {
        top_left: Coordinates { x: mb, y: l },
        bottom_right: Coordinates { x: mt, y: r },
    }));
    let two = one.rotated_spec(1);
    assert(two == (Rectangle::<S> {
        top_left: Coordinates { x: mr, y: mb },
        bottom_right: Coordinates { x: ml, y: mt },
    }));
    let three = two.rotated_spec(1);
    assert(three == (Rectangle::<S> {
        top_left: Coordinates { x: t, y: mr },
        bottom_right: Coordinates { x: b, y: ml },
    }));
}

} // verus!
