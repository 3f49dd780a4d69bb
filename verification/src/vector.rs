//! An integer 2D vector: coordinates, axis arithmetic, and a lexicographic
//! total order.

use core::cmp::Ordering;

use vstd::prelude::*;
use vstd::std_specs::cmp::PartialOrdSpec;
use vstd::std_specs::ops::AddSpec;
use vstd::std_specs::ops::DivSpec;
use vstd::std_specs::ops::MulSpec;
use vstd::std_specs::ops::SubSpec;

verus! {

/// True when the exact sum of `a` and `b` fits in an `i32`.
pub open spec fn sum_fits(a: int, b: int) -> bool {
    i32::MIN <= a + b <= i32::MAX
}

/// True when the exact difference of `a` and `b` fits in an `i32`.
pub open spec fn diff_fits(a: int, b: int) -> bool {
    i32::MIN <= a - b <= i32::MAX
}

/// True when the exact product of `a` and `b` fits in an `i32`.
pub open spec fn prod_fits(a: int, b: int) -> bool {
    i32::MIN <= a * b <= i32::MAX
}

/// True when `i32` division of `a` by `b` is defined: the divisor is nonzero
/// and the quotient does not overflow (which happens only for
/// `i32::MIN / -1`).
pub open spec fn div_defined(a: int, b: int) -> bool {
    b != 0 && !(a == i32::MIN && b == -1)
}

/// Truncating integer division, the semantics of the host language's `/` on
/// signed integers: the exact quotient rounded toward zero.
pub open spec fn trunc_div(a: int, b: int) -> int {
    if (a < 0) == (b < 0) {
        vstd::math::abs(a) as int / vstd::math::abs(b) as int
    } else {
        -(vstd::math::abs(a) as int / vstd::math::abs(b) as int)
    }
}

/// A two-dimensional coordinate/offset abstraction: construction from a pair
/// of coordinates, reading and shifting single axes, translation by another
/// vector, and an ordering-based bounds test.
///
/// The spec functions fix what the executable methods must do: an implementer
/// chooses a coordinate sum and difference, says on which inputs they are
/// defined, and chooses the strict order that `in_bounds` tests; every
/// method's contract is stated over those choices.
pub trait Vector: Sized {
    type Coord;

    /// The first coordinate, as contracts see it.
    spec fn spec_x(&self) -> Self::Coord;

    /// The second coordinate, as contracts see it.
    spec fn spec_y(&self) -> Self::Coord;

    /// The sum of two coordinates, meaningful where `sum_ok` holds.
    spec fn coord_sum(a: Self::Coord, b: Self::Coord) -> Self::Coord;

    /// The difference of two coordinates, meaningful where `diff_ok` holds.
    spec fn coord_diff(a: Self::Coord, b: Self::Coord) -> Self::Coord;

    /// The inputs on which the coordinate sum is defined.
    spec fn sum_ok(a: Self::Coord, b: Self::Coord) -> bool;

    /// The inputs on which the coordinate difference is defined.
    spec fn diff_ok(a: Self::Coord, b: Self::Coord) -> bool;

    /// The strict order that `in_bounds` tests.
    spec fn spec_lt(&self, other: &Self) -> bool;

    /// Construct a vector from its two coordinates. Never fails and performs
    /// no validation.
    fn new(x: Self::Coord, y: Self::Coord) -> (r: Self)
        ensures
            r.spec_x() == x,
            r.spec_y() == y,
    ;

    /// Read the first coordinate.
    fn x(&self) -> (r: &Self::Coord)
        ensures
            *r == self.spec_x(),
    ;

    /// Read the second coordinate.
    fn y(&self) -> (r: &Self::Coord)
        ensures
            *r == self.spec_y(),
    ;

    /// Shift the first axis up by `x`, leaving the second axis unchanged.
    fn add_x(&mut self, x: &Self::Coord)
        requires
            Self::sum_ok(old(self).spec_x(), *x),
        ensures
            final(self).spec_x() == Self::coord_sum(old(self).spec_x(), *x),
            final(self).spec_y() == old(self).spec_y(),
    ;

    /// Shift the second axis up by `y`, leaving the first axis unchanged.
    fn add_y(&mut self, y: &Self::Coord)
        requires
            Self::sum_ok(old(self).spec_y(), *y),
        ensures
            final(self).spec_x() == old(self).spec_x(),
            final(self).spec_y() == Self::coord_sum(old(self).spec_y(), *y),
    ;

    /// Shift the first axis down by `x`, leaving the second axis unchanged.
    fn subtract_x(&mut self, x: &Self::Coord)
        requires
            Self::diff_ok(old(self).spec_x(), *x),
        ensures
            final(self).spec_x() == Self::coord_diff(old(self).spec_x(), *x),
            final(self).spec_y() == old(self).spec_y(),
    ;

    /// Shift the second axis down by `y`, leaving the first axis unchanged.
    fn subtract_y(&mut self, y: &Self::Coord)
        requires
            Self::diff_ok(old(self).spec_y(), *y),
        ensures
            final(self).spec_x() == old(self).spec_x(),
            final(self).spec_y() == Self::coord_diff(old(self).spec_y(), *y),
    ;

    /// Translate in place: add both axes of `t` to the respective axes of
    /// `self`.
    fn transform(&mut self, t: &Self)
        requires
            Self::sum_ok(old(self).spec_x(), t.spec_x()),
            Self::sum_ok(old(self).spec_y(), t.spec_y()),
        ensures
            final(self).spec_x() == Self::coord_sum(old(self).spec_x(), t.spec_x()),
            final(self).spec_y() == Self::coord_sum(old(self).spec_y(), t.spec_y()),
    ;

    /// True iff the implementer's strict order places `self` strictly between
    /// `min` and `max`. This is a single composite order comparison, not an
    /// independent per-axis rectangle test.
    fn in_bounds(&self, min: &Self, max: &Self) -> (r: bool)
        ensures
            r == (min.spec_lt(self) && self.spec_lt(max)),
    ;
}

/// Dividing by the negation of a positive divisor flips the quotient's sign.
proof fn lemma_div_negated_divisor(a: int, d: int)
    requires
        d > 0,
    ensures
        a / (-d) == -(a / d),
{
    let q = a / d;
    let r = a % d;
    let q2 = a / (-d);
    let r2 = a % (-d);
    vstd::arithmetic::div_mod::lemma_fundamental_div_mod(a, d);
    vstd::arithmetic::div_mod::lemma_fundamental_div_mod(a, -d);
    assert(q2 == -q) by (nonlinear_arith)
        requires
            a == d * q + r,
            a == (-d) * q2 + r2,
            0 <= r < d,
            0 <= r2 < d,
            d > 0;
}

/// `trunc_div` on `i32` inputs stays in `i32` range and agrees with the
/// sign-split form in which the verifier states what `i32` division returns.
proof fn lemma_trunc_div_form(a: int, b: int)
    requires
        i32::MIN <= a <= i32::MAX,
        i32::MIN <= b <= i32::MAX,
        div_defined(a, b),
    ensures
        i32::MIN <= trunc_div(a, b) <= i32::MAX,
        a >= 0 ==> trunc_div(a, b) == a / b,
        a < 0 ==> trunc_div(a, b) == -((-a) / b),
{
    broadcast use vstd::arithmetic::div_mod::lemma_div_pos_is_pos;
    broadcast use vstd::arithmetic::div_mod::lemma_div_nonincreasing;

    if a >= 0 && b > 0 {
        assert(trunc_div(a, b) == a / b);
    } else if a >= 0 && b < 0 {
        lemma_div_negated_divisor(a, -b);
        assert(a / b == -(a / (-b)));
        assert(trunc_div(a, b) == -(a / (-b)));
    } else if a < 0 && b > 0 {
        assert(trunc_div(a, b) == -((-a) / b));
    } else {
        lemma_div_negated_divisor(-a, -b);
        assert((-a) / b == -((-a) / (-b)));
        assert(trunc_div(a, b) == (-a) / (-b));
        if a == i32::MIN {
            vstd::arithmetic::div_mod::lemma_div_is_ordered_by_denominator(-a, 2, -b);
            assert((-a) / 2 == 0x40000000);
        }
    }
}

/// A pair of `i32` coordinates with value semantics. Ordering (and with it
/// `in_bounds`) is lexicographic: first by `x`, then by `y`.
#[derive(Clone, Copy, Debug, PartialEq, Eq, Structural, Ord)]
pub struct IVec2 {
    pub x: i32,
    pub y: i32,
}

/// The lexicographic strict order on `IVec2`: by `x` first, then by `y`.
pub open spec fn lex_lt(a: IVec2, b: IVec2) -> bool {
    a.x < b.x || (a.x == b.x && a.y < b.y)
}

impl Vector for IVec2 {
    type Coord = i32;

    open spec fn spec_x(&self) -> i32 {
        self.x
    }

    open spec fn spec_y(&self) -> i32 {
        self.y
    }

    open spec fn coord_sum(a: i32, b: i32) -> i32 {
        (a + b) as i32
    }

    open spec fn coord_diff(a: i32, b: i32) -> i32 {
        (a - b) as i32
    }

    open spec fn sum_ok(a: i32, b: i32) -> bool {
        sum_fits(a as int, b as int)
    }

    open spec fn diff_ok(a: i32, b: i32) -> bool {
        diff_fits(a as int, b as int)
    }

    open spec fn spec_lt(&self, other: &Self) -> bool {
        lex_lt(*self, *other)
    }

    fn new(x: i32, y: i32) -> (r: Self) {
        IVec2 { x, y }
    }

    fn x(&self) -> (r: &i32) {
        &self.x
    }

    fn y(&self) -> (r: &i32) {
        &self.y
    }

    fn add_x(&mut self, x: &i32) {
        self.x = self.x + *x;
    }

    fn add_y(&mut self, y: &i32) {
        self.y = self.y + *y;
    }

    fn subtract_x(&mut self, x: &i32) {
        self.x = self.x - *x;
    }

    fn subtract_y(&mut self, y: &i32) {
        self.y = self.y - *y;
    }

    fn transform(&mut self, t: &Self) {
        self.x = self.x + t.x;
        self.y = self.y + t.y;
    }

    fn in_bounds(&self, min: &Self, max: &Self) -> (r: bool) {
        let above_min = min.x < self.x || (min.x == self.x && min.y < self.y);
        let below_max = self.x < max.x || (self.x == max.x && self.y < max.y);
        above_min && below_max
    }
}

impl PartialOrd for IVec2 {
    /// Lexicographic comparison: by `x` first, then by `y`.
    fn partial_cmp(&self, other: &Self) -> (r: Option<Ordering>) {
        if self.x < other.x {
            Some(Ordering::Less)
        } else if other.x < self.x {
            Some(Ordering::Greater)
        } else if self.y < other.y {
            Some(Ordering::Less)
        } else if other.y < self.y {
            Some(Ordering::Greater)
        } else {
            Some(Ordering::Equal)
        }
    }
}

impl vstd::std_specs::cmp::PartialOrdSpecImpl for IVec2 {
    open spec fn obeys_partial_cmp_spec() -> bool {
        true
    }

    open spec fn partial_cmp_spec(&self, other: &Self) -> Option<Ordering> {
        if lex_lt(*self, *other) {
            Some(Ordering::Less)
        } else if lex_lt(*other, *self) {
            Some(Ordering::Greater)
        } else {
            Some(Ordering::Equal)
        }
    }
}

/// The lexicographic order on vectors is total: two distinct vectors compare
/// `Less` in exactly one direction, never `None` and never `Equal`; and two
/// vectors compare `Equal` exactly when they are the same value.
pub proof fn lemma_order_total(a: IVec2, b: IVec2)
    ensures
        a.partial_cmp_spec(&b) == Some(Ordering::Less) <==> lex_lt(a, b),
        a.partial_cmp_spec(&b) == Some(Ordering::Greater) <==> lex_lt(b, a),
        a.partial_cmp_spec(&b) == Some(Ordering::Equal) <==> a == b,
        a != b ==> (lex_lt(a, b) <==> !lex_lt(b, a)),
{
}

/// Adding a vector and then subtracting it returns to the starting vector.
pub proof fn lemma_add_sub_roundtrip(a: IVec2, b: IVec2)
    requires
        sum_fits(a.x as int, b.x as int),
        sum_fits(a.y as int, b.y as int),
    ensures
        a.add_spec(b).sub_req(b),
        a.add_spec(b).sub_spec(b) == a,
{
}

/// Multiplying by a vector without zero axes and then dividing by it returns
/// to the starting vector.
pub proof fn lemma_mul_div_roundtrip(a: IVec2, b: IVec2)
    requires
        b.x != 0,
        b.y != 0,
        prod_fits(a.x as int, b.x as int),
        prod_fits(a.y as int, b.y as int),
    ensures
        a.mul_spec(b).div_req(b),
        a.mul_spec(b).div_spec(b) == a,
{
    let ax = a.x as int;
    let ay = a.y as int;
    let bx = b.x as int;
    let by = b.y as int;
    assert(!(ax * bx == i32::MIN && bx == -1)) by (nonlinear_arith)
        requires i32::MIN <= ax <= i32::MAX;
    assert(!(ay * by == i32::MIN && by == -1)) by (nonlinear_arith)
        requires i32::MIN <= ay <= i32::MAX;
    lemma_trunc_div_multiple(ax, bx);
    lemma_trunc_div_multiple(ay, by);
}

/// Truncating division undoes exact multiplication: `(a * b) / b == a`.
proof fn lemma_trunc_div_multiple(a: int, b: int)
    requires
        b != 0,
        i32::MIN <= a <= i32::MAX,
    ensures
        trunc_div(a * b, b) == a,
{
    let ab = a * b;
    let am = vstd::math::abs(a) as int;
    let bm = vstd::math::abs(b) as int;
    assert(vstd::math::abs(ab) as int == am * bm) by (nonlinear_arith)
        requires ab == a * b, am == vstd::math::abs(a), bm == vstd::math::abs(b);
    vstd::arithmetic::div_mod::lemma_div_multiples_vanish(am, bm);
    assert((am * bm) / bm == am);
    if a == 0 {
        assert(trunc_div(ab, b) == 0);
    } else if a > 0 {
        assert((ab < 0) == (b < 0)) by (nonlinear_arith)
            requires ab == a * b, a > 0, b != 0;
        assert(trunc_div(ab, b) == am);
    } else {
        assert((ab < 0) == (b > 0)) by (nonlinear_arith)
            requires ab == a * b, a < 0, b != 0;
        assert(trunc_div(ab, b) == -am);
    }
}

/// Shifting a coordinate up by `d` and then down by `d` returns to the
/// starting coordinate, so a vector taken through `add_x` and `subtract_x`
/// (or `add_y` and `subtract_y`) returns to its starting value.
pub proof fn lemma_axis_shift_roundtrip(c: i32, d: i32)
    requires
        sum_fits(c as int, d as int),
    ensures
        <IVec2 as Vector>::diff_ok(<IVec2 as Vector>::coord_sum(c, d), d),
        <IVec2 as Vector>::coord_diff(<IVec2 as Vector>::coord_sum(c, d), d) == c,
{
}

impl IVec2 {
    /// In-place elementwise sum.
    pub fn add_assign(&mut self, rhs: IVec2)
        requires
            sum_fits(old(self).x as int, rhs.x as int),
            sum_fits(old(self).y as int, rhs.y as int),
        ensures
            final(self).x == old(self).x + rhs.x,
            final(self).y == old(self).y + rhs.y,
    {
        self.x = self.x + rhs.x;
        self.y = self.y + rhs.y;
    }

    /// In-place scalar sum: add `rhs` to both axes.
    pub fn add_assign_scalar(&mut self, rhs: i32)
        requires
            sum_fits(old(self).x as int, rhs as int),
            sum_fits(old(self).y as int, rhs as int),
        ensures
            final(self).x == old(self).x + rhs,
            final(self).y == old(self).y + rhs,
    {
        self.x = self.x + rhs;
        self.y = self.y + rhs;
    }

    /// In-place elementwise difference.
    pub fn sub_assign(&mut self, rhs: IVec2)
        requires
            diff_fits(old(self).x as int, rhs.x as int),
            diff_fits(old(self).y as int, rhs.y as int),
        ensures
            final(self).x == old(self).x - rhs.x,
            final(self).y == old(self).y - rhs.y,
    {
        self.x = self.x - rhs.x;
        self.y = self.y - rhs.y;
    }

    /// In-place scalar difference: subtract `rhs` from both axes.
    pub fn sub_assign_scalar(&mut self, rhs: i32)
        requires
            diff_fits(old(self).x as int, rhs as int),
            diff_fits(old(self).y as int, rhs as int),
        ensures
            final(self).x == old(self).x - rhs,
            final(self).y == old(self).y - rhs,
    {
        self.x = self.x - rhs;
        self.y = self.y - rhs;
    }

    /// In-place elementwise product.
    pub fn mul_assign(&mut self, rhs: IVec2)
        requires
            prod_fits(old(self).x as int, rhs.x as int),
            prod_fits(old(self).y as int, rhs.y as int),
        ensures
            final(self).x == old(self).x * rhs.x,
            final(self).y == old(self).y * rhs.y,
    {
        self.x = self.x * rhs.x;
        self.y = self.y * rhs.y;
    }

    /// In-place scalar product: multiply both axes by `rhs`.
    pub fn mul_assign_scalar(&mut self, rhs: i32)
        requires
            prod_fits(old(self).x as int, rhs as int),
            prod_fits(old(self).y as int, rhs as int),
        ensures
            final(self).x == old(self).x * rhs,
            final(self).y == old(self).y * rhs,
    {
        self.x = self.x * rhs;
        self.y = self.y * rhs;
    }

    /// In-place elementwise truncating division.
    pub fn div_assign(&mut self, rhs: IVec2)
        requires
            div_defined(old(self).x as int, rhs.x as int),
            div_defined(old(self).y as int, rhs.y as int),
        ensures
            final(self).x == trunc_div(old(self).x as int, rhs.x as int),
            final(self).y == trunc_div(old(self).y as int, rhs.y as int),
    {
        proof {
            lemma_trunc_div_form(self.x as int, rhs.x as int);
            lemma_trunc_div_form(self.y as int, rhs.y as int);
        }
        self.x = self.x / rhs.x;
        self.y = self.y / rhs.y;
    }

    /// In-place scalar truncating division of both axes by `rhs`.
    pub fn div_assign_scalar(&mut self, rhs: i32)
        requires
            div_defined(old(self).x as int, rhs as int),
            div_defined(old(self).y as int, rhs as int),
        ensures
            final(self).x == trunc_div(old(self).x as int, rhs as int),
            final(self).y == trunc_div(old(self).y as int, rhs as int),
    {
        proof {
            lemma_trunc_div_form(self.x as int, rhs as int);
            lemma_trunc_div_form(self.y as int, rhs as int);
        }
        self.x = self.x / rhs;
        self.y = self.y / rhs;
    }
}

impl core::ops::Add<IVec2> for IVec2 {
    type Output = IVec2;

    /// Elementwise sum.
    fn add(self, rhs: IVec2) -> (r: IVec2) {
        IVec2 { x: self.x + rhs.x, y: self.y + rhs.y }
    }
}

impl vstd::std_specs::ops::AddSpecImpl<IVec2> for IVec2 {
    open spec fn obeys_add_spec() -> bool {
        true
    }

    open spec fn add_req(self, rhs: IVec2) -> bool {
        sum_fits(self.x as int, rhs.x as int) && sum_fits(self.y as int, rhs.y as int)
    }

    open spec fn add_spec(self, rhs: IVec2) -> IVec2 {
        IVec2 { x: (self.x + rhs.x) as i32, y: (self.y + rhs.y) as i32 }
    }
}

impl core::ops::Add<&IVec2> for IVec2 {
    type Output = IVec2;

    /// Elementwise sum with a borrowed right-hand side.
    fn add(self, rhs: &IVec2) -> (r: IVec2) {
        IVec2 { x: self.x + rhs.x, y: self.y + rhs.y }
    }
}

impl vstd::std_specs::ops::AddSpecImpl<&IVec2> for IVec2 {
    open spec fn obeys_add_spec() -> bool {
        true
    }

    open spec fn add_req(self, rhs: &IVec2) -> bool {
        sum_fits(self.x as int, rhs.x as int) && sum_fits(self.y as int, rhs.y as int)
    }

    open spec fn add_spec(self, rhs: &IVec2) -> IVec2 {
        IVec2 { x: (self.x + rhs.x) as i32, y: (self.y + rhs.y) as i32 }
    }
}

impl core::ops::Add<i32> for IVec2 {
    type Output = IVec2;

    /// Scalar sum: add `rhs` to both axes.
    fn add(self, rhs: i32) -> (r: IVec2) {
        IVec2 { x: self.x + rhs, y: self.y + rhs }
    }
}

impl vstd::std_specs::ops::AddSpecImpl<i32> for IVec2 {
    open spec fn obeys_add_spec() -> bool {
        true
    }

    open spec fn add_req(self, rhs: i32) -> bool {
        sum_fits(self.x as int, rhs as int) && sum_fits(self.y as int, rhs as int)
    }

    open spec fn add_spec(self, rhs: i32) -> IVec2 {
        IVec2 { x: (self.x + rhs) as i32, y: (self.y + rhs) as i32 }
    }
}

impl core::ops::Sub<IVec2> for IVec2 {
    type Output = IVec2;

    /// Elementwise difference.
    fn sub(self, rhs: IVec2) -> (r: IVec2) {
        IVec2 { x: self.x - rhs.x, y: self.y - rhs.y }
    }
}

impl vstd::std_specs::ops::SubSpecImpl<IVec2> for IVec2 {
    open spec fn obeys_sub_spec() -> bool {
        true
    }

    open spec fn sub_req(self, rhs: IVec2) -> bool {
        diff_fits(self.x as int, rhs.x as int) && diff_fits(self.y as int, rhs.y as int)
    }

    open spec fn sub_spec(self, rhs: IVec2) -> IVec2 {
        IVec2 { x: (self.x - rhs.x) as i32, y: (self.y - rhs.y) as i32 }
    }
}

impl core::ops::Sub<&IVec2> for IVec2 {
    type Output = IVec2;

    /// Elementwise difference with a borrowed right-hand side.
    fn sub(self, rhs: &IVec2) -> (r: IVec2) {
        IVec2 { x: self.x - rhs.x, y: self.y - rhs.y }
    }
}

impl vstd::std_specs::ops::SubSpecImpl<&IVec2> for IVec2 {
    open spec fn obeys_sub_spec() -> bool {
        true
    }

    open spec fn sub_req(self, rhs: &IVec2) -> bool {
        diff_fits(self.x as int, rhs.x as int) && diff_fits(self.y as int, rhs.y as int)
    }

    open spec fn sub_spec(self, rhs: &IVec2) -> IVec2 {
        IVec2 { x: (self.x - rhs.x) as i32, y: (self.y - rhs.y) as i32 }
    }
}

impl core::ops::Sub<&IVec2> for &IVec2 {
    type Output = IVec2;

    /// Elementwise difference of two borrowed vectors.
    fn sub(self, rhs: &IVec2) -> (r: IVec2) {
        IVec2 { x: self.x - rhs.x, y: self.y - rhs.y }
    }
}

impl vstd::std_specs::ops::SubSpecImpl<&IVec2> for &IVec2 {
    open spec fn obeys_sub_spec() -> bool {
        true
    }

    open spec fn sub_req(self, rhs: &IVec2) -> bool {
        diff_fits(self.x as int, rhs.x as int) && diff_fits(self.y as int, rhs.y as int)
    }

    open spec fn sub_spec(self, rhs: &IVec2) -> IVec2 {
        IVec2 { x: (self.x - rhs.x) as i32, y: (self.y - rhs.y) as i32 }
    }
}

impl core::ops::Sub<i32> for IVec2 {
    type Output = IVec2;

    /// Scalar difference: subtract `rhs` from both axes.
    fn sub(self, rhs: i32) -> (r: IVec2) {
        IVec2 { x: self.x - rhs, y: self.y - rhs }
    }
}

impl vstd::std_specs::ops::SubSpecImpl<i32> for IVec2 {
    open spec fn obeys_sub_spec() -> bool {
        true
    }

    open spec fn sub_req(self, rhs: i32) -> bool {
        diff_fits(self.x as int, rhs as int) && diff_fits(self.y as int, rhs as int)
    }

    open spec fn sub_spec(self, rhs: i32) -> IVec2 {
        IVec2 { x: (self.x - rhs) as i32, y: (self.y - rhs) as i32 }
    }
}

impl core::ops::Mul<IVec2> for IVec2 {
    type Output = IVec2;

    /// Elementwise product.
    fn mul(self, rhs: IVec2) -> (r: IVec2) {
        IVec2 { x: self.x * rhs.x, y: self.y * rhs.y }
    }
}

impl vstd::std_specs::ops::MulSpecImpl<IVec2> for IVec2 {
    open spec fn obeys_mul_spec() -> bool {
        true
    }

    open spec fn mul_req(self, rhs: IVec2) -> bool {
        prod_fits(self.x as int, rhs.x as int) && prod_fits(self.y as int, rhs.y as int)
    }

    open spec fn mul_spec(self, rhs: IVec2) -> IVec2 {
        IVec2 { x: (self.x * rhs.x) as i32, y: (self.y * rhs.y) as i32 }
    }
}

impl core::ops::Mul<i32> for IVec2 {
    type Output = IVec2;

    /// Scalar product: multiply both axes by `rhs`.
    fn mul(self, rhs: i32) -> (r: IVec2) {
        IVec2 { x: self.x * rhs, y: self.y * rhs }
    }
}

impl vstd::std_specs::ops::MulSpecImpl<i32> for IVec2 {
    open spec fn obeys_mul_spec() -> bool {
        true
    }

    open spec fn mul_req(self, rhs: i32) -> bool {
        prod_fits(self.x as int, rhs as int) && prod_fits(self.y as int, rhs as int)
    }

    open spec fn mul_spec(self, rhs: i32) -> IVec2 {
        IVec2 { x: (self.x * rhs) as i32, y: (self.y * rhs) as i32 }
    }
}

impl core::ops::Div<IVec2> for IVec2 {
    type Output = IVec2;

    /// Elementwise truncating division. Division by a vector with a zero axis
    /// is excluded by the contract, as is the one overflowing quotient.
    fn div(self, rhs: IVec2) -> (r: IVec2) {
        proof {
            lemma_trunc_div_form(self.x as int, rhs.x as int);
            lemma_trunc_div_form(self.y as int, rhs.y as int);
        }
        IVec2 { x: self.x / rhs.x, y: self.y / rhs.y }
    }
}

impl vstd::std_specs::ops::DivSpecImpl<IVec2> for IVec2 {
    open spec fn obeys_div_spec() -> bool {
        true
    }

    open spec fn div_req(self, rhs: IVec2) -> bool {
        div_defined(self.x as int, rhs.x as int) && div_defined(self.y as int, rhs.y as int)
    }

    open spec fn div_spec(self, rhs: IVec2) -> IVec2 {
        IVec2 {
            x: trunc_div(self.x as int, rhs.x as int) as i32,
            y: trunc_div(self.y as int, rhs.y as int) as i32,
        }
    }
}

impl core::ops::Div<i32> for IVec2 {
    type Output = IVec2;

    /// Scalar truncating division of both axes by `rhs`.
    fn div(self, rhs: i32) -> (r: IVec2) {
        proof {
            lemma_trunc_div_form(self.x as int, rhs as int);
            lemma_trunc_div_form(self.y as int, rhs as int);
        }
        IVec2 { x: self.x / rhs, y: self.y / rhs }
    }
}

impl vstd::std_specs::ops::DivSpecImpl<i32> for IVec2 {
    open spec fn obeys_div_spec() -> bool {
        true
    }

    open spec fn div_req(self, rhs: i32) -> bool {
        div_defined(self.x as int, rhs as int) && div_defined(self.y as int, rhs as int)
    }

    open spec fn div_spec(self, rhs: i32) -> IVec2 {
        IVec2 {
            x: trunc_div(self.x as int, rhs as int) as i32,
            y: trunc_div(self.y as int, rhs as int) as i32,
        }
    }
}

} // verus!
