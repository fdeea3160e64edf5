//! Lengths, ratios and the small geometric types that layout works with.
//!
//! All numbers are integers. A length is finite or `+∞`; arithmetic on
//! lengths never wraps: it saturates, so every operation is total.

use vstd::prelude::*;

verus! {

/// The number of raw units of a [`Ratio`] that make up the whole.
pub const RATIO_ONE: i64 = 1_000_000;

/// Integer division that rounds toward zero.
pub open spec fn trunc_div(n: int, d: int) -> int
    recommends
        d > 0,
{
    if n >= 0 {
        n / d
    } else {
        -((-n) / d)
    }
}

/// An absolute length, in thousandths of a point.
///
/// The largest raw value stands for `+∞`; every other raw value is a finite
/// length, which may be negative.
#[derive(Clone, Copy, PartialEq, Eq, Structural, Debug, Hash)]
pub struct Abs {
    pub raw: i64,
}

impl Abs {
    /// The length that an unbounded integer stands for: values beyond the
    /// finite range become `+∞` above and the least finite length below.
    pub open spec fn of_int(v: int) -> Abs {
        if v >= i64::MAX {
            Abs { raw: i64::MAX }
        } else if v <= i64::MIN {
            Abs { raw: i64::MIN }
        } else {
            Abs { raw: v as i64 }
        }
    }

    fn from_wide(v: i128) -> (r: Abs)
        ensures
            r == Abs::of_int(v as int),
    {
        if v >= i64::MAX as i128 {
            Abs { raw: i64::MAX }
        } else if v <= i64::MIN as i128 {
            Abs { raw: i64::MIN }
        } else {
            Abs { raw: v as i64 }
        }
    }

    pub open spec fn new_spec(raw: i64) -> Abs {
        Abs { raw }
    }

    /// A length of `raw` units.
    #[verifier::when_used_as_spec(new_spec)]
    pub fn new(raw: i64) -> (r: Abs)
        ensures
            r == Abs::new_spec(raw),
    {
        Abs { raw }
    }

    pub open spec fn zero_spec() -> Abs {
        Abs { raw: 0 }
    }

    /// The zero length.
    #[verifier::when_used_as_spec(zero_spec)]
    pub fn zero() -> (r: Abs)
        ensures
            r == Abs::zero_spec(),
    {
        Abs { raw: 0 }
    }

    pub open spec fn inf_spec() -> Abs {
        Abs { raw: i64::MAX }
    }

    /// The infinite length.
    #[verifier::when_used_as_spec(inf_spec)]
    pub fn inf() -> (r: Abs)
        ensures
            r == Abs::inf_spec(),
    {
        Abs { raw: i64::MAX }
    }

    pub open spec fn is_finite_spec(self) -> bool {
        self.raw != i64::MAX
    }

    /// Whether the length is not `+∞`.
    #[verifier::when_used_as_spec(is_finite_spec)]
    pub fn is_finite(self) -> (r: bool)
        ensures
            r == self.is_finite_spec(),
    {
        self.raw != i64::MAX
    }

    pub open spec fn is_zero_spec(self) -> bool {
        self.raw == 0
    }

    /// Whether the length is zero.
    #[verifier::when_used_as_spec(is_zero_spec)]
    pub fn is_zero(self) -> (r: bool)
        ensures
            r == self.is_zero_spec(),
    {
        self.raw == 0
    }

    pub open spec fn plus_spec(self, other: Abs) -> Abs {
        if !self.is_finite() || !other.is_finite() {
            Abs::inf()
        } else {
            Abs::of_int(self.raw + other.raw)
        }
    }

    /// The sum of two lengths. A sum with `+∞` is `+∞`.
    #[verifier::when_used_as_spec(plus_spec)]
    pub fn plus(self, other: Abs) -> (r: Abs)
        ensures
            r == self.plus_spec(other),
    {
        if !self.is_finite() || !other.is_finite() {
            Abs::inf()
        } else {
            Abs::from_wide(self.raw as i128 + other.raw as i128)
        }
    }

    pub open spec fn minus_spec(self, other: Abs) -> Abs {
        if !self.is_finite() {
            Abs::inf()
        } else if !other.is_finite() {
            Abs { raw: i64::MIN }
        } else {
            Abs::of_int(self.raw - other.raw)
        }
    }

    /// The difference of two lengths. `+∞` less anything is `+∞`; a finite
    /// length less `+∞` is the least finite length.
    #[verifier::when_used_as_spec(minus_spec)]
    pub fn minus(self, other: Abs) -> (r: Abs)
        ensures
            r == self.minus_spec(other),
    {
        if !self.is_finite() {
            Abs::inf()
        } else if !other.is_finite() {
            Abs { raw: i64::MIN }
        } else {
            Abs::from_wide(self.raw as i128 - other.raw as i128)
        }
    }

    pub open spec fn times_spec(self, n: usize) -> Abs {
        if n == 0 {
            Abs::zero()
        } else if !self.is_finite() {
            Abs::inf()
        } else {
            Abs::of_int(self.raw * n)
        }
    }

    /// The length taken `n` times.
    #[verifier::when_used_as_spec(times_spec)]
    pub fn times(self, n: usize) -> (r: Abs)
        ensures
            r == self.times_spec(n),
    {
        if n == 0 {
            Abs::zero()
        } else if !self.is_finite() {
            Abs::inf()
        } else {
            let a: i128 = self.raw as i128;
            let b: i128 = n as i128;
            assert(-170141183460469231722463931679029329920 <= a * b
                <= 170141183460469231722463931679029329920) by (nonlinear_arith)
                requires
                    -0x8000_0000_0000_0000 <= a <= 0x7fff_ffff_ffff_ffff,
                    0 <= b <= 0xffff_ffff_ffff_ffff,
            ;
            Abs::from_wide(a * b)
        }
    }

    pub open spec fn over_spec(self, n: usize) -> Abs
        recommends
            n > 0,
    {
        if !self.is_finite() {
            Abs::inf()
        } else {
            Abs::of_int(trunc_div(self.raw as int, n as int))
        }
    }

    /// The length divided into `n` equal parts, rounded toward zero.
    #[verifier::when_used_as_spec(over_spec)]
    pub fn over(self, n: usize) -> (r: Abs)
        requires
            n > 0,
        ensures
            r == self.over_spec(n),
    {
        if !self.is_finite() {
            Abs::inf()
        } else {
            Abs::from_wide(self.raw as i128 / n as i128)
        }
    }

    pub open spec fn fraction_spec(self, num: u32, den: u32) -> Abs
        recommends
            den > 0,
    {
        if !self.is_finite() {
            Abs::inf()
        } else {
            Abs::of_int(trunc_div(self.raw * num, den as int))
        }
    }

    /// `num / den` of the length, rounded toward zero.
    #[verifier::when_used_as_spec(fraction_spec)]
    pub fn fraction(self, num: u32, den: u32) -> (r: Abs)
        requires
            den > 0,
        ensures
            r == self.fraction_spec(num, den),
    {
        if !self.is_finite() {
            Abs::inf()
        } else {
            let a: i128 = self.raw as i128;
            let b: i128 = num as i128;
            assert(-39614081257132168796771975168 <= a * b <= 39614081257132168796771975168)
                by (nonlinear_arith)
                requires
                    -0x8000_0000_0000_0000 <= a <= 0x8000_0000_0000_0000,
                    0 <= b <= 0x1_0000_0000,
            ;
            Abs::from_wide((a * b) / (den as i128))
        }
    }

    pub open spec fn fits_spec(self, other: Abs) -> bool {
        other.raw <= self.raw
    }

    /// Whether `other` fits into this length.
    #[verifier::when_used_as_spec(fits_spec)]
    pub fn fits(self, other: Abs) -> (r: bool)
        ensures
            r == self.fits_spec(other),
    {
        other.raw <= self.raw
    }

    pub open spec fn min_spec(self, other: Abs) -> Abs {
        if self.raw <= other.raw {
            self
        } else {
            other
        }
    }

    /// The smaller of two lengths.
    #[verifier::when_used_as_spec(min_spec)]
    pub fn min(self, other: Abs) -> (r: Abs)
        ensures
            r == self.min_spec(other),
    {
        if self.raw <= other.raw {
            self
        } else {
            other
        }
    }

    pub open spec fn max_spec(self, other: Abs) -> Abs {
        if self.raw >= other.raw {
            self
        } else {
            other
        }
    }

    /// The larger of two lengths.
    #[verifier::when_used_as_spec(max_spec)]
    pub fn max(self, other: Abs) -> (r: Abs)
        ensures
            r == self.max_spec(other),
    {
        if self.raw >= other.raw {
            self
        } else {
            other
        }
    }
}

/// A ratio of a whole, in millionths.
#[derive(Clone, Copy, PartialEq, Eq, Structural, Debug, Hash)]
pub struct Ratio {
    pub raw: i64,
}

impl Ratio {
    pub open spec fn zero_spec() -> Ratio {
        Ratio { raw: 0 }
    }

    /// The ratio of nothing.
    #[verifier::when_used_as_spec(zero_spec)]
    pub fn zero() -> (r: Ratio)
        ensures
            r == Ratio::zero_spec(),
    {
        Ratio { raw: 0 }
    }

    pub open spec fn one_spec() -> Ratio {
        Ratio { raw: RATIO_ONE }
    }

    /// The ratio of the whole.
    #[verifier::when_used_as_spec(one_spec)]
    pub fn one() -> (r: Ratio)
        ensures
            r == Ratio::one_spec(),
    {
        Ratio { raw: RATIO_ONE }
    }

    pub open spec fn is_positive_spec(self) -> bool {
        self.raw > 0
    }

    /// Whether the ratio is greater than zero.
    #[verifier::when_used_as_spec(is_positive_spec)]
    pub fn is_positive(self) -> (r: bool)
        ensures
            r == self.is_positive_spec(),
    {
        self.raw > 0
    }

    pub open spec fn of_spec(self, whole: Abs) -> Abs {
        if !whole.is_finite() {
            Abs::zero()
        } else {
            Abs::of_int(trunc_div(whole.raw * self.raw, RATIO_ONE as int))
        }
    }

    /// This ratio of `whole`, rounded toward zero. A ratio of `+∞` is
    /// nothing.
    #[verifier::when_used_as_spec(of_spec)]
    pub fn of(self, whole: Abs) -> (r: Abs)
        ensures
            r == self.of_spec(whole),
    {
        if !whole.is_finite() {
            Abs::zero()
        } else {
            let a: i128 = whole.raw as i128;
            let b: i128 = self.raw as i128;
            assert(-85070591730234615865843651857942052864 <= a * b
                <= 85070591730234615865843651857942052864) by (nonlinear_arith)
                requires
                    -0x8000_0000_0000_0000 <= a <= 0x8000_0000_0000_0000,
                    -0x8000_0000_0000_0000 <= b <= 0x8000_0000_0000_0000,
            ;
            Abs::from_wide((a * b) / (RATIO_ONE as i128))
        }
    }
}

/// A length made of a ratio of some whole and an absolute part.
#[derive(Clone, Copy, PartialEq, Eq, Structural, Debug, Hash)]
pub struct Rel {
    pub rel: Ratio,
    pub abs: Abs,
}

impl Rel {
    pub open spec fn zero_spec() -> Rel {
        Rel { rel: Ratio::zero(), abs: Abs::zero() }
    }

    /// The zero length.
    #[verifier::when_used_as_spec(zero_spec)]
    pub fn zero() -> (r: Rel)
        ensures
            r == Rel::zero_spec(),
    {
        Rel { rel: Ratio::zero(), abs: Abs::zero() }
    }

    pub open spec fn absolute_spec(abs: Abs) -> Rel {
        Rel { rel: Ratio::zero(), abs }
    }

    /// A length with no relative part.
    #[verifier::when_used_as_spec(absolute_spec)]
    pub fn absolute(abs: Abs) -> (r: Rel)
        ensures
            r == Rel::absolute_spec(abs),
    {
        Rel { rel: Ratio::zero(), abs }
    }

    pub open spec fn relative_to_spec(self, whole: Abs) -> Abs {
        self.rel.of(whole).plus(self.abs)
    }

    /// The length that this stands for when the whole is `whole`.
    #[verifier::when_used_as_spec(relative_to_spec)]
    pub fn relative_to(self, whole: Abs) -> (r: Abs)
        ensures
            r == self.relative_to_spec(whole),
    {
        self.rel.of(whole).plus(self.abs)
    }
}

/// A share of the space that is left over, in thousandths of a fraction.
#[derive(Clone, Copy, PartialEq, Eq, Structural, Debug, Hash)]
pub struct Fr {
    pub raw: u64,
}

impl Fr {
    pub open spec fn zero_spec() -> Fr {
        Fr { raw: 0 }
    }

    /// No share.
    #[verifier::when_used_as_spec(zero_spec)]
    pub fn zero() -> (r: Fr)
        ensures
            r == Fr::zero_spec(),
    {
        Fr { raw: 0 }
    }

    pub open spec fn is_positive_spec(self) -> bool {
        self.raw > 0
    }

    /// Whether this is more than no share.
    #[verifier::when_used_as_spec(is_positive_spec)]
    pub fn is_positive(self) -> (r: bool)
        ensures
            r == self.is_positive_spec(),
    {
        self.raw > 0
    }

    pub open spec fn plus_spec(self, other: Fr) -> Fr {
        if self.raw + other.raw > u64::MAX {
            Fr { raw: u64::MAX }
        } else {
            Fr { raw: (self.raw + other.raw) as u64 }
        }
    }

    /// The sum of two shares, saturating.
    #[verifier::when_used_as_spec(plus_spec)]
    pub fn plus(self, other: Fr) -> (r: Fr)
        ensures
            r == self.plus_spec(other),
    {
        if self.raw > u64::MAX - other.raw {
            Fr { raw: u64::MAX }
        } else {
            Fr { raw: self.raw + other.raw }
        }
    }

    pub open spec fn share_spec(self, total: Fr, remaining: Abs) -> Abs {
        if total.raw == 0 || !remaining.is_finite() || remaining.raw <= 0 {
            Abs::zero()
        } else {
            Abs::of_int((remaining.raw * self.raw) / (total.raw as int))
        }
    }

    /// The part of `remaining` that falls to this share when `total` shares
    /// are handed out: `self / total` of what is left, and nothing when
    /// nothing is left, when the space is unbounded or when there are no
    /// shares.
    #[verifier::when_used_as_spec(share_spec)]
    pub fn share(self, total: Fr, remaining: Abs) -> (r: Abs)
        ensures
            r == self.share_spec(total, remaining),
    {
        if total.raw == 0 || !remaining.is_finite() || remaining.raw <= 0 {
            Abs::zero()
        } else {
            let a: u128 = remaining.raw as u128;
            let b: u128 = self.raw as u128;
            assert(0 <= a * b <= 170141183460469231722463931679029329920)
                by (nonlinear_arith)
                requires
                    0 <= a <= 0x7fff_ffff_ffff_ffff,
                    0 <= b <= 0xffff_ffff_ffff_ffff,
            ;
            let q: u128 = (a * b) / (total.raw as u128);
            if q >= i64::MAX as u128 {
                Abs::inf()
            } else {
                Abs { raw: q as i64 }
            }
        }
    }
}

/// A value that is either chosen automatically or given.
#[derive(Clone, Copy, PartialEq, Eq, Structural, Debug, Hash)]
pub enum Smart<T> {
    Auto,
    Custom(T),
}

/// The direction in which text runs.
#[derive(Clone, Copy, PartialEq, Eq, Structural, Debug, Hash)]
pub enum Dir {
    LTR,
    RTL,
    TTB,
    BTT,
}

/// Where something sits along one axis.
#[derive(Clone, Copy, PartialEq, Eq, Structural, Debug, Hash)]
pub enum FixedAlignment {
    Start,
    Center,
    End,
}

impl FixedAlignment {
    pub open spec fn position_spec(self, extent: Abs) -> Abs {
        match self {
            FixedAlignment::Start => Abs::zero(),
            FixedAlignment::Center => extent.over(2),
            FixedAlignment::End => extent,
        }
    }

    /// The offset of an item when `extent` is the space that it does not
    /// fill.
    #[verifier::when_used_as_spec(position_spec)]
    pub fn position(self, extent: Abs) -> (r: Abs)
        ensures
            r == self.position_spec(extent),
    {
        match self {
            FixedAlignment::Start => Abs::zero(),
            FixedAlignment::Center => extent.over(2),
            FixedAlignment::End => extent,
        }
    }

    /// The place of the alignment in the order `Start < Center < End`.
    pub open spec fn rank(self) -> int {
        match self {
            FixedAlignment::Start => 0,
            FixedAlignment::Center => 1,
            FixedAlignment::End => 2,
        }
    }

    pub open spec fn max_spec(self, other: FixedAlignment) -> FixedAlignment {
        if self.rank() >= other.rank() {
            self
        } else {
            other
        }
    }

    /// The stronger of two alignments in the order `Start < Center < End`.
    #[verifier::when_used_as_spec(max_spec)]
    pub fn max(self, other: FixedAlignment) -> (r: FixedAlignment)
        ensures
            r == self.max_spec(other),
    {
        match (self, other) {
            (FixedAlignment::End, _) => self,
            (_, FixedAlignment::End) => other,
            (FixedAlignment::Center, _) => self,
            (_, FixedAlignment::Center) => other,
            _ => self,
        }
    }
}

/// A pair of values, one for each axis.
#[derive(Clone, Copy, PartialEq, Eq, Structural, Debug, Hash)]
pub struct Axes<T> {
    pub x: T,
    pub y: T,
}

/// The size of a rectangle.
pub type Size = Axes<Abs>;

impl Axes<Abs> {
    pub open spec fn new_spec(x: Abs, y: Abs) -> Size {
        Axes { x, y }
    }

    /// The size with the given width and height.
    #[verifier::when_used_as_spec(new_spec)]
    pub fn new(x: Abs, y: Abs) -> (r: Size)
        ensures
            r == Size::new_spec(x, y),
    {
        Axes { x, y }
    }

    pub open spec fn zero_spec() -> Size {
        Axes { x: Abs::zero(), y: Abs::zero() }
    }

    /// The size of nothing.
    #[verifier::when_used_as_spec(zero_spec)]
    pub fn zero() -> (r: Size)
        ensures
            r == Size::zero_spec(),
    {
        Axes { x: Abs::zero(), y: Abs::zero() }
    }

    pub open spec fn is_zero_spec(self) -> bool {
        self.x.is_zero() && self.y.is_zero()
    }

    /// Whether both extents are zero.
    #[verifier::when_used_as_spec(is_zero_spec)]
    pub fn is_zero(self) -> (r: bool)
        ensures
            r == self.is_zero_spec(),
    {
        self.x.is_zero() && self.y.is_zero()
    }

    pub open spec fn finite_spec(self) -> Axes<bool> {
        Axes { x: self.x.is_finite(), y: self.y.is_finite() }
    }

    /// For each axis, whether the extent is finite.
    #[verifier::when_used_as_spec(finite_spec)]
    pub fn finite(self) -> (r: Axes<bool>)
        ensures
            r == self.finite_spec(),
    {
        Axes { x: self.x.is_finite(), y: self.y.is_finite() }
    }

    pub open spec fn min_spec(self, other: Size) -> Size {
        Axes { x: self.x.min(other.x), y: self.y.min(other.y) }
    }

    /// The smaller extent on each axis.
    #[verifier::when_used_as_spec(min_spec)]
    pub fn min(self, other: Size) -> (r: Size)
        ensures
            r == self.min_spec(other),
    {
        Axes { x: self.x.min(other.x), y: self.y.min(other.y) }
    }

    pub open spec fn plus_spec(self, other: Size) -> Size {
        Axes { x: self.x.plus(other.x), y: self.y.plus(other.y) }
    }

    /// The sum on each axis.
    #[verifier::when_used_as_spec(plus_spec)]
    pub fn plus(self, other: Size) -> (r: Size)
        ensures
            r == self.plus_spec(other),
    {
        Axes { x: self.x.plus(other.x), y: self.y.plus(other.y) }
    }

    pub open spec fn minus_spec(self, other: Size) -> Size {
        Axes { x: self.x.minus(other.x), y: self.y.minus(other.y) }
    }

    /// The difference on each axis.
    #[verifier::when_used_as_spec(minus_spec)]
    pub fn minus(self, other: Size) -> (r: Size)
        ensures
            r == self.minus_spec(other),
    {
        Axes { x: self.x.minus(other.x), y: self.y.minus(other.y) }
    }

    pub open spec fn to_point_spec(self) -> Point {
        Point { x: self.x, y: self.y }
    }

    /// The point that lies this far from the origin.
    #[verifier::when_used_as_spec(to_point_spec)]
    pub fn to_point(self) -> (r: Point)
        ensures
            r == self.to_point_spec(),
    {
        Point { x: self.x, y: self.y }
    }
}

impl Axes<bool> {
    pub open spec fn select_spec(self, t: Size, f: Size) -> Size {
        Axes { x: if self.x { t.x } else { f.x }, y: if self.y { t.y } else { f.y } }
    }

    /// On each axis, the extent of `t` where this is true and that of `f`
    /// where it is false.
    #[verifier::when_used_as_spec(select_spec)]
    pub fn select(self, t: Size, f: Size) -> (r: Size)
        ensures
            r == self.select_spec(t, f),
    {
        Axes { x: if self.x { t.x } else { f.x }, y: if self.y { t.y } else { f.y } }
    }
}

impl Axes<Rel> {
    pub open spec fn relative_to_spec(self, whole: Size) -> Size {
        Axes { x: self.x.relative_to(whole.x), y: self.y.relative_to(whole.y) }
    }

    /// Each length taken relative to the extent of `whole` on its axis.
    #[verifier::when_used_as_spec(relative_to_spec)]
    pub fn relative_to(self, whole: Size) -> (r: Size)
        ensures
            r == self.relative_to_spec(whole),
    {
        Axes { x: self.x.relative_to(whole.x), y: self.y.relative_to(whole.y) }
    }
}

/// A position in a frame.
#[derive(Clone, Copy, PartialEq, Eq, Structural, Debug, Hash)]
pub struct Point {
    pub x: Abs,
    pub y: Abs,
}

impl Point {
    pub open spec fn new_spec(x: Abs, y: Abs) -> Point {
        Point { x, y }
    }

    /// The point at the given offsets.
    #[verifier::when_used_as_spec(new_spec)]
    pub fn new(x: Abs, y: Abs) -> (r: Point)
        ensures
            r == Point::new_spec(x, y),
    {
        Point { x, y }
    }

    pub open spec fn zero_spec() -> Point {
        Point { x: Abs::zero(), y: Abs::zero() }
    }

    /// The origin.
    #[verifier::when_used_as_spec(zero_spec)]
    pub fn zero() -> (r: Point)
        ensures
            r == Point::zero_spec(),
    {
        Point { x: Abs::zero(), y: Abs::zero() }
    }

    pub open spec fn with_x_spec(x: Abs) -> Point {
        Point { x, y: Abs::zero() }
    }

    /// The point on the horizontal axis at `x`.
    #[verifier::when_used_as_spec(with_x_spec)]
    pub fn with_x(x: Abs) -> (r: Point)
        ensures
            r == Point::with_x_spec(x),
    {
        Point { x, y: Abs::zero() }
    }

    pub open spec fn with_y_spec(y: Abs) -> Point {
        Point { x: Abs::zero(), y }
    }

    /// The point on the vertical axis at `y`.
    #[verifier::when_used_as_spec(with_y_spec)]
    pub fn with_y(y: Abs) -> (r: Point)
        ensures
            r == Point::with_y_spec(y),
    {
        Point { x: Abs::zero(), y }
    }

    pub open spec fn is_zero_spec(self) -> bool {
        self.x.is_zero() && self.y.is_zero()
    }

    /// Whether this is the origin.
    #[verifier::when_used_as_spec(is_zero_spec)]
    pub fn is_zero(self) -> (r: bool)
        ensures
            r == self.is_zero_spec(),
    {
        self.x.is_zero() && self.y.is_zero()
    }

    pub open spec fn plus_spec(self, other: Point) -> Point {
        Point { x: self.x.plus(other.x), y: self.y.plus(other.y) }
    }

    /// The point moved by `other`.
    #[verifier::when_used_as_spec(plus_spec)]
    pub fn plus(self, other: Point) -> (r: Point)
        ensures
            r == self.plus_spec(other),
    {
        Point { x: self.x.plus(other.x), y: self.y.plus(other.y) }
    }
}

/// Four values, one for each side of a rectangle.
#[derive(Clone, Copy, PartialEq, Eq, Structural, Debug, Hash)]
pub struct Sides<T> {
    pub left: T,
    pub top: T,
    pub right: T,
    pub bottom: T,
}

impl Sides<Rel> {
    pub open spec fn relative_to_spec(self, whole: Size) -> Sides<Abs> {
        Sides {
            left: self.left.relative_to(whole.x),
            top: self.top.relative_to(whole.y),
            right: self.right.relative_to(whole.x),
            bottom: self.bottom.relative_to(whole.y),
        }
    }

    /// Each side taken relative to the extent of `whole` on its axis.
    #[verifier::when_used_as_spec(relative_to_spec)]
    pub fn relative_to(self, whole: Size) -> (r: Sides<Abs>)
        ensures
            r == self.relative_to_spec(whole),
    {
        Sides {
            left: self.left.relative_to(whole.x),
            top: self.top.relative_to(whole.y),
            right: self.right.relative_to(whole.x),
            bottom: self.bottom.relative_to(whole.y),
        }
    }
}

impl Sides<Abs> {
    pub open spec fn sum_by_axis_spec(self) -> Size {
        Axes { x: self.left.plus(self.right), y: self.top.plus(self.bottom) }
    }

    /// The sides added up along each axis.
    #[verifier::when_used_as_spec(sum_by_axis_spec)]
    pub fn sum_by_axis(self) -> (r: Size)
        ensures
            r == self.sum_by_axis_spec(),
    {
        Axes { x: self.left.plus(self.right), y: self.top.plus(self.bottom) }
    }

    pub open spec fn mirrored_spec(self) -> Sides<Abs> {
        Sides { left: self.right, top: self.top, right: self.left, bottom: self.bottom }
    }

    /// The sides with left and right exchanged.
    #[verifier::when_used_as_spec(mirrored_spec)]
    pub fn mirrored(self) -> (r: Sides<Abs>)
        ensures
            r == self.mirrored_spec(),
    {
        Sides { left: self.right, top: self.top, right: self.left, bottom: self.bottom }
    }
}

} // verus!
