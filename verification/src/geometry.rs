//! Rectangles, sizes, insets and the scale factor, in whole layout units.

use vstd::prelude::*;
use vstd::std_specs::convert::FromSpecImpl;
use vstd::arithmetic::div_mod::lemma_fundamental_div_mod_converse;
use vstd::arithmetic::div_mod::lemma_fundamental_div_mod;
use vstd::arithmetic::div_mod::lemma_mod_bound;

verus! {

/// The value of `v` once it is brought into the coordinate range.
pub open spec fn saturate(v: int) -> int {
    if v < i64::MIN {
        i64::MIN as int
    } else if v > i64::MAX {
        i64::MAX as int
    } else {
        v
    }
}

/// Sum of two coordinates, stopping at the ends of the range.
pub fn add_units(a: i64, b: i64) -> (sum: i64)
    ensures
        sum == saturate(a + b),
{
    let wide: i128 = a as i128 + b as i128;
    narrow(wide)
}

/// Difference of two coordinates, stopping at the ends of the range.
pub fn sub_units(a: i64, b: i64) -> (difference: i64)
    ensures
        difference == saturate(a - b),
{
    let wide: i128 = a as i128 - b as i128;
    narrow(wide)
}

/// The negation of a coordinate, stopping at the upper end of the range.
pub fn neg_units(a: i64) -> (negated: i64)
    ensures
        negated == saturate(-a),
{
    sub_units(0, a)
}

/// Half of a coordinate, rounded towards negative infinity.
pub fn half_units(a: i64) -> (half: i64)
    ensures
        half == a / 2,
{
    if a >= 0 {
        a / 2
    } else {
        let m: i64 = -(a + 1);
        -(m / 2) - 1
    }
}

/// Brings a wide intermediate value into the coordinate range.
pub fn narrow(wide: i128) -> (v: i64)
    ensures
        v == saturate(wide as int),
{
    if wide < i64::MIN as i128 {
        i64::MIN
    } else if wide > i64::MAX as i128 {
        i64::MAX
    } else {
        wide as i64
    }
}

/// The larger of two coordinates.
pub fn max_units(a: i64, b: i64) -> (m: i64)
    ensures
        m == (if a >= b { a } else { b }),
{
    if a >= b { a } else { b }
}

/// The smaller of two coordinates.
pub fn min_units(a: i64, b: i64) -> (m: i64)
    ensures
        m == (if a <= b { a } else { b }),
{
    if a <= b { a } else { b }
}

/// Ratio between the units a view is configured in and the units it is laid
/// out in, held as a fraction. What is kept of the denominator is how far
/// it lies above one, so that no value has an empty denominator.
#[derive(Clone, Copy, Debug)]
pub struct ScaleFactor {
    numerator: u32,
    denominator_above_one: u32,
}

impl ScaleFactor {
    /// Numerator of the fraction.
    pub closed spec fn num(self) -> int {
        self.numerator as int
    }

    /// Denominator of the fraction.
    pub closed spec fn den(self) -> int {
        self.denominator_above_one + 1
    }

    /// A scale factor is valid when its denominator is positive and its
    /// numerator is not negative; every scale factor is.
    pub open spec fn wf(self) -> bool {
        self.den() > 0 && 0 <= self.num() <= u32::MAX && self.den() <= u32::MAX + 1
    }

    /// Every scale factor is valid.
    pub proof fn lemma_valid(self)
        ensures
            self.wf(),
    {
    }

    /// `length` configured units in layout units: the product with the
    /// fraction, rounded towards negative infinity and brought into range.
    pub open spec fn scaled(self, length: int) -> int {
        saturate((length * self.num()) / self.den())
    }

    /// The fraction `numerator / denominator`, or nothing when the
    /// denominator is zero.
    pub fn new(numerator: u32, denominator: u32) -> (scale: Option<ScaleFactor>)
        ensures
            denominator == 0 <==> scale is None,
            scale matches Some(s) ==> s.num() == numerator && s.den() == denominator && s.wf(),
    {
        if denominator == 0 {
            None
        } else {
            Some(ScaleFactor { numerator, denominator_above_one: denominator - 1 })
        }
    }

    /// The scale factor that multiplies by the whole number `factor`.
    pub fn whole(factor: u32) -> (scale: ScaleFactor)
        ensures
            scale.num() == factor,
            scale.den() == 1,
            scale.wf(),
    {
        ScaleFactor { numerator: factor, denominator_above_one: 0 }
    }

    /// Scales a configured length into layout units.
    pub fn apply(&self, length: i64) -> (scaled: i64)
        ensures
            scaled == self.scaled(length as int),
    {
        mul_div(length, self.numerator as i64, self.denominator_above_one as i64 + 1)
    }
}

/// Quotient of `p` by a positive `d`, rounded towards negative infinity.
pub fn floor_div(p: i128, d: i128) -> (q: i128)
    requires
        d > 0,
    ensures
        q == p / d,
{
    if p >= 0 {
        p / d
    } else {
        let m: i128 = -(p + 1);
        let q: i128 = m / d;
        proof {
            lemma_floor_of_negative(p as int, d as int);
        }
        -q - 1
    }
}

/// The product of `a` and `b` over a positive `d`, rounded towards negative
/// infinity and brought into the coordinate range.
pub fn mul_div(a: i64, b: i64, d: i64) -> (r: i64)
    requires
        d > 0,
    ensures
        r == saturate((a * b) / (d as int)),
{
    assert(-0x8000_0000_0000_0000 * 0x8000_0000_0000_0000 <= a * b <= 0x8000_0000_0000_0000
        * 0x8000_0000_0000_0000) by (nonlinear_arith)
        requires
            -0x8000_0000_0000_0000 <= a <= 0x7fff_ffff_ffff_ffff,
            -0x8000_0000_0000_0000 <= b <= 0x7fff_ffff_ffff_ffff,
    ;
    let product: i128 = (a as i128) * (b as i128);
    narrow(floor_div(product, d as i128))
}

/// For a negative `p` and a positive `d`, the quotient of `p` by `d`
/// rounded down is one less than the negated quotient of `-(p + 1)`.
pub proof fn lemma_floor_of_negative(p: int, d: int)
    requires
        p < 0,
        d > 0,
    ensures
        p / d == -((-(p + 1)) / d) - 1,
{
    let m = -(p + 1);
    let q = m / d;
    let r = m % d;
    lemma_fundamental_div_mod(m, d);
    lemma_mod_bound(m, d);
    assert(p == (-q - 1) * d + (d - r - 1)) by (nonlinear_arith)
        requires
            m == d * q + r,
            p == -m - 1,
    ;
    lemma_fundamental_div_mod_converse(p, d, -q - 1, d - r - 1);
}

/// A quotient by a positive number lies between zero and the dividend.
pub proof fn lemma_quotient_within(p: int, d: int)
    requires
        d > 0,
    ensures
        p >= 0 ==> 0 <= p / d <= p,
        p < 0 ==> p <= p / d < 0,
{
    let q = p / d;
    let r = p % d;
    lemma_fundamental_div_mod(p, d);
    lemma_mod_bound(p, d);
    assert(p == d * q + r);
    if p >= 0 {
        assert(0 <= q <= p) by (nonlinear_arith)
            requires
                p == d * q + r,
                0 <= r < d,
                p >= 0,
                d > 0,
        ;
    } else {
        assert(p <= q < 0) by (nonlinear_arith)
            requires
                p == d * q + r,
                0 <= r < d,
                p < 0,
                d > 0,
        ;
    }
}

/// A shift of the plane by `dx` to the right and `dy` downwards.
#[derive(Clone, Copy, Debug, PartialEq, Eq, Structural)]
pub struct Translation {
    pub dx: i64,
    pub dy: i64,
}

impl Translation {
    /// The shift that moves nothing.
    pub open spec fn spec_identity() -> Translation {
        Translation { dx: 0, dy: 0 }
    }

    /// The shift that moves nothing.
    #[verifier::when_used_as_spec(spec_identity)]
    pub fn identity() -> (shift: Translation)
        ensures
            shift == Translation::spec_identity(),
    {
        Translation { dx: 0, dy: 0 }
    }
}

/// Width and height.
#[derive(Clone, Copy, Debug, PartialEq, Eq, Structural)]
pub struct Size {
    pub width: i64,
    pub height: i64,
}

impl Size {
    /// The size `width` by `height`.
    pub fn new(width: i64, height: i64) -> (size: Size)
        ensures
            size == (Size { width, height }),
    {
        Size { width, height }
    }

    /// This size with each extent raised to that of `min` and then lowered to
    /// that of `max`.
    pub open spec fn clamped(self, min: Size, max: Size) -> Size {
        Size {
            width: lower(raise(self.width, min.width), max.width),
            height: lower(raise(self.height, min.height), max.height),
        }
    }

    /// Bounds this size by `min` and `max`; where the two cross, `max` wins.
    pub fn clamp(self, min: Size, max: Size) -> (size: Size)
        ensures
            size == self.clamped(min, max),
    {
        Size {
            width: min_units(max_units(self.width, min.width), max.width),
            height: min_units(max_units(self.height, min.height), max.height),
        }
    }
}

impl From<(i64, i64)> for Size {
    /// The size with the width and height of the pair.
    fn from(extent: (i64, i64)) -> (size: Size) {
        Size { width: extent.0, height: extent.1 }
    }
}

impl FromSpecImpl<(i64, i64)> for Size {
    open spec fn obeys_from_spec() -> bool {
        true
    }

    open spec fn from_spec(extent: (i64, i64)) -> Size {
        Size { width: extent.0, height: extent.1 }
    }
}

/// The larger of `v` and `floor`.
pub open spec fn raise(v: i64, floor: i64) -> i64 {
    if v >= floor { v } else { floor }
}

/// The smaller of `v` and `ceiling`.
pub open spec fn lower(v: i64, ceiling: i64) -> i64 {
    if v <= ceiling { v } else { ceiling }
}

/// Distances from the four edges of a rectangle, inwards.
#[derive(Clone, Copy, Debug, PartialEq, Eq, Structural)]
pub struct Insets {
    pub x0: i64,
    pub y0: i64,
    pub x1: i64,
    pub y1: i64,
}

impl Insets {
    /// The same distance from every edge.
    pub fn uniform(d: i64) -> (insets: Insets)
        ensures
            insets == (Insets { x0: d, y0: d, x1: d, y1: d }),
    {
        Insets { x0: d, y0: d, x1: d, y1: d }
    }

    /// Separate distances from the left, top, right and bottom edges.
    pub fn new(x0: i64, y0: i64, x1: i64, y1: i64) -> (insets: Insets)
        ensures
            insets == (Insets { x0, y0, x1, y1 }),
    {
        Insets { x0, y0, x1, y1 }
    }

    /// No distance is negative.
    pub open spec fn non_negative(self) -> bool {
        self.x0 >= 0 && self.y0 >= 0 && self.x1 >= 0 && self.y1 >= 0
    }

    /// These insets with each distance scaled by `scale`.
    pub open spec fn scaled(self, scale: ScaleFactor) -> Insets {
        Insets {
            x0: scale.scaled(self.x0 as int) as i64,
            y0: scale.scaled(self.y0 as int) as i64,
            x1: scale.scaled(self.x1 as int) as i64,
            y1: scale.scaled(self.y1 as int) as i64,
        }
    }

    /// Scales each distance into layout units.
    pub fn scale(&self, scale: &ScaleFactor) -> (insets: Insets)
        ensures
            insets == self.scaled(*scale),
    {
        Insets {
            x0: scale.apply(self.x0),
            y0: scale.apply(self.y0),
            x1: scale.apply(self.x1),
            y1: scale.apply(self.y1),
        }
    }
}

impl From<i64> for Insets {
    /// The same distance from every edge.
    fn from(d: i64) -> (insets: Insets) {
        Insets { x0: d, y0: d, x1: d, y1: d }
    }
}

impl FromSpecImpl<i64> for Insets {
    open spec fn obeys_from_spec() -> bool {
        true
    }

    open spec fn from_spec(d: i64) -> Insets {
        Insets { x0: d, y0: d, x1: d, y1: d }
    }
}

impl From<(i64, i64)> for Insets {
    /// The first distance from the left and right edges, the second from
    /// the top and bottom edges.
    fn from(d: (i64, i64)) -> (insets: Insets) {
        Insets { x0: d.0, y0: d.1, x1: d.0, y1: d.1 }
    }
}

impl FromSpecImpl<(i64, i64)> for Insets {
    open spec fn obeys_from_spec() -> bool {
        true
    }

    open spec fn from_spec(d: (i64, i64)) -> Insets {
        Insets { x0: d.0, y0: d.1, x1: d.0, y1: d.1 }
    }
}

/// A rectangle given by its left, top, right and bottom coordinates. Nothing
/// forbids a negative width or height.
#[derive(Clone, Copy, Debug, PartialEq, Eq, Structural)]
pub struct Rect {
    pub x0: i64,
    pub y0: i64,
    pub x1: i64,
    pub y1: i64,
}

impl Rect {
    /// The rectangle whose four coordinates are zero.
    pub open spec fn spec_zero() -> Rect {
        Rect { x0: 0, y0: 0, x1: 0, y1: 0 }
    }

    /// The rectangle whose four coordinates are zero.
    #[verifier::when_used_as_spec(spec_zero)]
    pub fn zero() -> (rect: Rect)
        ensures
            rect == Rect::spec_zero(),
    {
        Rect { x0: 0, y0: 0, x1: 0, y1: 0 }
    }

    /// The rectangle with the given edges.
    pub fn new(x0: i64, y0: i64, x1: i64, y1: i64) -> (rect: Rect)
        ensures
            rect == (Rect { x0, y0, x1, y1 }),
    {
        Rect { x0, y0, x1, y1 }
    }

    /// Distance from the left edge to the right edge.
    pub open spec fn spec_width(&self) -> i64 {
        saturate(self.x1 - self.x0) as i64
    }

    /// Distance from the left edge to the right edge.
    #[verifier::when_used_as_spec(spec_width)]
    pub fn width(&self) -> (w: i64)
        ensures
            w == self.spec_width(),
    {
        sub_units(self.x1, self.x0)
    }

    /// Distance from the top edge to the bottom edge.
    pub open spec fn spec_height(&self) -> i64 {
        saturate(self.y1 - self.y0) as i64
    }

    /// Distance from the top edge to the bottom edge.
    #[verifier::when_used_as_spec(spec_height)]
    pub fn height(&self) -> (h: i64)
        ensures
            h == self.spec_height(),
    {
        sub_units(self.y1, self.y0)
    }

    /// Width and height of the rectangle.
    pub fn size(&self) -> (size: Size)
        ensures
            size.width == self.width(),
            size.height == self.height(),
    {
        Size { width: self.width(), height: self.height() }
    }

    /// The rectangle that spans from `(x, y)` to that point moved by `size`,
    /// with its edges put in order.
    pub open spec fn spanning(x: i64, y: i64, size: Size) -> Rect {
        let fx = saturate(x + size.width) as i64;
        let fy = saturate(y + size.height) as i64;
        Rect {
            x0: lower(x, fx),
            y0: lower(y, fy),
            x1: raise(x, fx),
            y1: raise(y, fy),
        }
    }

    /// The rectangle of the given size whose first corner is `(x, y)`.
    pub fn from_origin_size(x: i64, y: i64, size: Size) -> (rect: Rect)
        ensures
            rect == Rect::spanning(x, y, size),
    {
        let fx: i64 = add_units(x, size.width);
        let fy: i64 = add_units(y, size.height);
        Rect {
            x0: min_units(x, fx),
            y0: min_units(y, fy),
            x1: max_units(x, fx),
            y1: max_units(y, fy),
        }
    }

    /// This rectangle with every edge moved inwards by `edges`.
    pub open spec fn shrunk(self, edges: Insets) -> Rect {
        Rect {
            x0: saturate(self.x0 + edges.x0) as i64,
            y0: saturate(self.y0 + edges.y0) as i64,
            x1: saturate(self.x1 - edges.x1) as i64,
            y1: saturate(self.y1 - edges.y1) as i64,
        }
    }

    /// Moves every edge inwards by `edges`.
    pub fn shrink(&self, edges: &Insets) -> (rect: Rect)
        ensures
            rect == self.shrunk(*edges),
    {
        Rect {
            x0: add_units(self.x0, edges.x0),
            y0: add_units(self.y0, edges.y0),
            x1: sub_units(self.x1, edges.x1),
            y1: sub_units(self.y1, edges.y1),
        }
    }

    /// This rectangle with every edge moved outwards by `edges`.
    pub open spec fn grown(self, edges: Insets) -> Rect {
        Rect {
            x0: saturate(self.x0 - edges.x0) as i64,
            y0: saturate(self.y0 - edges.y0) as i64,
            x1: saturate(self.x1 + edges.x1) as i64,
            y1: saturate(self.y1 + edges.y1) as i64,
        }
    }

    /// Moves every edge outwards by `edges`.
    pub fn grow(&self, edges: &Insets) -> (rect: Rect)
        ensures
            rect == self.grown(*edges),
    {
        Rect {
            x0: sub_units(self.x0, edges.x0),
            y0: sub_units(self.y0, edges.y0),
            x1: add_units(self.x1, edges.x1),
            y1: add_units(self.y1, edges.y1),
        }
    }

    /// No edge of `inner` lies outside this rectangle.
    pub open spec fn encloses(self, inner: Rect) -> bool {
        self.x0 <= inner.x0 && self.y0 <= inner.y0 && inner.x1 <= self.x1 && inner.y1 <= self.y1
    }

}

} // verus!
