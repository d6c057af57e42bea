//! Fixed-point scalars, points, vectors and axis-aligned rectangles.

use vstd::prelude::*;

verus! {

/// A length or position in thousandths of a world unit.
pub type WorldCoord = i64;

/// One world unit.
pub const UNIT: i64 = 1000;

/// Every stored coordinate, velocity and acceleration stays within
/// `-COORD_LIMIT ..= COORD_LIMIT`; integration saturates there.
pub const COORD_LIMIT: i64 = 1_000_000_000_000;

/// Simulation ticks per second.
pub const TICKS_PER_SECOND: i64 = 60;

pub open spec fn in_limit(v: int) -> bool {
    -COORD_LIMIT <= v <= COORD_LIMIT
}

/// `n` limited to `lower ..= upper`; the upper bound wins when the bounds cross.
pub open spec fn clamp_spec(lower: int, upper: int, n: int) -> int {
    if upper < n {
        upper
    } else if lower > n {
        lower
    } else {
        n
    }
}

#[verifier::when_used_as_spec(clamp_spec_i64)]
pub fn clamp(lower: i64, upper: i64, n: i64) -> (r: i64)
    ensures
        r == clamp_spec(lower as int, upper as int, n as int),
{
    if upper < n {
        return upper;
    } else if lower > n {
        return lower;
    }
    n
}

pub open spec fn clamp_spec_i64(lower: i64, upper: i64, n: i64) -> i64 {
    if upper < n {
        upper
    } else if lower > n {
        lower
    } else {
        n
    }
}

/// `v` limited to the coordinate range.
pub open spec fn saturate(v: int) -> int {
    clamp_spec(-COORD_LIMIT as int, COORD_LIMIT as int, v)
}

/// Sum of two in-range values, saturated to the coordinate range.
pub fn saturating_sum(a: i64, b: i64) -> (r: i64)
    requires
        in_limit(a as int),
        in_limit(b as int),
    ensures
        r == saturate(a + b),
        in_limit(r as int),
{
    clamp(-COORD_LIMIT, COORD_LIMIT, a + b)
}

/// Quotient rounded toward zero.
pub open spec fn div_toward_zero(v: int, d: int) -> int
    recommends
        d > 0,
{
    if v >= 0 {
        v / d
    } else {
        -((-v) / d)
    }
}

/// The change that a rate of `v` per second makes in one tick.
pub open spec fn per_tick(v: int) -> int {
    div_toward_zero(v, TICKS_PER_SECOND as int)
}

pub proof fn lemma_div_toward_zero_bounds(v: int, d: int)
    requires
        d > 0,
    ensures
        v >= 0 ==> 0 <= div_toward_zero(v, d) <= v,
        v <= 0 ==> v <= div_toward_zero(v, d) <= 0,
{
    if v >= 0 {
        assert(0 <= v / d <= v) by (nonlinear_arith)
            requires
                v >= 0,
                d > 0,
        ;
    } else {
        let n: int = -v;
        assert(0 <= n / d <= n) by (nonlinear_arith)
            requires
                n >= 0,
                d > 0,
        ;
    }
}

pub fn rate_per_tick(v: i64) -> (r: i64)
    requires
        in_limit(v as int),
    ensures
        r == per_tick(v as int),
        in_limit(r as int),
{
    proof {
        lemma_div_toward_zero_bounds(v as int, TICKS_PER_SECOND as int);
    }
    v / TICKS_PER_SECOND
}

/// `v * num / den`, rounded toward zero.
pub open spec fn scaled(v: int, num: int, den: int) -> int {
    div_toward_zero(v * num, den)
}

/// Scales an in-range value by a fraction `num / den` that is at most one.
pub fn scale(v: i64, num: i64, den: i64) -> (r: i64)
    requires
        in_limit(v as int),
        0 <= num <= den <= 1000,
        den > 0,
    ensures
        r == scaled(v as int, num as int, den as int),
        in_limit(r as int),
{
    proof {
        let p: int = v * num;
        assert(-COORD_LIMIT * 1000 <= p <= COORD_LIMIT * 1000 && (v >= 0 ==> 0 <= p <= v * den)
            && (v <= 0 ==> v * den <= p <= 0)) by (nonlinear_arith)
            requires
                p == v * num,
                -COORD_LIMIT <= v <= COORD_LIMIT,
                0 <= num <= den <= 1000,
        ;
        lemma_scaled_bounds(v as int, num as int, den as int);
    }
    v * num / den
}

pub proof fn lemma_scaled_bounds(v: int, num: int, den: int)
    requires
        0 <= num <= den,
        den > 0,
    ensures
        v >= 0 ==> 0 <= scaled(v, num, den) <= v,
        v <= 0 ==> v <= scaled(v, num, den) <= 0,
{
    let p: int = v * num;
    if v >= 0 {
        assert(0 <= p / den <= v) by (nonlinear_arith)
            requires
                p == v * num,
                v >= 0,
                0 <= num <= den,
                den > 0,
        ;
    } else {
        let w: int = -v;
        let n: int = w * num;
        assert(n == -p) by (nonlinear_arith)
            requires
                n == w * num,
                p == v * num,
                w == -v,
        ;
        assert(n >= 0 && 0 <= n / den <= w) by (nonlinear_arith)
            requires
                n == w * num,
                w >= 0,
                0 <= num <= den,
                den > 0,
        ;
    }
}

#[derive(Clone, Copy, Debug, PartialEq, Eq, Structural)]
pub struct Point2 {
    pub x: WorldCoord,
    pub y: WorldCoord,
}

#[derive(Clone, Copy, Debug, PartialEq, Eq, Structural)]
pub struct Vector2 {
    pub x: WorldCoord,
    pub y: WorldCoord,
}

impl Point2 {
    pub open spec fn wf(self) -> bool {
        in_limit(self.x as int) && in_limit(self.y as int)
    }

    pub fn new(x: WorldCoord, y: WorldCoord) -> (p: Point2)
        ensures
            p == (Point2 { x, y }),
    {
        Point2 { x, y }
    }
}

impl Vector2 {
    pub open spec fn wf(self) -> bool {
        in_limit(self.x as int) && in_limit(self.y as int)
    }

    pub fn new(x: WorldCoord, y: WorldCoord) -> (v: Vector2)
        ensures
            v == (Vector2 { x, y }),
    {
        Vector2 { x, y }
    }
}

/// An axis-aligned rectangle given by its corner of least `x` and `y` and its
/// extent.
#[derive(Clone, Copy, Debug, PartialEq, Eq, Structural)]
pub struct Rect {
    pub x: WorldCoord,
    pub y: WorldCoord,
    pub w: WorldCoord,
    pub h: WorldCoord,
}

impl Rect {
    /// A rectangle that may move: its extent is non-negative and within the
    /// coordinate limit, its corner within four times the limit.
    pub open spec fn wf(self) -> bool {
        &&& -4 * COORD_LIMIT <= self.x <= 4 * COORD_LIMIT
        &&& -4 * COORD_LIMIT <= self.y <= 4 * COORD_LIMIT
        &&& 0 <= self.w <= COORD_LIMIT
        &&& 0 <= self.h <= COORD_LIMIT
    }

    /// A rectangle that may stand as an obstacle: well formed, with its corner
    /// within twice the coordinate limit.
    pub open spec fn collider_wf(self) -> bool {
        &&& self.wf()
        &&& -2 * COORD_LIMIT <= self.x <= 2 * COORD_LIMIT
        &&& -2 * COORD_LIMIT <= self.y <= 2 * COORD_LIMIT
    }

    pub open spec fn left(self) -> int {
        self.x as int
    }

    pub open spec fn right(self) -> int {
        self.x + self.w
    }

    pub open spec fn top(self) -> int {
        self.y as int
    }

    pub open spec fn bottom(self) -> int {
        self.y + self.h
    }

    /// Two rectangles overlap when their extents meet on both axes; touching
    /// edges count.
    pub open spec fn spec_overlaps(&self, other: &Rect) -> bool {
        &&& self.left() <= other.right()
        &&& self.right() >= other.left()
        &&& self.top() <= other.bottom()
        &&& self.bottom() >= other.top()
    }

    #[verifier::when_used_as_spec(spec_overlaps)]
    pub fn overlaps(&self, other: &Rect) -> (b: bool)
        requires
            self.wf(),
            other.wf(),
        ensures
            b == self.spec_overlaps(other),
    {
        self.x <= other.x + other.w && self.x + self.w >= other.x && self.y <= other.y + other.h
            && self.y + self.h >= other.y
    }

    /// The rectangle moved by `(dx, dy)`.
    pub open spec fn shifted(self, dx: int, dy: int) -> Rect {
        Rect { x: (self.x + dx) as i64, y: (self.y + dy) as i64, w: self.w, h: self.h }
    }
}

/// The rectangle of extent `w` by `h` whose least corner is `point`.
pub fn rect_from_point(point: Point2, w: WorldCoord, h: WorldCoord) -> (r: Rect)
    ensures
        r == (Rect { x: point.x, y: point.y, w, h }),
{
    Rect { x: point.x, y: point.y, w, h }
}

} // verus!
