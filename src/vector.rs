//! Two-dimensional vectors with whole-number coordinates.
use vstd::prelude::*;

verus! {

/// Bound on the magnitude of each coordinate that the operations take.
pub const COORD_BOUND: i64 = 0x4000_0000;

#[derive(Debug, PartialEq, Eq, Structural, Clone, Copy)]
pub struct Vector2 {
    pub x: i64,
    pub y: i64,
}

pub open spec fn abs(v: int) -> int {
    if v < 0 {
        -v
    } else {
        v
    }
}

/// `n / d` rounded toward zero.
pub open spec fn tdiv(n: int, d: int) -> int {
    if n >= 0 {
        n / d
    } else {
        -((-n) / d)
    }
}

pub open spec fn dot_spec(a: Vector2, b: Vector2) -> int {
    a.x * b.x + a.y * b.y
}

/// The part of `v` along `axis`, each coordinate rounded toward zero.
pub open spec fn para_spec(v: Vector2, axis: Vector2) -> Vector2 {
    Vector2 {
        x: tdiv(axis.x * dot_spec(v, axis), dot_spec(axis, axis)) as i64,
        y: tdiv(axis.y * dot_spec(v, axis), dot_spec(axis, axis)) as i64,
    }
}

proof fn lemma_proj_bound(vx: int, vy: int, ax: int, ay: int, b: int)
    requires
        abs(vx) <= b,
        abs(vy) <= b,
    ensures
        abs(ax * (vx * ax + vy * ay)) <= 2 * b * (ax * ax + ay * ay),
{
    assert(abs(vx * (ax * ax)) <= b * (ax * ax)) by (nonlinear_arith)
        requires
            abs(vx) <= b,
    ;
    assert(2 * abs(ax * ay) <= ax * ax + ay * ay) by (nonlinear_arith);
    assert(abs(vy * (ax * ay)) <= b * abs(ax * ay)) by (nonlinear_arith)
        requires
            abs(vy) <= b,
    ;
    assert(b * abs(ax * ay) <= b * (ax * ax + ay * ay)) by (nonlinear_arith)
        requires
            2 * abs(ax * ay) <= ax * ax + ay * ay,
            b >= 0,
    ;
    assert(ax * (vx * ax + vy * ay) == vx * (ax * ax) + vy * (ax * ay)) by (nonlinear_arith);
    assert(b * (ax * ax) <= b * (ax * ax + ay * ay)) by (nonlinear_arith)
        requires
            b >= 0,
    ;
    let x = vx * (ax * ax);
    let y = vy * (ax * ay);
    let s = ax * ax + ay * ay;
    assert(abs(x + y) <= abs(x) + abs(y));
    assert(abs(x + y) <= b * s + b * s);
    assert(2 * b * s == b * s + b * s) by (nonlinear_arith);
}

proof fn lemma_tdiv_bound(n: int, d: int, k: int)
    requires
        d > 0,
        k >= 0,
        abs(n) <= k * d,
    ensures
        abs(tdiv(n, d)) <= k,
{
    if n >= 0 {
        assert(n / d <= k) by (nonlinear_arith)
            requires
                0 <= n <= k * d,
                d > 0,
        ;
        assert(n / d >= 0) by (nonlinear_arith)
            requires
                0 <= n,
                d > 0,
        ;
    } else {
        assert((-n) / d <= k) by (nonlinear_arith)
            requires
                0 <= -n <= k * d,
                d > 0,
        ;
        assert((-n) / d >= 0) by (nonlinear_arith)
            requires
                0 <= -n,
                d > 0,
        ;
    }
}

impl Vector2 {
    pub open spec fn small(&self) -> bool {
        abs(self.x as int) <= COORD_BOUND && abs(self.y as int) <= COORD_BOUND
    }

    pub fn new(x: i64, y: i64) -> (r: Self)
        ensures
            r.x == x && r.y == y,
    {
        Vector2 { x, y }
    }

    pub fn empty() -> (r: Self)
        ensures
            r.x == 0 && r.y == 0,
    {
        Vector2 { x: 0, y: 0 }
    }

    pub fn is_zero(&self) -> (r: bool)
        ensures
            r == (self.x == 0 && self.y == 0),
    {
        self.x == 0 && self.y == 0
    }

    pub fn add(&self, o: &Vector2) -> (r: Vector2)
        requires
            self.small(),
            o.small(),
        ensures
            r.x == self.x + o.x && r.y == self.y + o.y,
    {
        Vector2 { x: self.x + o.x, y: self.y + o.y }
    }

    pub fn sub(&self, o: &Vector2) -> (r: Vector2)
        requires
            self.small(),
            o.small(),
        ensures
            r.x == self.x - o.x && r.y == self.y - o.y,
    {
        Vector2 { x: self.x - o.x, y: self.y - o.y }
    }

    /// The vector turned a quarter turn: (x, y) becomes (-y, x).
    pub fn perpendicular(&self) -> (r: Vector2)
        requires
            self.small(),
        ensures
            r.x == -self.y && r.y == self.x,
    {
        Vector2 { x: -self.y, y: self.x }
    }

    pub fn dot(&self, o: &Vector2) -> (r: i128)
        requires
            self.small(),
            o.small(),
        ensures
            r == dot_spec(*self, *o),
    {
        proof {
            let (a, b, c, d) = (self.x as int, self.y as int, o.x as int, o.y as int);
            assert(abs(a * c) <= COORD_BOUND * COORD_BOUND && abs(b * d) <= COORD_BOUND * COORD_BOUND) by (nonlinear_arith)
                requires
                    abs(a) <= COORD_BOUND,
                    abs(b) <= COORD_BOUND,
                    abs(c) <= COORD_BOUND,
                    abs(d) <= COORD_BOUND,
            ;
        }
        self.x as i128 * o.x as i128 + self.y as i128 * o.y as i128
    }

    /// The square of the length.
    pub fn magnitude_squared(&self) -> (r: i128)
        requires
            self.small(),
        ensures
            r == dot_spec(*self, *self),
    {
        self.dot(self)
    }

    /// Splits the vector into its part along `axis` and the rest, the
    /// part along the axis rounded toward zero in each coordinate.
    pub fn cut(&self, axis: &Vector2) -> (r: (Vector2, Vector2))
        requires
            self.small(),
            axis.small(),
            !(axis.x == 0 && axis.y == 0),
        ensures
            r.0 == para_spec(*self, *axis),
            r.1.x == self.x - r.0.x && r.1.y == self.y - r.0.y,
            abs(r.0.x as int) <= 2 * COORD_BOUND && abs(r.0.y as int) <= 2 * COORD_BOUND,
    {
        let d: i128 = self.dot(axis);
        let aa: i128 = axis.dot(axis);
        proof {
            let (ax, ay) = (axis.x as int, axis.y as int);
            assert(aa > 0) by (nonlinear_arith)
                requires
                    aa == ax * ax + ay * ay,
                    !(ax == 0 && ay == 0),
            ;
            let (vx, vy) = (self.x as int, self.y as int);
            let bb = COORD_BOUND as int;
            assert(abs(vx * ax) <= bb * bb && abs(vy * ay) <= bb * bb) by (nonlinear_arith)
                requires
                    abs(vx) <= bb,
                    abs(vy) <= bb,
                    abs(ax) <= bb,
                    abs(ay) <= bb,
            ;
            assert(d == vx * ax + vy * ay);
            assert(abs(d as int) <= 2 * bb * bb);
            assert(abs(ax * d) <= 2 * bb * bb * bb && abs(ay * d) <= 2 * bb * bb * bb) by (nonlinear_arith)
                requires
                    abs(ax) <= bb,
                    abs(ay) <= bb,
                    abs(d as int) <= 2 * bb * bb,
            ;
            lemma_proj_bound(vx, vy, ax, ay, bb);
            lemma_proj_bound(vy, vx, ay, ax, bb);
            assert(ay * (vy * ay + vx * ax) == ay * d) by (nonlinear_arith)
                requires
                    d == vx * ax + vy * ay,
            ;
            assert(ax * (vx * ax + vy * ay) == ax * d);
            assert(ay * ay + ax * ax == aa);
            lemma_tdiv_bound(ax * d, aa as int, 2 * COORD_BOUND);
            lemma_tdiv_bound(ay * d, aa as int, 2 * COORD_BOUND);
        }
        let nx: i128 = axis.x as i128 * d;
        let ny: i128 = axis.y as i128 * d;
        let px: i128 = if nx >= 0 { nx / aa } else { -((-nx) / aa) };
        let py: i128 = if ny >= 0 { ny / aa } else { -((-ny) / aa) };
        let para = Vector2 { x: px as i64, y: py as i64 };
        let perp = Vector2 { x: self.x - para.x, y: self.y - para.y };
        (para, perp)
    }
}

} // verus!
