//! Oriented boxes and their collision test by separating axes, in whole
//! numbers. A box has a center, a width and a height in world units, and
//! its rotation as the unit vector `(cos a, sin a)` scaled by `UNIT`.
//! Corner positions are computed exactly in units of `1 / (2 * UNIT)`.
use vstd::prelude::*;

verus! {

pub const UNIT: i64 = 65536;

/// Bound on centers and sizes, in world units.
pub const SHAPE_BOUND: i64 = 0x100_0000;

#[derive(Debug, PartialEq, Eq, Structural, Clone, Copy)]
pub struct BoxShape {
    pub x: i64,
    pub y: i64,
    pub w: i64,
    pub h: i64,
    pub ux: i64,
    pub uy: i64,
}

/// A direction to push along: one of the boxes' axes, and the signed
/// distance along it in projection units.
#[derive(Debug, PartialEq, Eq, Structural, Clone, Copy)]
pub struct Mtv {
    pub ax: i64,
    pub ay: i64,
    pub amount: i128,
}

pub open spec fn iabs(v: int) -> int {
    if v < 0 { -v } else { v }
}

/// Corner `i` (0 to 3) of `b`, scaled by `2 * UNIT`.
pub open spec fn corner(b: BoxShape, i: int) -> (int, int) {
    let sx: int = if i % 2 == 0 { -1 } else { 1 };
    let sy: int = if i / 2 == 0 { -1 } else { 1 };
    (
        2 * UNIT * b.x + sx * b.w * b.ux - sy * b.h * b.uy,
        2 * UNIT * b.y + sx * b.w * b.uy + sy * b.h * b.ux,
    )
}

/// Corner `i` of `b` projected on the axis `(ax, ay)`.
pub open spec fn proj(b: BoxShape, i: int, ax: int, ay: int) -> int {
    corner(b, i).0 * ax + corner(b, i).1 * ay
}

pub open spec fn min2(a: int, b: int) -> int {
    if a < b { a } else { b }
}

pub open spec fn max2(a: int, b: int) -> int {
    if a > b { a } else { b }
}

/// The least projection of a corner of `b` on the axis.
pub open spec fn lo(b: BoxShape, ax: int, ay: int) -> int {
    min2(min2(proj(b, 0, ax, ay), proj(b, 1, ax, ay)), min2(proj(b, 2, ax, ay), proj(b, 3, ax, ay)))
}

/// The greatest projection of a corner of `b` on the axis.
pub open spec fn hi(b: BoxShape, ax: int, ay: int) -> int {
    max2(max2(proj(b, 0, ax, ay), proj(b, 1, ax, ay)), max2(proj(b, 2, ax, ay), proj(b, 3, ax, ay)))
}

/// Whether the axis separates `a` from `b`: their projections at most touch.
pub open spec fn separated(a: BoxShape, b: BoxShape, ax: int, ay: int) -> bool {
    lo(a, ax, ay) >= hi(b, ax, ay) || hi(a, ax, ay) <= lo(b, ax, ay)
}

/// Axis `k` (0 to 3) of the pair: the two axes of `a`, then those of `b`.
pub open spec fn axis(a: BoxShape, b: BoxShape, k: int) -> (int, int) {
    if k == 0 {
        (a.ux as int, a.uy as int)
    } else if k == 1 {
        (-a.uy, a.ux as int)
    } else if k == 2 {
        (b.ux as int, b.uy as int)
    } else {
        (-b.uy, b.ux as int)
    }
}

/// Whether the worst-case boxes of `a` and `b` overlap: each box grown to
/// an unrotated square of side `w + h` about its center.
pub open spec fn worst_overlap(a: BoxShape, b: BoxShape) -> bool {
    let la = a.w + a.h;
    let lb = b.w + b.h;
    &&& 2 * a.x - la < 2 * b.x + lb
    &&& 2 * a.x + la > 2 * b.x - lb
    &&& 2 * a.y - la < 2 * b.y + lb
    &&& 2 * a.y + la > 2 * b.y - lb
}

/// Whether `a` and `b` intersect: their worst-case boxes overlap and none
/// of the four axes separates them.
pub open spec fn hit_spec(a: BoxShape, b: BoxShape) -> bool {
    worst_overlap(a, b) && forall|k: int| 0 <= k < 4 ==> !separated(a, b, #[trigger] axis(a, b, k).0, axis(a, b, k).1)
}

/// The push out along an axis that does not separate the boxes: the smaller
/// of moving `a` forward past `b` or backward past it; forward when the two
/// are equal in size is not taken, backward is.
pub open spec fn push(a: BoxShape, b: BoxShape, ax: int, ay: int) -> int {
    let m_low = lo(a, ax, ay) - hi(b, ax, ay);
    let m_high = hi(a, ax, ay) - lo(b, ax, ay);
    -(if iabs(m_low) < iabs(m_high) { m_low } else { m_high })
}

impl BoxShape {
    pub open spec fn wf(&self) -> bool {
        &&& -SHAPE_BOUND <= self.x <= SHAPE_BOUND
        &&& -SHAPE_BOUND <= self.y <= SHAPE_BOUND
        &&& 0 <= self.w <= SHAPE_BOUND
        &&& 0 <= self.h <= SHAPE_BOUND
        &&& -UNIT <= self.ux <= UNIT
        &&& -UNIT <= self.uy <= UNIT
    }

    /// An unrotated box spanning from `(x1, y1)` to `(x2, y2)`, centered at
    /// the midpoint rounded down.
    pub fn from_corners(x1: i64, y1: i64, x2: i64, y2: i64) -> (r: BoxShape)
        requires
            0 <= x1 <= x2 <= SHAPE_BOUND,
            0 <= y1 <= y2 <= SHAPE_BOUND,
        ensures
            r.wf(),
            r.x == (x1 + x2) / 2 && r.y == (y1 + y2) / 2 && r.w == x2 - x1 && r.h == y2 - y1 && r.ux == UNIT && r.uy == 0,
    {
        BoxShape { x: (x1 + x2) / 2, y: (y1 + y2) / 2, w: x2 - x1, h: y2 - y1, ux: UNIT, uy: 0 }
    }

    /// The box grown by `amount` in width and in height.
    pub fn bigger(&self, amount: i64) -> (r: BoxShape)
        requires
            self.wf(),
            0 <= amount,
            self.w + amount <= SHAPE_BOUND,
            self.h + amount <= SHAPE_BOUND,
        ensures
            r.wf(),
            r.w == self.w + amount && r.h == self.h + amount && r.x == self.x && r.y == self.y && r.ux == self.ux && r.uy == self.uy,
    {
        BoxShape { w: self.w + amount, h: self.h + amount, ..*self }
    }

    /// Whether the worst-case boxes of the two overlap.
    pub fn worst_overlaps(&self, other: &BoxShape) -> (r: bool)
        requires
            self.wf(),
            other.wf(),
        ensures
            r == worst_overlap(*self, *other),
    {
        let la = self.w + self.h;
        let lb = other.w + other.h;
        2 * self.x - la < 2 * other.x + lb && 2 * self.x + la > 2 * other.x - lb && 2 * self.y - la < 2
            * other.y + lb && 2 * self.y + la > 2 * other.y - lb
    }

    fn corner(&self, i: usize) -> (r: (i128, i128))
        requires
            self.wf(),
            i < 4,
        ensures
            r.0 == corner(*self, i as int).0,
            r.1 == corner(*self, i as int).1,
            iabs(r.0 as int) <= 0x100_0000_0000_0000,
            iabs(r.1 as int) <= 0x100_0000_0000_0000,
    {
        let sx: i128 = if i % 2 == 0 { -1 } else { 1 };
        let sy: i128 = if i / 2 == 0 { -1 } else { 1 };
        let (x, y, w, h, ux, uy) = (self.x as i128, self.y as i128, self.w as i128, self.h as i128, self.ux as i128, self.uy as i128);
        proof {
            lemma_mul_bounded(w as int, ux as int, SHAPE_BOUND as int, UNIT as int);
            lemma_mul_bounded(w as int, uy as int, SHAPE_BOUND as int, UNIT as int);
            lemma_mul_bounded(h as int, ux as int, SHAPE_BOUND as int, UNIT as int);
            lemma_mul_bounded(h as int, uy as int, SHAPE_BOUND as int, UNIT as int);
            assert(iabs(sx * (w * ux)) == iabs(w * ux) && iabs(sy * (h * uy)) == iabs(h * uy)) by (nonlinear_arith)
                requires
                    sx == 1 || sx == -1,
                    sy == 1 || sy == -1,
            ;
            assert(iabs(sx * (w * uy)) == iabs(w * uy) && iabs(sy * (h * ux)) == iabs(h * ux)) by (nonlinear_arith)
                requires
                    sx == 1 || sx == -1,
                    sy == 1 || sy == -1,
            ;
            assert(sx * w * ux == sx * (w * ux) && sy * h * uy == sy * (h * uy) && sx * w * uy == sx * (w * uy) && sy * h * ux == sy * (h * ux)) by (nonlinear_arith);
            lemma_mul_bounded(2 * UNIT, x as int, 2 * UNIT, SHAPE_BOUND as int);
            lemma_mul_bounded(2 * UNIT, y as int, 2 * UNIT, SHAPE_BOUND as int);
        }
        let cx = 2 * (UNIT as i128) * x + sx * (w * ux) - sy * (h * uy);
        let cy = 2 * (UNIT as i128) * y + sx * (w * uy) + sy * (h * ux);
        (cx, cy)
    }

    /// The least and greatest projections of the corners on an axis.
    fn dotrange(&self, ax: i64, ay: i64) -> (r: (i128, i128))
        requires
            self.wf(),
            -UNIT <= ax <= UNIT,
            -UNIT <= ay <= UNIT,
        ensures
            r.0 == lo(*self, ax as int, ay as int),
            r.1 == hi(*self, ax as int, ay as int),
            iabs(r.0 as int) <= 0x4000_0000_0000_0000_0000,
            iabs(r.1 as int) <= 0x4000_0000_0000_0000_0000,
    {
        let proj0 = self.project(0, ax, ay);
        let proj1 = self.project(1, ax, ay);
        let proj2 = self.project(2, ax, ay);
        let proj3 = self.project(3, ax, ay);
        let a = if proj0 < proj1 { proj0 } else { proj1 };
        let b = if proj2 < proj3 { proj2 } else { proj3 };
        let c = if proj0 > proj1 { proj0 } else { proj1 };
        let d = if proj2 > proj3 { proj2 } else { proj3 };
        (if a < b { a } else { b }, if c > d { c } else { d })
    }

    fn project(&self, i: usize, ax: i64, ay: i64) -> (r: i128)
        requires
            self.wf(),
            i < 4,
            -UNIT <= ax <= UNIT,
            -UNIT <= ay <= UNIT,
        ensures
            r == proj(*self, i as int, ax as int, ay as int),
            iabs(r as int) <= 0x4000_0000_0000_0000_0000,
    {
        let (cx, cy) = self.corner(i);
        proof {
            lemma_mul_bounded(cx as int, ax as int, 0x100_0000_0000_0000, UNIT as int);
            lemma_mul_bounded(cy as int, ay as int, 0x100_0000_0000_0000, UNIT as int);
        }
        cx * (ax as i128) + cy * (ay as i128)
    }

    /// Whether the two boxes intersect, and if so the smallest push that
    /// moves `self` out of `other`, found by separating axes. Boxes whose
    /// worst-case boxes do not overlap never intersect.
    pub fn intersects(&self, other: &BoxShape) -> (r: (bool, Mtv))
        requires
            self.wf(),
            other.wf(),
        ensures
            r.0 == hit_spec(*self, *other),
            !worst_overlap(*self, *other) ==> !r.0,
            !r.0 ==> r.1 == (Mtv { ax: 0, ay: 0, amount: 0 }),
            r.0 ==> r.1.amount != 0 && exists|k: int| 0 <= k < 4 && (#[trigger] axis(*self, *other, k)) == (r.1.ax as int, r.1.ay as int)
                && r.1.amount == push(*self, *other, r.1.ax as int, r.1.ay as int)
                && (forall|j: int| 0 <= j < 4 ==> iabs(r.1.amount as int) <= iabs(#[trigger] push(*self, *other, axis(*self, *other, j).0, axis(*self, *other, j).1)))
                && (forall|j: int| 0 <= j < k ==> iabs(r.1.amount as int) < iabs(#[trigger] push(*self, *other, axis(*self, *other, j).0, axis(*self, *other, j).1))),
    {
        let none = Mtv { ax: 0, ay: 0, amount: 0 };
        if !self.worst_overlaps(other) {
            return (false, none);
        }
        let axes: [(i64, i64); 4] = [(self.ux, self.uy), (-self.uy, self.ux), (other.ux, other.uy), (-other.uy, other.ux)];
        let mut best = none;
        let ghost mut best_k: int = 0;
        let mut k: usize = 0;
        while k < 4
            invariant
                self.wf(),
                other.wf(),
                worst_overlap(*self, *other),
                k <= 4,
                none == (Mtv { ax: 0, ay: 0, amount: 0 }),
                iabs(best.amount as int) <= 0x8000_0000_0000_0000_0000,
                forall|j: int| 0 <= j < 4 ==> (#[trigger] axes@[j]).0 as int == axis(*self, *other, j).0 && axes@[j].1 as int == axis(*self, *other, j).1,
                forall|j: int| 0 <= j < k ==> !separated(*self, *other, #[trigger] axis(*self, *other, j).0, axis(*self, *other, j).1),
                k == 0 ==> best == none,
                k > 0 ==> {
                    &&& 0 <= best_k < k
                    &&& best.ax as int == axis(*self, *other, best_k).0
                    &&& best.ay as int == axis(*self, *other, best_k).1
                    &&& best.amount == push(*self, *other, best.ax as int, best.ay as int)
                    &&& best.amount != 0
                    &&& forall|j: int| 0 <= j < k ==> iabs(best.amount as int) <= iabs(#[trigger] push(*self, *other, axis(*self, *other, j).0, axis(*self, *other, j).1))
                    &&& forall|j: int| 0 <= j < best_k ==> iabs(best.amount as int) < iabs(#[trigger] push(*self, *other, axis(*self, *other, j).0, axis(*self, *other, j).1))
                },
            decreases 4 - k,
        {
            let (ax, ay) = axes[k];
            proof {
                assert(axes@[k as int].0 as int == axis(*self, *other, k as int).0);
            }
            let (me_lo, me_hi) = self.dotrange(ax, ay);
            let (them_lo, them_hi) = other.dotrange(ax, ay);
            if me_lo >= them_hi || me_hi <= them_lo {
                proof {
                    assert(separated(*self, *other, axis(*self, *other, k as int).0, axis(*self, *other, k as int).1));
                    assert(!hit_spec(*self, *other));
                }
                return (false, none);
            }
            let m_low = me_lo - them_hi;
            let m_high = me_hi - them_lo;
            let abs_low = if m_low < 0 { -m_low } else { m_low };
            let abs_high = if m_high < 0 { -m_high } else { m_high };
            let choice = if abs_low < abs_high { -m_low } else { -m_high };
            let abs_best = if best.amount < 0 { -best.amount } else { best.amount };
            let abs_choice = if choice < 0 { -choice } else { choice };
            if k == 0 || abs_choice < abs_best {
                best = Mtv { ax, ay, amount: choice };
                proof {
                    best_k = k as int;
                }
            }
            k = k + 1;
        }
        proof {
            assert(hit_spec(*self, *other));
        }
        (true, best)
    }
}

/// Whether the point `(px, py)` lies strictly inside `b`: turned back by
/// the box's rotation about its center, it is within half the width and
/// half the height of the center.
pub open spec fn contains_spec(b: BoxShape, px: int, py: int) -> bool {
    let dx = px - b.x;
    let dy = py - b.y;
    let along = dx * b.ux + dy * b.uy;
    let across = -dx * b.uy + dy * b.ux;
    &&& -b.w * UNIT < 2 * along < b.w * UNIT
    &&& -b.h * UNIT < 2 * across < b.h * UNIT
}

impl BoxShape {
    pub fn contains(&self, px: i64, py: i64) -> (r: bool)
        requires
            self.wf(),
            -SHAPE_BOUND <= px <= SHAPE_BOUND,
            -SHAPE_BOUND <= py <= SHAPE_BOUND,
        ensures
            r == contains_spec(*self, px as int, py as int),
    {
        let dx = (px - self.x) as i128;
        let dy = (py - self.y) as i128;
        let (ux, uy) = (self.ux as i128, self.uy as i128);
        proof {
            lemma_mul_bounded(dx as int, ux as int, 2 * SHAPE_BOUND, UNIT as int);
            lemma_mul_bounded(dy as int, uy as int, 2 * SHAPE_BOUND, UNIT as int);
            lemma_mul_bounded(dx as int, uy as int, 2 * SHAPE_BOUND, UNIT as int);
            lemma_mul_bounded(dy as int, ux as int, 2 * SHAPE_BOUND, UNIT as int);
            lemma_mul_bounded(self.w as int, UNIT as int, SHAPE_BOUND as int, UNIT as int);
            lemma_mul_bounded(self.h as int, UNIT as int, SHAPE_BOUND as int, UNIT as int);
            assert(-dx * uy == -(dx * uy)) by (nonlinear_arith);
        }
        let along = dx * ux + dy * uy;
        let across = -(dx * uy) + dy * ux;
        let w = self.w as i128 * UNIT as i128;
        let h = self.h as i128 * UNIT as i128;
        -w < 2 * along && 2 * along < w && -h < 2 * across && 2 * across < h
    }
}

/// Cell `(cx, cy)` of a grid of cells of side `size`.
pub open spec fn cell(cx: int, cy: int, size: int) -> BoxShape {
    BoxShape {
        x: ((cx * size + (cx + 1) * size) / 2) as i64,
        y: ((cy * size + (cy + 1) * size) / 2) as i64,
        w: size as i64,
        h: size as i64,
        ux: UNIT,
        uy: 0,
    }
}

/// `zs` is what `zone_check` gives for `shape` on an `n` by `n` grid of
/// cells of side `size`: exactly the cells the shape meets, each once, by
/// column and then by row.
pub open spec fn zoned(zs: Seq<usize>, shape: BoxShape, size: int, n: int) -> bool {
    &&& forall|k: int| 0 <= k < zs.len() ==> {
        &&& #[trigger] zs[k] < n * n
        &&& hit_spec(cell(zs[k] as int % n, zs[k] as int / n, size), shape)
    }
    &&& forall|cx: int, cy: int| 0 <= cx < n && 0 <= cy < n && #[trigger] hit_spec(cell(cx, cy, size), shape)
        ==> zs.contains((cx + cy * n) as usize)
    &&& forall|i: int, j: int| 0 <= i < j < zs.len() ==> cell_before(zs[i] as int, zs[j] as int, n)
}

/// Whether cell index `a` comes before `b` when cells are walked by
/// column, then by row within a column.
pub open spec fn cell_before(a: int, b: int, n: int) -> bool {
    a % n < b % n || (a % n == b % n && a / n < b / n)
}

/// The cells of an `n` by `n` grid of cells of side `size` that `shape`
/// intersects, each as `cx + cy * n`, each once, by column and then by row.
pub fn zone_check(shape: &BoxShape, size: i64, n: usize) -> (r: Vec<usize>)
    requires
        shape.wf(),
        1 <= n <= 1024,
        0 <= size,
        n * size <= SHAPE_BOUND,
    ensures
        forall|k: int| 0 <= k < r@.len() ==> {
            &&& #[trigger] r@[k] < n * n
            &&& hit_spec(cell((r@[k] % n) as int, (r@[k] / n) as int, size as int), *shape)
        },
        forall|cx: int, cy: int| 0 <= cx < n && 0 <= cy < n && #[trigger] hit_spec(cell(cx, cy, size as int), *shape)
            ==> r@.contains((cx + cy * n) as usize),
        forall|i: int, j: int| 0 <= i < j < r@.len() ==> cell_before(r@[i] as int, r@[j] as int, n as int),
        forall|i: int, j: int| 0 <= i < j < r@.len() ==> r@[i] != r@[j],
        zoned(r@, *shape, size as int, n as int),
{
    let mut r: Vec<usize> = Vec::new();
    let mut x: usize = 0;
    while x < n
        invariant
            shape.wf(),
            1 <= n <= 1024,
            0 <= size,
            n * size <= SHAPE_BOUND,
            x <= n,
            forall|k: int| 0 <= k < r@.len() ==> {
                &&& #[trigger] r@[k] < n * n
                &&& hit_spec(cell((r@[k] % n) as int, (r@[k] / n) as int, size as int), *shape)
            },
            forall|cx: int, cy: int| 0 <= cx < x && 0 <= cy < n && #[trigger] hit_spec(cell(cx, cy, size as int), *shape)
                ==> r@.contains((cx + cy * n) as usize),
            forall|i: int, j: int| 0 <= i < j < r@.len() ==> cell_before(r@[i] as int, r@[j] as int, n as int),
            forall|k: int| 0 <= k < r@.len() ==> (#[trigger] r@[k]) % n < x,
        decreases n - x,
    {
        let mut y: usize = 0;
        while y < n
            invariant
                shape.wf(),
                1 <= n <= 1024,
                0 <= size,
                n * size <= SHAPE_BOUND,
                x < n,
                y <= n,
                forall|k: int| 0 <= k < r@.len() ==> {
                    &&& #[trigger] r@[k] < n * n
                    &&& hit_spec(cell((r@[k] % n) as int, (r@[k] / n) as int, size as int), *shape)
                },
                forall|cx: int, cy: int| 0 <= cx < x && 0 <= cy < n && #[trigger] hit_spec(cell(cx, cy, size as int), *shape)
                    ==> r@.contains((cx + cy * n) as usize),
                forall|cy: int| 0 <= cy < y && #[trigger] hit_spec(cell(x as int, cy, size as int), *shape)
                    ==> r@.contains((x + cy * n) as usize),
                forall|i: int, j: int| 0 <= i < j < r@.len() ==> cell_before(r@[i] as int, r@[j] as int, n as int),
                forall|k: int| 0 <= k < r@.len() ==> (#[trigger] r@[k]) % n < x || (r@[k] % n == x && r@[k] / n < y),
            decreases n - y,
        {
            proof {
                assert((x + 1) * size <= n * size && (y + 1) * size <= n * size) by (nonlinear_arith)
                    requires
                        x < n,
                        y < n,
                        0 <= size,
                ;
                assert(x * size <= (x + 1) * size && y * size <= (y + 1) * size) by (nonlinear_arith)
                    requires
                        0 <= size,
                ;
                assert(0 <= x * size && 0 <= y * size) by (nonlinear_arith)
                    requires
                        0 <= size,
                ;
                assert(x + y * n < n * n) by (nonlinear_arith)
                    requires
                        x < n,
                        y < n,
                ;
                assert((x + 1) * size - x * size == size && (y + 1) * size - y * size == size) by (nonlinear_arith);
                assert(n * n <= 1024 * 1024) by (nonlinear_arith)
                    requires
                        n <= 1024,
                ;
                assert(y * n <= n * n) by (nonlinear_arith)
                    requires
                        y < n,
                ;
            }
            let zone = BoxShape::from_corners(
                x as i64 * size,
                y as i64 * size,
                (x as i64 + 1) * size,
                (y as i64 + 1) * size,
            );
            let idx = x + y * n;
            proof {
                assert(zone == cell(x as int, y as int, size as int));
                vstd::arithmetic::div_mod::lemma_fundamental_div_mod_converse(idx as int, n as int, y as int, x as int);
            }
            let ghost r0 = r@;
            if zone.intersects(shape).0 {
                r.push(idx);
                proof {
                    assert(r@[r@.len() - 1] == idx);
                    assert(idx as int % n as int == x && idx as int / n as int == y);
                    assert forall|a: int, c: int| 0 <= a < c < r@.len() implies cell_before(r@[a] as int, r@[c] as int, n as int) by {
                        if c == r@.len() - 1 {
                            assert(r@[a] == r0[a]);
                        } else {
                            assert(r@[a] == r0[a] && r@[c] == r0[c]);
                        }
                    }
                }
            }
            proof {
                assert forall|k: int| 0 <= k < r0.len() implies r@[k] == r0[k] by {}
                assert forall|cx: int, cy: int| 0 <= cx < x && 0 <= cy < n && #[trigger] hit_spec(cell(cx, cy, size as int), *shape)
                    implies r@.contains((cx + cy * n) as usize) by {
                    assert(r0.contains((cx + cy * n) as usize));
                    let w = choose|w: int| 0 <= w < r0.len() && r0[w] == (cx + cy * n) as usize;
                    assert(r@[w] == r0[w]);
                }
                assert forall|cy: int| 0 <= cy < y + 1 && #[trigger] hit_spec(cell(x as int, cy, size as int), *shape)
                    implies r@.contains((x + cy * n) as usize) by {
                    if cy < y {
                        assert(r0.contains((x + cy * n) as usize));
                        let w = choose|w: int| 0 <= w < r0.len() && r0[w] == (x + cy * n) as usize;
                        assert(r@[w] == r0[w]);
                    } else {
                        assert(r@[r@.len() - 1] == idx);
                    }
                }
                assert forall|k: int| 0 <= k < r@.len() implies (#[trigger] r@[k]) % n < x || (r@[k] % n == x && r@[k] / n < y + 1) by {
                    if k < r0.len() {
                        assert(r@[k] == r0[k]);
                    }
                }
            }
            y = y + 1;
        }
        x = x + 1;
    }
    proof {
        assert forall|i: int, j: int| 0 <= i < j < r@.len() implies r@[i] != r@[j] by {
            assert(cell_before(r@[i] as int, r@[j] as int, n as int));
        }
    }
    r
}

proof fn lemma_mul_bounded(a: int, b: int, ba: int, bb: int)
    requires
        iabs(a) <= ba,
        iabs(b) <= bb,
    ensures
        iabs(a * b) <= ba * bb,
{
    assert(iabs(a * b) == iabs(a) * iabs(b)) by (nonlinear_arith);
    assert(iabs(a) * iabs(b) <= ba * bb) by (nonlinear_arith)
        requires
            0 <= iabs(a) <= ba,
            0 <= iabs(b) <= bb,
    ;
}

/// Berth `berth` of the carrier `c`, scaled by `2 * UNIT`: berths sit on
/// two rows and five columns in the carrier's own frame, columns 80 apart
/// starting 35 in from one end, rows 35 in from either side; even berths
/// are on the first row.
pub open spec fn berth_scaled(c: BoxShape, berth: int) -> (int, int) {
    let col = berth / 2;
    let lx2 = -c.w + 160 * col + 70;
    let ly2 = if berth % 2 == 0 { -c.h + 70 } else { c.h - 70 };
    (2 * UNIT * c.x + lx2 * c.ux - ly2 * c.uy, 2 * UNIT * c.y + lx2 * c.uy + ly2 * c.ux)
}

/// The world position of berth `berth` of `c`, rounded down.
pub open spec fn berth_position(c: BoxShape, berth: int) -> (int, int) {
    (berth_scaled(c, berth).0 / (2 * UNIT), berth_scaled(c, berth).1 / (2 * UNIT))
}

impl BoxShape {
    /// Parks `carried` at berth `berth` of `self`, turned as the carrier
    /// is when `align` is set.
    pub fn place_at_berth(&self, carried: &mut BoxShape, berth: usize, align: bool)
        requires
            self.wf(),
            old(carried).wf(),
            berth < 10,
        ensures
            final(carried).x == berth_position(*self, berth as int).0,
            final(carried).y == berth_position(*self, berth as int).1,
            final(carried).w == old(carried).w,
            final(carried).h == old(carried).h,
            align ==> final(carried).ux == self.ux && final(carried).uy == self.uy,
            !align ==> final(carried).ux == old(carried).ux && final(carried).uy == old(carried).uy,
    {
        let col = (berth / 2) as i128;
        let (w, h, ux, uy) = (self.w as i128, self.h as i128, self.ux as i128, self.uy as i128);
        let lx2: i128 = -w + 160 * col + 70;
        let ly2: i128 = if berth % 2 == 0 { -h + 70 } else { h - 70 };
        proof {
            lemma_mul_bounded(lx2 as int, ux as int, 2 * SHAPE_BOUND, UNIT as int);
            lemma_mul_bounded(lx2 as int, uy as int, 2 * SHAPE_BOUND, UNIT as int);
            lemma_mul_bounded(ly2 as int, ux as int, 2 * SHAPE_BOUND, UNIT as int);
            lemma_mul_bounded(ly2 as int, uy as int, 2 * SHAPE_BOUND, UNIT as int);
            lemma_mul_bounded(2 * UNIT, self.x as int, 2 * UNIT, SHAPE_BOUND as int);
            lemma_mul_bounded(2 * UNIT, self.y as int, 2 * UNIT, SHAPE_BOUND as int);
        }
        let sx: i128 = 2 * (UNIT as i128) * (self.x as i128) + lx2 * ux - ly2 * uy;
        let sy: i128 = 2 * (UNIT as i128) * (self.y as i128) + lx2 * uy + ly2 * ux;
        let d: i128 = 2 * UNIT as i128;
        proof {
            assert(sx / d <= SHAPE_BOUND * 4 && sx / d >= -SHAPE_BOUND * 4) by (nonlinear_arith)
                requires
                    iabs(sx as int) <= 2 * UNIT * SHAPE_BOUND * 4,
                    d == 2 * UNIT,
            ;
            assert(sy / d <= SHAPE_BOUND * 4 && sy / d >= -SHAPE_BOUND * 4) by (nonlinear_arith)
                requires
                    iabs(sy as int) <= 2 * UNIT * SHAPE_BOUND * 4,
                    d == 2 * UNIT,
            ;
        }
        let nx = match sx.checked_div_euclid(d) {
            Some(v) => v,
            None => 0,
        };
        let ny = match sy.checked_div_euclid(d) {
            Some(v) => v,
            None => 0,
        };
        carried.x = nx as i64;
        carried.y = ny as i64;
        if align {
            carried.ux = self.ux;
            carried.uy = self.uy;
        }
    }
}

/// `b` moved by `(dx, dy)`.
pub open spec fn moved(b: BoxShape, dx: int, dy: int) -> BoxShape {
    BoxShape { x: (b.x + dx) as i64, y: (b.y + dy) as i64, ..b }
}

proof fn lemma_moved_proj(b: BoxShape, dx: int, dy: int, i: int, ax: int, ay: int)
    requires
        -0x8000_0000_0000_0000 <= b.x + dx <= 0x7fff_ffff_ffff_ffff,
        -0x8000_0000_0000_0000 <= b.y + dy <= 0x7fff_ffff_ffff_ffff,
    ensures
        proj(moved(b, dx, dy), i, ax, ay) == proj(b, i, ax, ay) + 2 * UNIT * (dx * ax + dy * ay),
{
    let m = moved(b, dx, dy);
    assert(corner(m, i).0 == corner(b, i).0 + 2 * UNIT * dx) by (nonlinear_arith)
        requires
            m.x == b.x + dx,
            m.w == b.w,
            m.h == b.h,
            m.ux == b.ux,
            m.uy == b.uy,
    ;
    assert(corner(m, i).1 == corner(b, i).1 + 2 * UNIT * dy) by (nonlinear_arith)
        requires
            m.y == b.y + dy,
            m.w == b.w,
            m.h == b.h,
            m.ux == b.ux,
            m.uy == b.uy,
    ;
    let (c0, c1) = corner(b, i);
    assert((c0 + 2 * UNIT * dx) * ax + (c1 + 2 * UNIT * dy) * ay == c0 * ax + c1 * ay + 2 * UNIT * (dx * ax + dy * ay)) by (nonlinear_arith);
}

/// Moving `a` along a push axis so that its shadow on that axis shifts by
/// exactly the push leaves the two boxes separated on that axis: their
/// shadows touch at most.
pub proof fn lemma_push_separates(a: BoxShape, b: BoxShape, ax: int, ay: int, dx: int, dy: int)
    requires
        !separated(a, b, ax, ay),
        2 * UNIT * (dx * ax + dy * ay) == push(a, b, ax, ay),
        -0x8000_0000_0000_0000 <= a.x + dx <= 0x7fff_ffff_ffff_ffff,
        -0x8000_0000_0000_0000 <= a.y + dy <= 0x7fff_ffff_ffff_ffff,
    ensures
        separated(moved(a, dx, dy), b, ax, ay),
{
    lemma_moved_proj(a, dx, dy, 0, ax, ay);
    lemma_moved_proj(a, dx, dy, 1, ax, ay);
    lemma_moved_proj(a, dx, dy, 2, ax, ay);
    lemma_moved_proj(a, dx, dy, 3, ax, ay);
    let m = moved(a, dx, dy);
    let s = push(a, b, ax, ay);
    assert(lo(m, ax, ay) == lo(a, ax, ay) + s);
    assert(hi(m, ax, ay) == hi(a, ax, ay) + s);
}

/// Whether two boxes intersect does not depend on which one is asked.
pub proof fn lemma_hit_symmetric(a: BoxShape, b: BoxShape)
    ensures
        hit_spec(a, b) == hit_spec(b, a),
{
    assert(worst_overlap(a, b) == worst_overlap(b, a));
    assert forall|k: int| 0 <= k < 4 implies separated(a, b, #[trigger] axis(a, b, k).0, axis(a, b, k).1) == separated(b, a, axis(b, a, (k + 2) % 4).0, axis(b, a, (k + 2) % 4).1) by {}
    if hit_spec(a, b) {
        assert forall|k: int| 0 <= k < 4 implies !separated(b, a, #[trigger] axis(b, a, k).0, axis(b, a, k).1) by {
            assert(!separated(a, b, axis(a, b, (k + 2) % 4).0, axis(a, b, (k + 2) % 4).1));
        }
    }
    if hit_spec(b, a) {
        assert forall|k: int| 0 <= k < 4 implies !separated(a, b, #[trigger] axis(a, b, k).0, axis(a, b, k).1) by {
            assert(!separated(b, a, axis(b, a, (k + 2) % 4).0, axis(b, a, (k + 2) % 4).1));
        }
    }
}

/// Boxes whose worst-case boxes do not overlap do not intersect.
pub proof fn lemma_worst_case_rejects(a: BoxShape, b: BoxShape)
    requires
        !worst_overlap(a, b),
    ensures
        !hit_spec(a, b),
        !hit_spec(b, a),
{
    lemma_hit_symmetric(a, b);
}

} // verus!
