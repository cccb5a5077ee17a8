use vstd::prelude::*;

verus! {

/// A point, or an extent, on the integer world grid.
#[derive(Clone, Copy, Debug, PartialEq, Eq, Structural)]
pub struct Vec2 {
    pub x: i32,
    pub y: i32,
}

impl Vec2 {
    pub fn new(x: i32, y: i32) -> (r: Vec2)
        ensures
            r.x == x,
            r.y == y,
    {
        Vec2 { x, y }
    }

    pub fn splat(v: i32) -> (r: Vec2)
        ensures
            r.x == v,
            r.y == v,
    {
        Vec2 { x: v, y: v }
    }
}

/// Squared Euclidean distance between two points.
pub open spec fn distance_squared(a: Vec2, b: Vec2) -> int {
    (b.x - a.x) * (b.x - a.x) + (b.y - a.y) * (b.y - a.y)
}

/// `b` lies no farther than `range` from `a`.
pub open spec fn in_range(a: Vec2, b: Vec2, range: u32) -> bool {
    distance_squared(a, b) <= range * range
}

/// On one axis, the point `a + (n / m) * d` lies in `[lo, hi]` (for `m > 0`).
pub open spec fn within_slab(n: int, m: int, a: int, d: int, lo: int, hi: int) -> bool {
    m * lo <= m * a + n * d && m * a + n * d <= m * hi
}

/// The point of the segment `start -> end` at parameter `n / m` lies in the closed
/// box of centre `center` and extent `size`. Coordinates are doubled so that half
/// extents stay integral.
pub open spec fn segment_point_in_box(
    n: int,
    m: int,
    start: Vec2,
    end: Vec2,
    center: Vec2,
    size: Vec2,
) -> bool {
    &&& 0 < m
    &&& 0 <= n <= m
    &&& within_slab(
        n,
        m,
        2 * start.x,
        2 * (end.x - start.x),
        2 * center.x - size.x,
        2 * center.x + size.x,
    )
    &&& within_slab(
        n,
        m,
        2 * start.y,
        2 * (end.y - start.y),
        2 * center.y - size.y,
        2 * center.y + size.y,
    )
}

/// Some point of the closed segment `start -> end`, endpoints included, lies in the
/// closed axis-aligned box of centre `center` and extent `size`.
pub open spec fn segment_hits_box(start: Vec2, end: Vec2, center: Vec2, size: Vec2) -> bool {
    exists|n: int, m: int| #[trigger] segment_point_in_box(n, m, start, end, center, size)
}

/// `n / m >= ln / ld`, for positive denominators.
pub open spec fn at_least(n: int, m: int, ln: int, ld: int) -> bool {
    ln * m <= n * ld
}

/// `n / m <= un / ud`, for positive denominators.
pub open spec fn at_most(n: int, m: int, un: int, ud: int) -> bool {
    n * ud <= un * m
}

const BOUND: i128 = 0x8_0000_0000;

/// A closed interval of rational parameters, `[lo_num / lo_den, hi_num / hi_den]`.
struct Interval {
    lo_num: i128,
    lo_den: i128,
    hi_num: i128,
    hi_den: i128,
}

impl Interval {
    spec fn wf(self) -> bool {
        &&& 0 < self.lo_den <= BOUND
        &&& 0 < self.hi_den <= BOUND
        &&& -BOUND <= self.lo_num <= BOUND
        &&& -BOUND <= self.hi_num <= BOUND
    }

    spec fn contains(self, n: int, m: int) -> bool {
        at_least(n, m, self.lo_num as int, self.lo_den as int) && at_most(
            n,
            m,
            self.hi_num as int,
            self.hi_den as int,
        )
    }
}

proof fn lemma_product_bound(a: int, b: int)
    requires
        -BOUND <= a <= BOUND,
        -BOUND <= b <= BOUND,
    ensures
        -BOUND * BOUND <= a * b <= BOUND * BOUND,
{
    assert(-BOUND * BOUND <= a * b <= BOUND * BOUND) by (nonlinear_arith)
        requires
            -BOUND <= a <= BOUND,
            -BOUND <= b <= BOUND,
    ;
}

proof fn lemma_at_least_trans(cn: int, cd: int, ln: int, ld: int, n: int, m: int)
    requires
        cd > 0,
        ld > 0,
        m > 0,
        cn * ld <= ln * cd,
        at_least(n, m, ln, ld),
    ensures
        at_least(n, m, cn, cd),
{
    assert(cn * ld * m <= ln * cd * m) by (nonlinear_arith)
        requires
            cn * ld <= ln * cd,
            m > 0,
    ;
    assert(ln * m * cd <= n * ld * cd) by (nonlinear_arith)
        requires
            ln * m <= n * ld,
            cd > 0,
    ;
    assert(cn * m <= n * cd) by (nonlinear_arith)
        requires
            cn * ld * m <= ln * cd * m,
            ln * m * cd <= n * ld * cd,
            ld > 0,
    ;
}

proof fn lemma_at_most_trans(cn: int, cd: int, un: int, ud: int, n: int, m: int)
    requires
        cd > 0,
        ud > 0,
        m > 0,
        un * cd <= cn * ud,
        at_most(n, m, un, ud),
    ensures
        at_most(n, m, cn, cd),
{
    assert(un * cd * m <= cn * ud * m) by (nonlinear_arith)
        requires
            un * cd <= cn * ud,
            m > 0,
    ;
    assert(n * ud * cd <= un * m * cd) by (nonlinear_arith)
        requires
            n * ud <= un * m,
            cd > 0,
    ;
    assert(n * cd <= cn * m) by (nonlinear_arith)
        requires
            un * cd * m <= cn * ud * m,
            n * ud * cd <= un * m * cd,
            ud > 0,
    ;
}

proof fn lemma_nonempty(ln: int, ld: int, un: int, ud: int, n: int, m: int)
    requires
        ld > 0,
        ud > 0,
        m > 0,
        at_least(n, m, ln, ld),
        at_most(n, m, un, ud),
    ensures
        ln * ud <= un * ld,
{
    assert(ln * m * ud <= n * ld * ud) by (nonlinear_arith)
        requires
            ln * m <= n * ld,
            ud > 0,
    ;
    assert(n * ud * ld <= un * m * ld) by (nonlinear_arith)
        requires
            n * ud <= un * m,
            ld > 0,
    ;
    assert(ln * ud <= un * ld) by (nonlinear_arith)
        requires
            ln * m * ud <= n * ld * ud,
            n * ud * ld <= un * m * ld,
            m > 0,
    ;
}

proof fn lemma_slab_rising(n: int, m: int, a: int, d: int, lo: int, hi: int)
    requires
        d > 0,
    ensures
        within_slab(n, m, a, d, lo, hi) <==> (at_least(n, m, lo - a, d) && at_most(
            n,
            m,
            hi - a,
            d,
        )),
{
    assert((m * lo <= m * a + n * d) <==> ((lo - a) * m <= n * d)) by (nonlinear_arith);
    assert((m * a + n * d <= m * hi) <==> (n * d <= (hi - a) * m)) by (nonlinear_arith);
}

proof fn lemma_slab_falling(n: int, m: int, a: int, d: int, lo: int, hi: int)
    requires
        d < 0,
    ensures
        within_slab(n, m, a, d, lo, hi) <==> (at_least(n, m, a - hi, -d) && at_most(
            n,
            m,
            a - lo,
            -d,
        )),
{
    assert((m * lo <= m * a + n * d) <==> (n * (-d) <= (a - lo) * m)) by (nonlinear_arith);
    assert((m * a + n * d <= m * hi) <==> ((a - hi) * m <= n * (-d))) by (nonlinear_arith);
}

proof fn lemma_slab_flat(n: int, m: int, a: int, lo: int, hi: int)
    requires
        m > 0,
    ensures
        within_slab(n, m, a, 0, lo, hi) <==> (lo <= a && a <= hi),
{
    assert(n * 0 == 0) by (nonlinear_arith);
    assert((m * lo <= m * a) <==> (lo <= a)) by (nonlinear_arith)
        requires
            m > 0,
    ;
    assert((m * a <= m * hi) <==> (a <= hi)) by (nonlinear_arith)
        requires
            m > 0,
    ;
}

/// Narrows `iv` to the parameters whose point lies in `[lo, hi]` on one axis.
fn clip(iv: Interval, a: i64, d: i64, lo: i64, hi: i64) -> (r: Option<Interval>)
    requires
        iv.wf(),
        -0x2_0000_0000 <= a <= 0x2_0000_0000,
        -0x2_0000_0000 <= d <= 0x2_0000_0000,
        -0x2_0000_0000 <= lo <= 0x2_0000_0000,
        -0x2_0000_0000 <= hi <= 0x2_0000_0000,
    ensures
        match r {
            Some(nv) => nv.wf() && forall|n: int, m: int|
                #![trigger nv.contains(n, m)]
                #![trigger iv.contains(n, m)]
                0 < m ==> (nv.contains(n, m) <==> (iv.contains(n, m) && within_slab(
                    n,
                    m,
                    a as int,
                    d as int,
                    lo as int,
                    hi as int,
                ))),
            None => forall|n: int, m: int|
                #![trigger iv.contains(n, m)]
                0 < m ==> !(iv.contains(n, m) && within_slab(
                    n,
                    m,
                    a as int,
                    d as int,
                    lo as int,
                    hi as int,
                )),
        },
{
    if d == 0 {
        proof {
            assert forall|n: int, m: int| 0 < m implies (within_slab(
                n,
                m,
                a as int,
                d as int,
                lo as int,
                hi as int,
            ) <==> (lo <= a && a <= hi)) by {
                lemma_slab_flat(n, m, a as int, lo as int, hi as int);
            }
        }
        if lo <= a && a <= hi {
            return Some(iv);
        } else {
            return None;
        }
    }
    let (cl_num, cl_den, ch_num, ch_den): (i128, i128, i128, i128) = if d > 0 {
        ((lo - a) as i128, d as i128, (hi - a) as i128, d as i128)
    } else {
        ((a - hi) as i128, -(d as i128), (a - lo) as i128, -(d as i128))
    };
    proof {
        assert forall|n: int, m: int| 0 < m implies (within_slab(
            n,
            m,
            a as int,
            d as int,
            lo as int,
            hi as int,
        ) <==> (at_least(n, m, cl_num as int, cl_den as int) && at_most(
            n,
            m,
            ch_num as int,
            ch_den as int,
        ))) by {
            if d > 0 {
                lemma_slab_rising(n, m, a as int, d as int, lo as int, hi as int);
            } else {
                lemma_slab_falling(n, m, a as int, d as int, lo as int, hi as int);
            }
        }
        lemma_product_bound(cl_num as int, iv.lo_den as int);
        lemma_product_bound(iv.lo_num as int, cl_den as int);
        lemma_product_bound(ch_num as int, iv.hi_den as int);
        lemma_product_bound(iv.hi_num as int, ch_den as int);
    }
    let keep_lo = cl_num * iv.lo_den <= iv.lo_num * cl_den;
    let keep_hi = iv.hi_num * ch_den <= ch_num * iv.hi_den;
    let nv = Interval {
        lo_num: if keep_lo {
            iv.lo_num
        } else {
            cl_num
        },
        lo_den: if keep_lo {
            iv.lo_den
        } else {
            cl_den
        },
        hi_num: if keep_hi {
            iv.hi_num
        } else {
            ch_num
        },
        hi_den: if keep_hi {
            iv.hi_den
        } else {
            ch_den
        },
    };
    proof {
        assert forall|n: int, m: int|
            #![trigger nv.contains(n, m)]
            #![trigger iv.contains(n, m)]
            0 < m implies (nv.contains(n, m) <==> (iv.contains(n, m) && at_least(
                n,
                m,
                cl_num as int,
                cl_den as int,
            ) && at_most(n, m, ch_num as int, ch_den as int))) by {
            let (ln, ld, cn, cd) = (
                iv.lo_num as int,
                iv.lo_den as int,
                cl_num as int,
                cl_den as int,
            );
            let (un, ud, hn, hd) = (
                iv.hi_num as int,
                iv.hi_den as int,
                ch_num as int,
                ch_den as int,
            );
            if keep_lo {
                if at_least(n, m, ln, ld) {
                    lemma_at_least_trans(cn, cd, ln, ld, n, m);
                }
            } else {
                if at_least(n, m, cn, cd) {
                    lemma_at_least_trans(ln, ld, cn, cd, n, m);
                }
            }
            if keep_hi {
                if at_most(n, m, un, ud) {
                    lemma_at_most_trans(hn, hd, un, ud, n, m);
                }
            } else {
                if at_most(n, m, hn, hd) {
                    lemma_at_most_trans(un, ud, hn, hd, n, m);
                }
            }
        }
    }
    Some(nv)
}

/// Whether the closed segment `line_start -> line_end` meets the closed box of
/// centre `aabb_position` and extent `aabb_size`. An endpoint inside the box counts.
pub fn is_intersecting(line_start: Vec2, line_end: Vec2, aabb_position: Vec2, aabb_size: Vec2) -> (r:
    bool)
    ensures
        r == segment_hits_box(line_start, line_end, aabb_position, aabb_size),
{
    let unit = Interval { lo_num: 0, lo_den: 1, hi_num: 1, hi_den: 1 };
    let ax = 2 * (line_start.x as i64);
    let dx = 2 * (line_end.x as i64 - line_start.x as i64);
    let lox = 2 * (aabb_position.x as i64) - aabb_size.x as i64;
    let hix = 2 * (aabb_position.x as i64) + aabb_size.x as i64;
    let ay = 2 * (line_start.y as i64);
    let dy = 2 * (line_end.y as i64 - line_start.y as i64);
    let loy = 2 * (aabb_position.y as i64) - aabb_size.y as i64;
    let hiy = 2 * (aabb_position.y as i64) + aabb_size.y as i64;
    assert forall|n: int, m: int| 0 < m implies (unit.contains(n, m) <==> 0 <= n <= m) by {
        assert(0int * m == 0 && n * 1 == n && 1 * m == m) by (nonlinear_arith);
    }
    match clip(unit, ax, dx, lox, hix) {
        None => {
            assert(!segment_hits_box(line_start, line_end, aabb_position, aabb_size)) by {
                if exists|n: int, m: int| #[trigger]
                    segment_point_in_box(n, m, line_start, line_end, aabb_position, aabb_size) {
                    let (n, m) = choose|n: int, m: int| #[trigger]
                        segment_point_in_box(n, m, line_start, line_end, aabb_position, aabb_size);
                    assert(unit.contains(n, m));
                }
            }
            false
        },
        Some(ivx) => match clip(ivx, ay, dy, loy, hiy) {
            None => {
                assert(!segment_hits_box(line_start, line_end, aabb_position, aabb_size)) by {
                    if exists|n: int, m: int| #[trigger]
                        segment_point_in_box(
                            n,
                            m,
                            line_start,
                            line_end,
                            aabb_position,
                            aabb_size,
                        ) {
                        let (n, m) = choose|n: int, m: int| #[trigger]
                            segment_point_in_box(
                                n,
                                m,
                                line_start,
                                line_end,
                                aabb_position,
                                aabb_size,
                            );
                        assert(unit.contains(n, m));
                        assert(ivx.contains(n, m));
                    }
                }
                false
            },
            Some(iv) => {
                proof {
                    lemma_product_bound(iv.lo_num as int, iv.hi_den as int);
                    lemma_product_bound(iv.hi_num as int, iv.lo_den as int);
                }
                let r = iv.lo_num * iv.hi_den <= iv.hi_num * iv.lo_den;
                proof {
                    let (ln, ld, un, ud) = (
                        iv.lo_num as int,
                        iv.lo_den as int,
                        iv.hi_num as int,
                        iv.hi_den as int,
                    );
                    if r {
                        assert(at_least(ln, ld, ln, ld)) by (nonlinear_arith);
                        assert(iv.contains(ln, ld));
                        assert(ivx.contains(ln, ld));
                        assert(unit.contains(ln, ld));
                        assert(segment_point_in_box(
                            ln,
                            ld,
                            line_start,
                            line_end,
                            aabb_position,
                            aabb_size,
                        ));
                    } else {
                        if exists|n: int, m: int| #[trigger]
                            segment_point_in_box(
                                n,
                                m,
                                line_start,
                                line_end,
                                aabb_position,
                                aabb_size,
                            ) {
                            let (n, m) = choose|n: int, m: int| #[trigger]
                                segment_point_in_box(
                                    n,
                                    m,
                                    line_start,
                                    line_end,
                                    aabb_position,
                                    aabb_size,
                                );
                            assert(unit.contains(n, m));
                            assert(ivx.contains(n, m));
                            assert(iv.contains(n, m));
                            lemma_nonempty(ln, ld, un, ud, n, m);
                        }
                    }
                }
                r
            },
        },
    }
}

} // verus!
