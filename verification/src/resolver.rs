//! The spawn resolver: turns an abstract "spawn variant V" request into a
//! concrete, collision-safe placement in the world.
//!
//! Positions are exact integer world units on a horizontal plane (x, z)
//! with a pass-through height (y). Planning picks a spawner at random and
//! samples a point of its disc; the physics world is then asked for the
//! nearest obstruction along the straight path from the spawner's origin
//! toward that point, and [`resolve`] pulls the placement back so that it
//! never lies beyond the obstruction minus a safety margin.

use vstd::prelude::*;

use crate::catalog::SpawnVariant;
use crate::clock::sat_sub;
use crate::rng::random_below;

verus! {

/// The largest radius a well-formed spawner may have; it keeps every
/// squared distance comfortably inside 64 bits.
pub const RADIUS_LIMIT: u32 = 0x7FFF_FFFF;

/// The farthest coordinate a well-formed spawner may sit at; it leaves
/// room to add any in-disc offset without overflow.
pub const COORD_LIMIT: i64 = 0x3FFF_FFFF_FFFF_FFFF;

/// A designer-placed spawn region: a point in the level plus the radius
/// of the horizontal disc content of that region may appear in. Purely
/// positional data, read-only to this system.
#[derive(Clone, Copy, Debug, PartialEq, Eq, Structural)]
pub struct Spawner {
    pub x: i64,
    pub y: i64,
    pub z: i64,
    pub radius: u32,
}

impl Spawner {
    /// Bounds under which all placement arithmetic stays exact.
    pub open spec fn wf(self) -> bool {
        &&& self.radius <= RADIUS_LIMIT
        &&& -COORD_LIMIT <= self.x <= COORD_LIMIT
        &&& -COORD_LIMIT <= self.y <= COORD_LIMIT
        &&& -COORD_LIMIT <= self.z <= COORD_LIMIT
    }
}

impl Default for Spawner {
    /// A spawner at the origin with the standard five-unit radius.
    fn default() -> (r: Spawner)
        ensures
            r == (Spawner { x: 0, y: 0, z: 0, radius: 5 }),
    {
        Spawner { x: 0, y: 0, z: 0, radius: 5 }
    }
}

/// A planned spawn: the chosen spawner's origin, the sampled horizontal
/// offset from it, and the length of the obstruction ray to cast from the
/// origin toward the sampled point (the integer square root of the
/// offset's squared length).
#[derive(Clone, Copy, Debug, PartialEq, Eq, Structural)]
pub struct SpawnPlan {
    pub variant: SpawnVariant,
    pub origin_x: i64,
    pub origin_y: i64,
    pub origin_z: i64,
    pub dx: i64,
    pub dz: i64,
    pub cast_len: u64,
}

impl SpawnPlan {
    /// A plan always has a usable cast direction and exact arithmetic:
    /// the offset is nonzero, bounded by the radius limit, and `cast_len`
    /// is the integer square root of its squared length.
    pub open spec fn wf(self) -> bool {
        &&& (self.dx != 0 || self.dz != 0)
        &&& -(RADIUS_LIMIT as int) <= self.dx <= RADIUS_LIMIT as int
        &&& -(RADIUS_LIMIT as int) <= self.dz <= RADIUS_LIMIT as int
        &&& self.cast_len * self.cast_len <= self.dx * self.dx + self.dz * self.dz
        &&& self.dx * self.dx + self.dz * self.dz < (self.cast_len + 1) * (self.cast_len + 1)
        &&& -COORD_LIMIT <= self.origin_x <= COORD_LIMIT
        &&& -COORD_LIMIT <= self.origin_y <= COORD_LIMIT
        &&& -COORD_LIMIT <= self.origin_z <= COORD_LIMIT
    }
}

/// A concrete placement request, handed to the creature/prop construction
/// collaborator together with the variant to build.
#[derive(Clone, Copy, Debug, PartialEq, Eq, Structural)]
pub struct SpawnRequest {
    pub variant: SpawnVariant,
    pub x: i64,
    pub y: i64,
    pub z: i64,
}

/// Any value between `-b` and `b` has a square no larger than `b` squared.
proof fn lemma_abs_square_le(a: int, b: int)
    requires
        -b <= a <= b,
    ensures
        a * a <= b * b,
{
    assert(a * a <= b * b) by (nonlinear_arith)
        requires
            -b <= a <= b,
    ;
}

/// The integer square root: the largest value whose square is at most `n`.
pub fn isqrt(n: u64) -> (r: u64)
    ensures
        r * r <= n,
        n < (r + 1) * (r + 1),
{
    let mut lo: u64 = 0;
    let mut hi: u64 = 0xFFFF_FFFF;
    while lo < hi
        invariant
            lo <= hi <= 0xFFFF_FFFF,
            lo * lo <= n,
            n < (hi + 1) * (hi + 1),
        decreases hi - lo,
    {
        let mid = lo + (hi - lo + 1) / 2;
        proof {
            assert(mid * mid <= 0xFFFF_FFFFu64 * 0xFFFF_FFFFu64) by (nonlinear_arith)
                requires
                    0 <= mid <= 0xFFFF_FFFFu64,
            ;
        }
        if mid * mid <= n {
            lo = mid;
        } else {
            hi = mid - 1;
        }
    }
    lo
}

/// Samples a lattice point of the closed disc of the given radius, by
/// rejection from the bounding square. The draw is random, so only
/// membership in the disc is promised; after enough rejections (the odds
/// of even one are below a quarter) the disc's center is used.
#[verifier::loop_isolation(false)]
fn sample_disc_offset(radius: u32) -> (r: (i64, i64))
    requires
        radius <= RADIUS_LIMIT,
    ensures
        -(radius as int) <= r.0 <= radius as int,
        -(radius as int) <= r.1 <= radius as int,
        r.0 * r.0 + r.1 * r.1 <= radius * radius,
{
    let r64: u64 = radius as u64;
    let ri: i64 = radius as i64;
    proof {
        lemma_abs_square_le(ri as int, RADIUS_LIMIT as int);
    }
    let rr: i64 = ri * ri;
    let span: u64 = 2 * r64 + 1;
    let mut attempt: usize = 0;
    while attempt < 64
        invariant
            attempt <= 64,
        decreases 64 - attempt,
    {
        let vx = random_below(span);
        let vz = random_below(span);
        let x = vx as i64 - ri;
        let z = vz as i64 - ri;
        proof {
            lemma_abs_square_le(x as int, ri as int);
            lemma_abs_square_le(z as int, ri as int);
            assert(0 <= x * x && 0 <= z * z && x * x + z * z <= rr + rr) by (nonlinear_arith)
                requires
                    x * x <= ri * ri && z * z <= ri * ri && rr == ri * ri,
            ;
        }
        if x * x + z * z <= rr {
            return (x, z);
        }
        attempt += 1;
    }
    (0, 0)
}

/// Chooses one spawner uniformly at random, samples a point of its
/// horizontal disc, and plans the obstruction ray from the spawner's
/// origin toward that point. Returns `None` when no spawners exist, and
/// also when the sampled point coincides with the origin and so leaves no
/// cast direction; in both cases the caller logs and skips the spawn
/// rather than failing.
pub fn plan_spawn(markers: &Vec<Spawner>, variant: SpawnVariant) -> (r: Option<SpawnPlan>)
    requires
        forall|i: int| 0 <= i < markers@.len() ==> (#[trigger] markers@[i]).wf(),
    ensures
        markers@.len() == 0 ==> r is None,
        match r {
            Some(p) => {
                &&& p.wf()
                &&& p.variant == variant
                &&& exists|i: int|
                    0 <= i < markers@.len() && {
                        let m = #[trigger] markers@[i];
                        &&& p.origin_x == m.x
                        &&& p.origin_y == m.y
                        &&& p.origin_z == m.z
                        &&& p.dx * p.dx + p.dz * p.dz <= m.radius * m.radius
                    }
            },
            None => true,
        },
{
    if markers.len() == 0 {
        return None;
    }
    let idx = random_below(markers.len() as u64) as usize;
    let m = markers[idx];
    let (dx, dz) = sample_disc_offset(m.radius);
    if dx == 0 && dz == 0 {
        return None;
    }
    proof {
        lemma_abs_square_le(dx as int, RADIUS_LIMIT as int);
        lemma_abs_square_le(dz as int, RADIUS_LIMIT as int);
        assert(dx * dx >= 0 && dz * dz >= 0) by (nonlinear_arith);
    }
    let s: u64 = (dx * dx + dz * dz) as u64;
    let cast_len = isqrt(s);
    let p = SpawnPlan {
        variant,
        origin_x: m.x,
        origin_y: m.y,
        origin_z: m.z,
        dx,
        dz,
        cast_len,
    };
    proof {
        assert(markers@[idx as int] == m);
    }
    Some(p)
}

/// The coordinate scaling used when an obstruction pulls a placement
/// back: `c * t / (l + 1)`, rounded toward zero.
pub open spec fn spec_scaled(c: int, t: int, l: int) -> int {
    if c >= 0 {
        (c * t) / (l + 1)
    } else {
        -(((-c) * t) / (l + 1))
    }
}

/// The scaled coordinates stay within distance `t` of the origin: the
/// divisor exceeds the true offset length, so scaling by `t` over it can
/// only shrink the point inside the circle of radius `t`.
proof fn lemma_scaled_within(a: int, b: int, l: int, t: int, u: int, v: int)
    requires
        0 <= a,
        0 <= b,
        0 <= t,
        0 <= l,
        l * l <= a * a + b * b,
        a * a + b * b < (l + 1) * (l + 1),
        u == (a * t) / (l + 1),
        v == (b * t) / (l + 1),
    ensures
        0 <= u <= t,
        0 <= v <= t,
        u * u + v * v <= t * t,
{
    let d = l + 1;
    vstd::arithmetic::div_mod::lemma_fundamental_div_mod(a * t, d);
    vstd::arithmetic::div_mod::lemma_fundamental_div_mod(b * t, d);
    assert(0 <= a * t && 0 <= b * t) by (nonlinear_arith)
        requires
            0 <= a && 0 <= b && 0 <= t,
    ;
    vstd::arithmetic::div_mod::lemma_mod_bound(a * t, d);
    vstd::arithmetic::div_mod::lemma_mod_bound(b * t, d);
    assert(u * d <= a * t);
    assert(v * d <= b * t);
    assert(0 <= u && 0 <= v) by (nonlinear_arith)
        requires
            u * d <= a * t && v * d <= b * t && d * u + (a * t) % d == a * t && d * v + (b * t) % d
                == b * t && 0 <= (a * t) % d < d && 0 <= (b * t) % d < d && d >= 1 && 0 <= a * t
                && 0 <= b * t,
    ;
    // a and b are at most l, so each scaled coordinate is at most t.
    assert(a <= l && b <= l) by (nonlinear_arith)
        requires
            0 <= a && 0 <= b && 0 <= l && a * a + b * b < (l + 1) * (l + 1),
    ;
    assert(u <= t && v <= t) by (nonlinear_arith)
        requires
            u * d <= a * t && v * d <= b * t && a <= l && b <= l && d == l + 1 && 0 <= u && 0 <= v
                && 0 <= t && 0 <= l,
    ;
    // Squaring the division bounds and summing them gives the result.
    assert(u * u * (d * d) <= (a * a) * (t * t)) by (nonlinear_arith)
        requires
            0 <= u && 1 <= d && u * d <= a * t && 0 <= a * t,
    ;
    assert(v * v * (d * d) <= (b * b) * (t * t)) by (nonlinear_arith)
        requires
            0 <= v && 1 <= d && v * d <= b * t && 0 <= b * t,
    ;
    assert(u * u + v * v <= t * t) by (nonlinear_arith)
        requires
            u * u * (d * d) <= (a * a) * (t * t) && v * v * (d * d) <= (b * b) * (t * t) && a * a
                + b * b <= d * d - 1 && 0 <= t && d >= 1,
    ;
}

/// Turns a plan and the physics world's obstruction answer into the final
/// collision-safe placement. With an obstruction at distance `d`, the
/// placement is pulled back along the cast direction so that it lies no
/// farther from the origin than `d` minus the safety margin (floored at
/// zero); with none, the sampled point is used as it is. The physics
/// query reports the nearest obstruction along the cast, so its distance
/// never exceeds the cast length.
pub fn resolve(plan: &SpawnPlan, obstruction: Option<u64>, margin: u64) -> (r: SpawnRequest)
    requires
        plan.wf(),
        obstruction matches Some(d) ==> d <= plan.cast_len,
    ensures
        r.variant == plan.variant,
        r.y == plan.origin_y,
        obstruction is None ==> r.x == plan.origin_x + plan.dx && r.z == plan.origin_z + plan.dz,
        obstruction matches Some(d) ==> {
            let t = sat_sub(d, margin);
            &&& r.x == plan.origin_x + spec_scaled(plan.dx as int, t as int, plan.cast_len as int)
            &&& r.z == plan.origin_z + spec_scaled(plan.dz as int, t as int, plan.cast_len as int)
            &&& (r.x - plan.origin_x) * (r.x - plan.origin_x) + (r.z - plan.origin_z) * (r.z
                - plan.origin_z) <= t * t
        },
{
    match obstruction {
        None => SpawnRequest {
            variant: plan.variant,
            x: plan.origin_x + plan.dx,
            y: plan.origin_y,
            z: plan.origin_z + plan.dz,
        },
        Some(d) => {
            let t: u64 = if d >= margin {
                d - margin
            } else {
                0
            };
            proof {
                lemma_abs_square_le(plan.dx as int, RADIUS_LIMIT as int);
                lemma_abs_square_le(plan.dz as int, RADIUS_LIMIT as int);
                assert(plan.cast_len < 0x1_0000_0000u64) by (nonlinear_arith)
                    requires
                        plan.cast_len * plan.cast_len <= plan.dx * plan.dx + plan.dz * plan.dz,
                        plan.dx * plan.dx <= RADIUS_LIMIT as int * RADIUS_LIMIT as int,
                        plan.dz * plan.dz <= RADIUS_LIMIT as int * RADIUS_LIMIT as int,
                ;
            }
            let div: u64 = plan.cast_len + 1;
            let ax: u64 = if plan.dx >= 0 {
                plan.dx as u64
            } else {
                (-plan.dx) as u64
            };
            let az: u64 = if plan.dz >= 0 {
                plan.dz as u64
            } else {
                (-plan.dz) as u64
            };
            proof {
                assert(ax * t <= RADIUS_LIMIT as u64 * 0x1_0000_0000u64 && az * t
                    <= RADIUS_LIMIT as u64 * 0x1_0000_0000u64) by (nonlinear_arith)
                    requires
                        0 <= ax <= RADIUS_LIMIT as u64,
                        0 <= az <= RADIUS_LIMIT as u64,
                        0 <= t < 0x1_0000_0000u64,
                ;
            }
            let ux: u64 = ax * t / div;
            let uz: u64 = az * t / div;
            proof {
                assert(ax as int * (ax as int) == plan.dx * plan.dx && az as int * (az as int)
                    == plan.dz * plan.dz) by (nonlinear_arith)
                    requires
                        (ax as int == plan.dx || ax as int == -plan.dx) && (az as int == plan.dz
                            || az as int == -plan.dz),
                ;
                lemma_scaled_within(
                    ax as int,
                    az as int,
                    plan.cast_len as int,
                    t as int,
                    ux as int,
                    uz as int,
                );
            }
            let sx: i64 = if plan.dx >= 0 {
                ux as i64
            } else {
                -(ux as i64)
            };
            let sz: i64 = if plan.dz >= 0 {
                uz as i64
            } else {
                -(uz as i64)
            };
            let r = SpawnRequest {
                variant: plan.variant,
                x: plan.origin_x + sx,
                y: plan.origin_y,
                z: plan.origin_z + sz,
            };
            proof {
                assert(sx == spec_scaled(plan.dx as int, t as int, plan.cast_len as int));
                assert(sz == spec_scaled(plan.dz as int, t as int, plan.cast_len as int));
                assert(sx * sx == ux * ux && sz * sz == uz * uz) by (nonlinear_arith)
                    requires
                        sx == ux || sx == -ux,
                        sz == uz || sz == -uz,
                ;
                assert((r.x - plan.origin_x) * (r.x - plan.origin_x) + (r.z - plan.origin_z) * (r.z
                    - plan.origin_z) <= t * t);
            }
            r
        },
    }
}

} // verus!
