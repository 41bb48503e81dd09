//! Integer geometry: positions, chunks and the neighbourhood of a chunk.

use vstd::prelude::*;

verus! {

/// Number of length units in one block.
pub const SUBDIV: i32 = 256;

/// Width of a terrain chunk, in blocks.
pub const CHUNK_BLOCKS: i32 = 32;

/// Width of a terrain chunk, in length units.
pub const CHUNK_SIZE: i32 = 8192;

/// A point or an offset in the plane.
#[derive(Clone, Copy, Debug, PartialEq, Eq, Hash, Structural)]
pub struct Vec2i {
    pub x: i32,
    pub y: i32,
}

/// A point in space.
#[derive(Clone, Copy, Debug, PartialEq, Eq, Hash, Structural)]
pub struct Vec3i {
    pub x: i32,
    pub y: i32,
    pub z: i32,
}

/// Quotient of `a` by the positive `d`, rounded toward zero.
pub open spec fn div_toward_zero(a: int, d: int) -> int {
    if a >= 0 {
        a / d
    } else {
        -((-a) / d)
    }
}

/// The chunk column that holds the coordinate `w`.
pub open spec fn chunk_coord(w: int) -> int {
    div_toward_zero(w, CHUNK_SIZE as int)
}

/// The chunk that holds the point `p`.
pub open spec fn chunk_of(p: Vec2i) -> Vec2i {
    Vec2i { x: chunk_coord(p.x as int) as i32, y: chunk_coord(p.y as int) as i32 }
}

/// The chunk that holds the point `p`, by rounding down: the chunk that the
/// terrain is loaded by.
pub open spec fn terrain_chunk_of(p: Vec2i) -> Vec2i {
    Vec2i { x: (p.x as int / CHUNK_SIZE as int) as i32, y: (p.y as int / CHUNK_SIZE as int) as i32 }
}

/// Square of the distance between two points.
pub open spec fn dist_sqr(a: Vec2i, b: Vec2i) -> int {
    (a.x - b.x) * (a.x - b.x) + (a.y - b.y) * (a.y - b.y)
}

/// The nine offsets from a chunk to itself and to the chunks around it, in the
/// order in which a neighbourhood is walked.
pub open spec fn locality() -> Seq<Vec2i> {
    seq![
        Vec2i { x: 0, y: 0 },
        Vec2i { x: 0, y: 1 },
        Vec2i { x: 1, y: 0 },
        Vec2i { x: 0, y: -1i32 },
        Vec2i { x: -1i32, y: 0 },
        Vec2i { x: 1, y: 1 },
        Vec2i { x: 1, y: -1i32 },
        Vec2i { x: -1i32, y: 1 },
        Vec2i { x: -1i32, y: -1i32 },
    ]
}

impl Vec2i {
    pub fn new(x: i32, y: i32) -> (v: Self)
        ensures
            v == (Vec2i { x, y }),
    {
        Vec2i { x, y }
    }

    pub fn zero() -> (v: Self)
        ensures
            v == (Vec2i { x: 0, y: 0 }),
    {
        Vec2i { x: 0, y: 0 }
    }

    /// The chunk that holds this point.
    pub fn to_chunk(&self) -> (c: Self)
        ensures
            c == chunk_of(*self),
            -262144 <= c.x <= 262143,
            -262144 <= c.y <= 262143,
    {
        Vec2i { x: coord_to_chunk(self.x), y: coord_to_chunk(self.y) }
    }

    /// The chunk that holds this point, by rounding down.
    pub fn wpos_to_cpos(&self) -> (c: Self)
        ensures
            c == terrain_chunk_of(*self),
            -262144 <= c.x <= 262143,
            -262144 <= c.y <= 262143,
    {
        Vec2i { x: coord_to_terrain_chunk(self.x), y: coord_to_terrain_chunk(self.y) }
    }

    /// Square of the distance to `other`.
    pub fn distance_squared(&self, other: Vec2i) -> (d: u128)
        ensures
            d == dist_sqr(*self, other),
    {
        let dx: i128 = self.x as i128 - other.x as i128;
        let dy: i128 = self.y as i128 - other.y as i128;
        assert(0 <= dx * dx <= 0x1_0000_0000 * 0x1_0000_0000) by (nonlinear_arith)
            requires
                -0x1_0000_0000 < dx < 0x1_0000_0000,
        ;
        assert(0 <= dy * dy <= 0x1_0000_0000 * 0x1_0000_0000) by (nonlinear_arith)
            requires
                -0x1_0000_0000 < dy < 0x1_0000_0000,
        ;
        let sx: u128 = (dx * dx) as u128;
        let sy: u128 = (dy * dy) as u128;
        sx + sy
    }
}

/// The chunk column that holds the coordinate `w`.
pub fn coord_to_chunk(w: i32) -> (c: i32)
    ensures
        c == chunk_coord(w as int),
        -262144 <= c <= 262143,
{
    if w >= 0 {
        let u: u32 = w as u32;
        (u / 8192) as i32
    } else {
        let u: u32 = (-(w as i64)) as u32;
        -((u / 8192) as i32)
    }
}

/// The chunk column that holds the coordinate `w`, by rounding down.
pub fn coord_to_terrain_chunk(w: i32) -> (c: i32)
    ensures
        c == w as int / CHUNK_SIZE as int,
        -262144 <= c <= 262143,
{
    if w >= 0 {
        let u: u32 = w as u32;
        (u / 8192) as i32
    } else {
        let u: u32 = (-(w as i64)) as u32;
        -(((u + 8191) / 8192) as i32)
    }
}

/// Whether `r` is the square root of `v`, rounded down.
pub open spec fn is_sqrt(v: int, r: int) -> bool {
    0 <= r && r * r <= v < (r + 1) * (r + 1)
}

/// The square root of `v`, rounded down.
pub fn isqrt(v: u128) -> (r: u64)
    requires
        v < 0x4_0000_0000_0000_0000,
    ensures
        is_sqrt(v as int, r as int),
{
    let mut lo: u128 = 0;
    let mut hi: u128 = 0x2_0000_0000;
    assert(0x2_0000_0000 * 0x2_0000_0000 == 0x4_0000_0000_0000_0000);
    while hi - lo > 1
        invariant
            lo < hi <= 0x2_0000_0000,
            lo * lo <= v < hi * hi,
        decreases hi - lo,
    {
        let mid: u128 = lo + (hi - lo) / 2;
        assert(mid * mid <= 0x2_0000_0000 * 0x2_0000_0000) by (nonlinear_arith)
            requires
                0 <= mid <= 0x2_0000_0000,
        ;
        if mid * mid <= v {
            lo = mid;
        } else {
            hi = mid;
        }
    }
    lo as u64
}

/// Clamps `v` into the range of `i32`.
pub open spec fn clamp_i32(v: int) -> int {
    if v < i32::MIN {
        i32::MIN as int
    } else if v > i32::MAX {
        i32::MAX as int
    } else {
        v
    }
}

/// The length of the step that a body with a top speed of `speed` length
/// units per second takes in `dt` milliseconds, at a speed factor of
/// `speed_factor` thousandths.
pub open spec fn step_length(speed: int, speed_factor: int, dt: int) -> int {
    speed * speed_factor * dt / 1_000_000
}

/// Where a step of length `step` from `from` toward `target` leads: along the
/// line to the target, each coordinate rounded toward zero and kept within
/// the range of the coordinates. A step from the target itself leads
/// nowhere. The step is not cut short at the target.
pub open spec fn stepped_toward(from: Vec2i, target: Vec2i, step: int, len: int) -> Vec2i {
    if len == 0 {
        from
    } else {
        Vec2i {
            x: clamp_i32(from.x + div_toward_zero((target.x - from.x) * step, len)) as i32,
            y: clamp_i32(from.y + div_toward_zero((target.y - from.y) * step, len)) as i32,
        }
    }
}

/// The square root of `v`, rounded down.
pub open spec fn sqrt_floor(v: int) -> int {
    choose|r: int| is_sqrt(v, r)
}

/// A number has one square root, rounded down.
pub proof fn lemma_sqrt_is_unique(v: int, a: int, b: int)
    requires
        is_sqrt(v, a),
    ensures
        is_sqrt(v, b) ==> a == b,
        is_sqrt(v, sqrt_floor(v)),
{
    if is_sqrt(v, b) && a != b {
        if a < b {
            assert((a + 1) * (a + 1) <= b * b) by (nonlinear_arith)
                requires
                    0 <= a,
                    a + 1 <= b,
            ;
        } else {
            assert((b + 1) * (b + 1) <= a * a) by (nonlinear_arith)
                requires
                    0 <= b,
                    b + 1 <= a,
            ;
        }
    }
}

/// Where a body that stands at `from` gets in `dt` milliseconds on its way to
/// `target`, with a top speed of `speed` length units per second and a speed
/// factor of `speed_factor` thousandths.
pub open spec fn advanced(from: Vec2i, target: Vec2i, speed: int, speed_factor: int, dt: int) -> Vec2i {
    stepped_toward(
        from,
        target,
        step_length(speed, speed_factor, dt),
        sqrt_floor(dist_sqr(from, target)),
    )
}

/// Takes a step from `from` toward `target`, as far as a body with a top
/// speed of `speed` length units per second gets in `dt` milliseconds at a
/// speed factor of `speed_factor` thousandths.
pub fn advance(from: Vec2i, target: Vec2i, speed: u32, speed_factor: u32, dt: u32) -> (to: Vec2i)
    ensures
        to == advanced(from, target, speed as int, speed_factor as int, dt as int),
{
    let d2: u128 = from.distance_squared(target);
    assert(d2 < 0x4_0000_0000_0000_0000) by (nonlinear_arith)
        requires
            d2 == (from.x - target.x) * (from.x - target.x) + (from.y - target.y) * (from.y
                - target.y),
            -0x1_0000_0000 < from.x - target.x < 0x1_0000_0000,
            -0x1_0000_0000 < from.y - target.y < 0x1_0000_0000,
    ;
    let len: u64 = isqrt(d2);
    proof {
        lemma_sqrt_is_unique(d2 as int, len as int, sqrt_floor(d2 as int));
    }
    if len == 0 {
        return from;
    }
    assert(speed * speed_factor * dt <= 0xffff_ffff * 0xffff_ffff * 0xffff_ffff) by (nonlinear_arith)
        requires
            0 <= speed <= 0xffff_ffff,
            0 <= speed_factor <= 0xffff_ffff,
            0 <= dt <= 0xffff_ffff,
    ;
    assert(speed * speed_factor <= 0xffff_ffff * 0xffff_ffff) by (nonlinear_arith)
        requires
            0 <= speed <= 0xffff_ffff,
            0 <= speed_factor <= 0xffff_ffff,
    ;
    let step: u128 = (speed as u128) * (speed_factor as u128) * (dt as u128) / 1_000_000;
    let x = step_coord(from.x, target.x, step, len);
    let y = step_coord(from.y, target.y, step, len);
    Vec2i { x, y }
}

/// One coordinate of a step: `from` plus the share `step / len` of the way to
/// `target`, rounded toward zero and kept within the range of `i32`.
pub fn step_coord(from: i32, target: i32, step: u128, len: u64) -> (to: i32)
    requires
        len > 0,
        step <= 0xffff_ffff * 0xffff_ffff * 0xffff_ffff,
    ensures
        to == clamp_i32(from + div_toward_zero((target - from) * step, len as int)),
{
    let d: i64 = target as i64 - from as i64;
    let mag: u128 = if d < 0 {
        (-d) as u128
    } else {
        d as u128
    };
    assert(mag * step <= 0x1_0000_0000 * (0xffff_ffff * 0xffff_ffff * 0xffff_ffff)) by (nonlinear_arith)
        requires
            0 <= mag <= 0x1_0000_0000,
            0 <= step <= 0xffff_ffff * 0xffff_ffff * 0xffff_ffff,
    ;
    let q: u128 = mag * step / (len as u128);
    proof {
        if d < 0 {
            assert((target - from) * step == -(mag * step)) by (nonlinear_arith)
                requires
                    mag == -(target - from),
            ;
        } else {
            assert((target - from) * step == mag * step) by (nonlinear_arith)
                requires
                    mag == target - from,
            ;
        }
        assert(mag * step >= 0) by (nonlinear_arith)
            requires
                mag >= 0,
                step >= 0,
        ;
    }
    if d < 0 {
        if q > (from as i64 - i32::MIN as i64) as u128 {
            i32::MIN
        } else {
            (from as i64 - q as i64) as i32
        }
    } else {
        if q > (i32::MAX as i64 - from as i64) as u128 {
            i32::MAX
        } else {
            (from as i64 + q as i64) as i32
        }
    }
}

impl Vec3i {
    pub fn new(x: i32, y: i32, z: i32) -> (v: Self)
        ensures
            v == (Vec3i { x, y, z }),
    {
        Vec3i { x, y, z }
    }

    /// The point's place in the plane.
    pub open spec fn spec_xy(&self) -> Vec2i {
        Vec2i { x: self.x, y: self.y }
    }

    /// The point's place in the plane.
    #[verifier::when_used_as_spec(spec_xy)]
    pub fn xy(&self) -> (v: Vec2i)
        ensures
            v == self.spec_xy(),
    {
        Vec2i { x: self.x, y: self.y }
    }
}

} // verus!
