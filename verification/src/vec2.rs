//! Points and directions of the plane in fixed point: one world unit is
//! [`UNIT`] steps, and every operation saturates instead of overflowing.

use vstd::prelude::*;

verus! {

/// Steps per world unit.
pub const UNIT: i32 = 1000;

/// Microseconds per second.
pub const SECOND: u64 = 1_000_000;

/// A point or a displacement.
#[derive(Clone, Copy, Debug, PartialEq, Eq, Structural)]
pub struct Vec2 {
    pub x: i32,
    pub y: i32,
}

/// The nearest `i32` to `v`.
pub open spec fn clamp_i32(v: int) -> int {
    if v < i32::MIN {
        i32::MIN as int
    } else if v > i32::MAX {
        i32::MAX as int
    } else {
        v
    }
}

/// `r` is the integer square root of `n`.
pub open spec fn is_isqrt(n: nat, r: nat) -> bool {
    r * r <= n < (r + 1) * (r + 1)
}

/// The largest `r` with `r * r <= n`.
pub closed spec fn isqrt(n: nat) -> nat {
    choose|r: nat| is_isqrt(n, r)
}

/// Every number has an integer square root.
pub proof fn lemma_isqrt(n: nat)
    ensures
        is_isqrt(n, isqrt(n)),
    decreases n,
{
    if n == 0 {
        assert(0nat * 0nat == 0 && (0nat + 1) * (0nat + 1) == 1) by (nonlinear_arith);
        assert(is_isqrt(0, 0));
    } else {
        lemma_isqrt((n - 1) as nat);
        let r = isqrt((n - 1) as nat);
        if (r + 1) * (r + 1) <= n {
            assert((r + 2) * (r + 2) > (r + 1) * (r + 1)) by (nonlinear_arith);
            assert(is_isqrt(n, r + 1));
        } else {
            assert(is_isqrt(n, r));
        }
    }
}

/// Squaring keeps the order of natural numbers.
proof fn lemma_square_le(a: nat, b: nat)
    requires
        a <= b,
    ensures
        a * a <= b * b,
{
    assert(a * a <= b * b) by (nonlinear_arith)
        requires
            a <= b,
    ;
}

/// The integer square root is the only number between whose square and
/// whose successor's square `n` lies.
pub proof fn lemma_isqrt_unique(n: nat, r: nat)
    requires
        is_isqrt(n, r),
    ensures
        r == isqrt(n),
{
    lemma_isqrt(n);
    let s = isqrt(n);
    if r < s {
        lemma_square_le(r + 1, s);
    } else if s < r {
        lemma_square_le(s + 1, r);
    }
}

/// The integer square root grows with its argument.
pub proof fn lemma_isqrt_monotonic(a: nat, b: nat)
    requires
        a <= b,
    ensures
        isqrt(a) <= isqrt(b),
{
    lemma_isqrt(a);
    lemma_isqrt(b);
    if isqrt(b) < isqrt(a) {
        lemma_square_le(isqrt(b) + 1, isqrt(a));
    }
}

/// The integer square root of a square.
pub proof fn lemma_isqrt_square(r: nat)
    ensures
        isqrt(r * r) == r,
{
    assert((r + 1) * (r + 1) > r * r) by (nonlinear_arith);
    lemma_isqrt_unique(r * r, r);
}

/// Integer square root by bisection.
pub fn integer_sqrt(n: u128) -> (r: u64)
    ensures
        r == isqrt(n as nat),
{
    let mut lo: u128 = 0;
    let mut hi: u128 = 0x1_0000_0000_0000_0000;
    assert(0x1_0000_0000_0000_0000u128 * 0x1_0000_0000_0000_0000u128 > u128::MAX)
        by (nonlinear_arith);
    while hi - lo > 1
        invariant
            lo < hi <= 0x1_0000_0000_0000_0000,
            lo * lo <= n,
            n < hi * hi,
        decreases hi - lo,
    {
        let mid: u128 = lo + (hi - lo) / 2;
        assert(mid * mid <= 0xffff_ffff_ffff_ffffu128 * 0xffff_ffff_ffff_ffffu128)
            by (nonlinear_arith)
            requires
                mid <= 0xffff_ffff_ffff_ffffu128,
        ;
        assert(0xffff_ffff_ffff_ffffu128 * 0xffff_ffff_ffff_ffffu128 <= u128::MAX)
            by (nonlinear_arith);
        if mid * mid <= n {
            lo = mid;
        } else {
            hi = mid;
        }
    }
    proof {
        assert(hi == lo + 1);
        lemma_isqrt_unique(n as nat, lo as nat);
    }
    lo as u64
}

/// `m` with the sign of `d`.
pub open spec fn with_sign(d: int, m: nat) -> int {
    if d < 0 {
        -(m as int)
    } else {
        m as int
    }
}

/// The displacement of length `len` along `(dx, dy)`, each component
/// rounded toward zero; zero where `(dx, dy)` is zero.
pub open spec fn scaled(dx: int, dy: int, len: nat) -> Vec2 {
    let n2 = (dx * dx + dy * dy) as nat;
    if n2 == 0 {
        Vec2 { x: 0, y: 0 }
    } else {
        Vec2 {
            x: clamp_i32(with_sign(dx, isqrt(((dx * dx) as nat) * (len * len) / n2))) as i32,
            y: clamp_i32(with_sign(dy, isqrt(((dy * dy) as nat) * (len * len) / n2))) as i32,
        }
    }
}

/// The length covered in `dt` microseconds at `speed` steps per second,
/// rounded down and capped at `u32::MAX`.
pub open spec fn step_length(speed: nat, dt: nat) -> nat {
    let steps = speed * dt / (SECOND as nat);
    if steps > u32::MAX {
        u32::MAX as nat
    } else {
        steps
    }
}

impl Vec2 {
    /// The zero displacement.
    pub open spec fn zero() -> Vec2 {
        Vec2 { x: 0, y: 0 }
    }

    /// Componentwise sum, saturating.
    pub open spec fn plus_spec(self, other: Vec2) -> Vec2 {
        Vec2 {
            x: clamp_i32(self.x + other.x) as i32,
            y: clamp_i32(self.y + other.y) as i32,
        }
    }

    /// Componentwise difference, saturating.
    pub open spec fn minus_spec(self, other: Vec2) -> Vec2 {
        Vec2 {
            x: clamp_i32(self.x - other.x) as i32,
            y: clamp_i32(self.y - other.y) as i32,
        }
    }

    /// Squared distance between two points.
    pub open spec fn distance_squared_spec(self, other: Vec2) -> nat {
        ((self.x - other.x) * (self.x - other.x) + (self.y - other.y) * (self.y - other.y)) as nat
    }

    /// The displacement of length `len` from `self` toward `target`.
    pub open spec fn toward_spec(self, target: Vec2, len: nat) -> Vec2 {
        scaled(target.x - self.x, target.y - self.y, len)
    }

    /// The direction of this displacement, one world unit long; a zero
    /// displacement points along the x axis.
    pub open spec fn heading_spec(self) -> Vec2 {
        if self == Vec2::zero() {
            Vec2 { x: UNIT, y: 0 }
        } else {
            scaled(self.x as int, self.y as int, UNIT as nat)
        }
    }

    /// The point reached from `self` by going `len` toward `target`.
    pub open spec fn advanced_spec(self, target: Vec2, len: nat) -> Vec2 {
        self.plus_spec(self.toward_spec(target, len))
    }
}

/// The nearest `i32` to `v`.
pub fn saturate(v: i64) -> (c: i32)
    ensures
        c == clamp_i32(v as int),
{
    if v < i32::MIN as i64 {
        i32::MIN
    } else if v > i32::MAX as i64 {
        i32::MAX
    } else {
        v as i32
    }
}

/// `m` with the sign chosen by `negative`, brought into the range of `i32`.
fn signed_component(negative: bool, m: u64) -> (c: i32)
    ensures
        c == clamp_i32(if negative { -(m as int) } else { m as int }),
{
    if negative {
        if m > 0x8000_0000 {
            i32::MIN
        } else {
            (-(m as i64)) as i32
        }
    } else {
        if m > 0x7fff_ffff {
            i32::MAX
        } else {
            m as i32
        }
    }
}

/// Executable form of [`scaled`].
fn scale(dx: i64, dy: i64, len: u32) -> (v: Vec2)
    requires
        -0xffff_ffff <= dx <= 0xffff_ffff,
        -0xffff_ffff <= dy <= 0xffff_ffff,
    ensures
        v == scaled(dx as int, dy as int, len as nat),
{
    proof {
        assert(0 <= dx * dx <= 0xffff_ffff * 0xffff_ffff) by (nonlinear_arith)
            requires
                -0xffff_ffff <= dx <= 0xffff_ffff,
        ;
        assert(0 <= dy * dy <= 0xffff_ffff * 0xffff_ffff) by (nonlinear_arith)
            requires
                -0xffff_ffff <= dy <= 0xffff_ffff,
        ;
        assert(len * len <= 0xffff_ffff * 0xffff_ffff) by (nonlinear_arith)
            requires
                0 <= len <= 0xffff_ffff,
        ;
    }
    let sx: u128 = (dx as i128 * dx as i128) as u128;
    let sy: u128 = (dy as i128 * dy as i128) as u128;
    let n2: u128 = sx + sy;
    if n2 == 0 {
        return Vec2 { x: 0, y: 0 };
    }
    let l2: u128 = len as u128 * len as u128;
    proof {
        let a = 0xffff_fffe_0000_0001int;
        assert(a == 0xffff_ffff * 0xffff_ffff);
        assert(sx * l2 <= a * a) by (nonlinear_arith)
            requires
                0 <= sx <= a,
                0 <= l2 <= a,
        ;
        assert(sy * l2 <= a * a) by (nonlinear_arith)
            requires
                0 <= sy <= a,
                0 <= l2 <= a,
        ;
        assert(a * a <= u128::MAX) by (nonlinear_arith)
            requires
                a == 0xffff_fffe_0000_0001int,
        ;
    }
    let mx: u64 = integer_sqrt(sx * l2 / n2);
    let my: u64 = integer_sqrt(sy * l2 / n2);
    Vec2 { x: signed_component(dx < 0, mx), y: signed_component(dy < 0, my) }
}

/// The length covered in `dt` microseconds at `speed` steps per second.
pub fn step(speed: u32, dt: u64) -> (len: u32)
    ensures
        len == step_length(speed as nat, dt as nat),
{
    proof {
        assert(speed * dt <= 0xffff_ffff * 0xffff_ffff_ffff_ffff) by (nonlinear_arith)
            requires
                0 <= speed <= 0xffff_ffff,
                0 <= dt <= 0xffff_ffff_ffff_ffff,
        ;
    }
    let steps: u128 = (speed as u128 * dt as u128) / (SECOND as u128);
    if steps > u32::MAX as u128 {
        u32::MAX
    } else {
        steps as u32
    }
}

impl Vec2 {
    /// The zero displacement.
    pub fn origin() -> (v: Vec2)
        ensures
            v == Vec2::zero(),
    {
        Vec2 { x: 0, y: 0 }
    }

    pub fn new(x: i32, y: i32) -> (v: Vec2)
        ensures
            v == (Vec2 { x, y }),
    {
        Vec2 { x, y }
    }

    /// A point given in whole world units.
    pub fn from_units(x: i32, y: i32) -> (v: Vec2)
        ensures
            v.x == clamp_i32(x * UNIT),
            v.y == clamp_i32(y * UNIT),
    {
        proof {
            assert(-0x8000_0000 * 1000 <= x * 1000 <= 0x8000_0000 * 1000) by (nonlinear_arith)
                requires
                    -0x8000_0000 <= x <= 0x8000_0000,
            ;
            assert(-0x8000_0000 * 1000 <= y * 1000 <= 0x8000_0000 * 1000) by (nonlinear_arith)
                requires
                    -0x8000_0000 <= y <= 0x8000_0000,
            ;
        }
        Vec2 { x: saturate(x as i64 * UNIT as i64), y: saturate(y as i64 * UNIT as i64) }
    }

    pub fn is_zero(&self) -> (b: bool)
        ensures
            b == (*self == Vec2::zero()),
    {
        self.x == 0 && self.y == 0
    }

    /// Componentwise sum, saturating at the bounds of `i32`.
    pub fn plus(&self, other: Vec2) -> (v: Vec2)
        ensures
            v == self.plus_spec(other),
    {
        Vec2 {
            x: saturate(self.x as i64 + other.x as i64),
            y: saturate(self.y as i64 + other.y as i64),
        }
    }

    /// Componentwise difference, saturating at the bounds of `i32`.
    pub fn minus(&self, other: Vec2) -> (v: Vec2)
        ensures
            v == self.minus_spec(other),
    {
        Vec2 {
            x: saturate(self.x as i64 - other.x as i64),
            y: saturate(self.y as i64 - other.y as i64),
        }
    }

    /// Squared distance to `other`, capped at `u64::MAX`.
    pub fn distance_squared(&self, other: Vec2) -> (d: u64)
        ensures
            d == if self.distance_squared_spec(other) > u64::MAX {
                u64::MAX as nat
            } else {
                self.distance_squared_spec(other)
            },
    {
        let dx: i128 = self.x as i128 - other.x as i128;
        let dy: i128 = self.y as i128 - other.y as i128;
        proof {
            assert(0 <= dx * dx <= 0xffff_ffff * 0xffff_ffff) by (nonlinear_arith)
                requires
                    -0xffff_ffff <= dx <= 0xffff_ffff,
            ;
            assert(0 <= dy * dy <= 0xffff_ffff * 0xffff_ffff) by (nonlinear_arith)
                requires
                    -0xffff_ffff <= dy <= 0xffff_ffff,
            ;
        }
        let sum: i128 = dx * dx + dy * dy;
        if sum > u64::MAX as i128 {
            u64::MAX
        } else {
            sum as u64
        }
    }

    /// Whether `other` lies within `radius` steps of `self`.
    pub fn within(&self, other: Vec2, radius: u32) -> (b: bool)
        ensures
            b == (self.distance_squared_spec(other) <= radius * radius),
    {
        proof {
            assert(radius * radius <= 0xffff_ffff * 0xffff_ffff) by (nonlinear_arith)
                requires
                    0 <= radius <= 0xffff_ffff,
            ;
        }
        let r2: u64 = radius as u64 * radius as u64;
        self.distance_squared(other) <= r2
    }

    /// The displacement of length `len` toward `target`; zero where
    /// `target` is `self`.
    pub fn toward(&self, target: Vec2, len: u32) -> (v: Vec2)
        ensures
            v == self.toward_spec(target, len as nat),
    {
        scale(target.x as i64 - self.x as i64, target.y as i64 - self.y as i64, len)
    }

    /// This displacement brought to length `len`.
    pub fn with_length(&self, len: u32) -> (v: Vec2)
        ensures
            v == scaled(self.x as int, self.y as int, len as nat),
    {
        scale(self.x as i64, self.y as i64, len)
    }

    /// The direction of this displacement, one world unit long; a zero
    /// displacement points along the x axis.
    pub fn heading(&self) -> (v: Vec2)
        ensures
            v == self.heading_spec(),
    {
        if self.is_zero() {
            Vec2 { x: UNIT, y: 0 }
        } else {
            scale(self.x as i64, self.y as i64, 1000)
        }
    }

    /// The point reached by going `len` toward `target`.
    pub fn advanced(&self, target: Vec2, len: u32) -> (v: Vec2)
        ensures
            v == self.advanced_spec(target, len as nat),
    {
        self.plus(self.toward(target, len))
    }
}

/// A displacement brought to a length is no longer than that length,
/// points the way it pointed, and is zero where there was none.
pub proof fn lemma_scaled_bound(dx: int, dy: int, len: nat)
    requires
        len <= i32::MAX,
    ensures
        ({
            let v = scaled(dx, dy, len);
            &&& v.x * v.x + v.y * v.y <= len * len
            &&& -len <= v.x <= len
            &&& -len <= v.y <= len
            &&& (dx >= 0 ==> v.x >= 0)
            &&& (dx <= 0 ==> v.x <= 0)
            &&& (dy >= 0 ==> v.y >= 0)
            &&& (dy <= 0 ==> v.y <= 0)
            &&& (dx == 0 && dy == 0 ==> v == Vec2::zero())
        }),
{
    let n2 = (dx * dx + dy * dy) as nat;
    assert(dx * dx >= 0 && dy * dy >= 0) by (nonlinear_arith);
    if n2 == 0 {
        assert(0 <= len * len) by (nonlinear_arith);
        assert(dx == 0 && dy == 0) by (nonlinear_arith)
            requires
                dx * dx + dy * dy == 0,
        ;
    } else {
        let l2 = len * len;
        let ax = ((dx * dx) as nat) * l2;
        let ay = ((dy * dy) as nat) * l2;
        let qx = ax / n2;
        let qy = ay / n2;
        let mx = isqrt(qx);
        let my = isqrt(qy);
        lemma_isqrt(qx);
        lemma_isqrt(qy);
        vstd::arithmetic::div_mod::lemma_fundamental_div_mod(ax as int, n2 as int);
        vstd::arithmetic::div_mod::lemma_fundamental_div_mod(ay as int, n2 as int);
        vstd::arithmetic::div_mod::lemma_mod_bound(ax as int, n2 as int);
        vstd::arithmetic::div_mod::lemma_mod_bound(ay as int, n2 as int);
        assert(ax + ay == n2 * l2) by (nonlinear_arith)
            requires
                ax == ((dx * dx) as nat) * l2,
                ay == ((dy * dy) as nat) * l2,
                n2 == dx * dx + dy * dy,
                dx * dx >= 0,
                dy * dy >= 0,
        ;
        assert(qx + qy <= l2) by (nonlinear_arith)
            requires
                n2 > 0,
                n2 * qx <= ax,
                n2 * qy <= ay,
                ax + ay == n2 * l2,
        ;
        assert(mx * mx + my * my <= l2);
        assert(mx <= len && my <= len) by (nonlinear_arith)
            requires
                mx * mx + my * my <= len * len,
        ;
        let v = scaled(dx, dy, len);
        assert(v.x == with_sign(dx, mx));
        assert(v.y == with_sign(dy, my));
        assert(v.x * v.x == mx * mx) by (nonlinear_arith)
            requires
                v.x == mx || v.x == -mx,
        ;
        assert(v.y * v.y == my * my) by (nonlinear_arith)
            requires
                v.y == my || v.y == -my,
        ;
        if dx == 0 {
            assert(ax == 0) by (nonlinear_arith)
                requires
                    dx == 0,
                    ax == ((dx * dx) as nat) * l2,
            ;
            lemma_isqrt_square(0);
            assert(0nat * 0nat == 0) by (nonlinear_arith);
        }
        if dy == 0 {
            assert(ay == 0) by (nonlinear_arith)
                requires
                    dy == 0,
                    ay == ((dy * dy) as nat) * l2,
            ;
            lemma_isqrt_square(0);
            assert(0nat * 0nat == 0) by (nonlinear_arith);
        }
    }
}

/// Going toward a target never goes farther than the length asked for.
pub proof fn lemma_toward_bound(from: Vec2, to: Vec2, len: nat)
    requires
        len <= i32::MAX,
    ensures
        ({
            let v = from.toward_spec(to, len);
            &&& v.x * v.x + v.y * v.y <= len * len
            &&& (from == to ==> v == Vec2::zero())
        }),
{
    lemma_scaled_bound(to.x - from.x, to.y - from.y, len);
}

} // verus!
