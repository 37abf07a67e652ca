//! Positions on an integer grid and the distance between two of them.
//!
//! A coordinate counts grid steps; how long a step is (a millimetre, say) is
//! the caller's choice, and every length in this crate is counted in the same
//! steps. The distance between two positions is the Euclidean distance rounded
//! down to a whole number of steps.

use vstd::prelude::*;

verus! {

/// A point in space.
#[derive(Clone, Copy, Debug, PartialEq, Eq, Structural)]
pub struct Position {
    pub x: i32,
    pub y: i32,
    pub z: i32,
}

/// The square of the Euclidean distance between two positions.
pub open spec fn squared_distance(a: Position, b: Position) -> nat {
    let dx = a.x - b.x;
    let dy = a.y - b.y;
    let dz = a.z - b.z;
    (dx * dx + dy * dy + dz * dz) as nat
}

/// `root` is the square root of `n`, rounded down.
pub open spec fn is_floor_sqrt(n: nat, root: nat) -> bool {
    root * root <= n < (root + 1) * (root + 1)
}

/// The square root of `n`, rounded down.
pub open spec fn floor_sqrt(n: nat) -> nat {
    choose|root: nat| is_floor_sqrt(n, root)
}

/// The Euclidean distance between two positions, rounded down.
pub open spec fn distance(a: Position, b: Position) -> nat {
    floor_sqrt(squared_distance(a, b))
}

/// Zero is its own square root.
proof fn zero_is_root_of_zero()
    ensures
        is_floor_sqrt(0, 0),
{
    assert(0nat * 0nat == 0 && (0nat + 1) * (0nat + 1) == 1) by (nonlinear_arith);
}

/// Every number has a rounded-down square root.
proof fn floor_sqrt_exists(n: nat)
    ensures
        exists|root: nat| is_floor_sqrt(n, root),
    decreases n,
{
    if n == 0 {
        zero_is_root_of_zero();
    } else {
        let before = (n - 1) as nat;
        floor_sqrt_exists(before);
        let below = choose|root: nat| is_floor_sqrt(before, root);
        if (below + 1) * (below + 1) <= n {
            assert((below + 1) * (below + 1) < (below + 2) * (below + 2)) by (nonlinear_arith);
            assert(is_floor_sqrt(n, below + 1));
        } else {
            assert(is_floor_sqrt(n, below));
        }
    }
}

/// Two numbers whose squares are ordered are ordered the same way.
proof fn square_order(a: nat, b: nat)
    requires
        a * a < b * b,
    ensures
        a < b,
{
    if a >= b {
        assert(a * a >= b * b) by (nonlinear_arith)
            requires
                a >= b,
        ;
    }
}

/// `floor_sqrt(n)` is the one number whose square is at most `n` while the
/// square of its successor is not.
pub proof fn floor_sqrt_is_root(n: nat)
    ensures
        is_floor_sqrt(n, floor_sqrt(n)),
        forall|root: nat| is_floor_sqrt(n, root) ==> root == floor_sqrt(n),
{
    floor_sqrt_exists(n);
    let s = floor_sqrt(n);
    assert forall|root: nat| is_floor_sqrt(n, root) implies root == s by {
        square_order(root, s + 1);
        square_order(s, root + 1);
    }
}

/// The rounded-down square root never falls when its argument grows.
pub proof fn floor_sqrt_monotonic(a: nat, b: nat)
    requires
        a <= b,
    ensures
        floor_sqrt(a) <= floor_sqrt(b),
{
    floor_sqrt_is_root(a);
    floor_sqrt_is_root(b);
    square_order(floor_sqrt(a), floor_sqrt(b) + 1);
}

/// The distance from a position to itself is zero.
pub proof fn distance_to_self(a: Position)
    ensures
        distance(a, a) == 0,
{
    zero_is_root_of_zero();
    floor_sqrt_is_root(0);
}

/// Distance does not depend on the order of the two positions.
pub proof fn distance_symmetric(a: Position, b: Position)
    ensures
        distance(a, b) == distance(b, a),
{
    assert(squared_distance(a, b) == squared_distance(b, a)) by (nonlinear_arith)
        requires
            squared_distance(a, b) == ((a.x - b.x) * (a.x - b.x) + (a.y - b.y) * (a.y - b.y) + (a.z
                - b.z) * (a.z - b.z)) as nat,
            squared_distance(b, a) == ((b.x - a.x) * (b.x - a.x) + (b.y - a.y) * (b.y - a.y) + (b.z
                - a.z) * (b.z - a.z)) as nat,
    ;
}

/// The square root of `n`, rounded down, found by bisection.
pub fn integer_sqrt(n: u128) -> (root: u64)
    ensures
        root == floor_sqrt(n as nat),
{
    let mut low: u128 = 0;
    let mut high: u128 = 0x1_0000_0000_0000_0000;
    assert(n < high * high) by (nonlinear_arith)
        requires
            n <= u128::MAX,
            high == 0x1_0000_0000_0000_0000,
    ;
    while high - low > 1
        invariant
            low < high <= 0x1_0000_0000_0000_0000,
            low * low <= n < high * high,
        decreases high - low,
    {
        let middle: u128 = low + (high - low) / 2;
        assert(middle * middle <= 0xffff_ffff_ffff_ffff * 0xffff_ffff_ffff_ffff) by (
            nonlinear_arith
        )
            requires
                middle <= 0xffff_ffff_ffff_ffff,
        ;
        if middle * middle <= n {
            low = middle;
        } else {
            high = middle;
        }
    }
    proof {
        assert(is_floor_sqrt(n as nat, low as nat));
        floor_sqrt_is_root(n as nat);
    }
    low as u64
}

/// The distance between two positions, rounded down to whole grid steps.
pub fn euclidian_distance(a: &Position, b: &Position) -> (d: u64)
    ensures
        d == distance(*a, *b),
{
    let dx: i64 = a.x as i64 - b.x as i64;
    let dy: i64 = a.y as i64 - b.y as i64;
    let dz: i64 = a.z as i64 - b.z as i64;
    let sx: u128 = square(dx);
    let sy: u128 = square(dy);
    let sz: u128 = square(dz);
    integer_sqrt(sx + sy + sz)
}

/// The square of a difference of two coordinates.
fn square(delta: i64) -> (sq: u128)
    requires
        -0xffff_ffff <= delta <= 0xffff_ffff,
    ensures
        sq == delta * delta,
        sq <= 0xffff_ffff * 0xffff_ffff,
{
    let size: u128 = if delta < 0 {
        (-delta) as u128
    } else {
        delta as u128
    };
    assert(size * size == delta * delta) by (nonlinear_arith)
        requires
            size == delta || size == -delta,
    ;
    assert(size * size <= 0xffff_ffff * 0xffff_ffff) by (nonlinear_arith)
        requires
            0 <= size <= 0xffff_ffff,
    ;
    size * size
}

} // verus!
