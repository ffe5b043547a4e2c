//! Integer 3-vector arithmetic: the coordinate type that every other
//! component builds on. World and chunk coordinates can be negative, so
//! division and remainder are Euclidean: the remainder is always
//! non-negative for a positive divisor.

use vstd::prelude::*;

verus! {

/// An error of the core: either a coordinate-to-index conversion was
/// attempted on a negative local coordinate, or a voxel was asked to be
/// cleared back to air, which the chunk store does not support.
#[derive(Clone, Copy, Debug, PartialEq, Eq, Structural)]
pub enum VoxelError {
    NegativeCoordinate,
    UnsupportedClear,
}

/// Three signed integer coordinates.
#[derive(Clone, Copy, Debug, PartialEq, Eq, Structural, Hash)]
pub struct Coord3 {
    pub x: i32,
    pub y: i32,
    pub z: i32,
}

/// Squared Euclidean distance between two coordinates, as a mathematical
/// integer (never overflows).
pub open spec fn dist2i(a: Coord3, b: Coord3) -> int {
    (a.x - b.x) * (a.x - b.x) + (a.y - b.y) * (a.y - b.y) + (a.z - b.z) * (a.z - b.z)
}

/// Squared magnitude as a mathematical integer.
pub open spec fn mag2i(a: Coord3) -> int {
    a.x * a.x + a.y * a.y + a.z * a.z
}

impl Default for Coord3 {
    fn default() -> (r: Self)
        ensures
            r == (Coord3 { x: 0, y: 0, z: 0 }),
    {
        Coord3 { x: 0, y: 0, z: 0 }
    }
}

impl Coord3 {
    pub fn from_tuple(tp: &(i32, i32, i32)) -> (r: Coord3)
        ensures
            r == (Coord3 { x: tp.0, y: tp.1, z: tp.2 }),
    {
        Coord3 { x: tp.0, y: tp.1, z: tp.2 }
    }

    pub fn new(x: i32, y: i32, z: i32) -> (r: Coord3)
        ensures
            r == (Coord3 { x, y, z }),
    {
        Coord3 { x, y, z }
    }

    /// Componentwise sum.
    pub fn add(self, rhs: Coord3) -> (r: Coord3)
        requires
            i32::MIN <= self.x + rhs.x <= i32::MAX,
            i32::MIN <= self.y + rhs.y <= i32::MAX,
            i32::MIN <= self.z + rhs.z <= i32::MAX,
        ensures
            r.x == self.x + rhs.x,
            r.y == self.y + rhs.y,
            r.z == self.z + rhs.z,
    {
        Coord3 { x: self.x + rhs.x, y: self.y + rhs.y, z: self.z + rhs.z }
    }

    /// Componentwise difference.
    pub fn sub(self, rhs: Coord3) -> (r: Coord3)
        requires
            i32::MIN <= self.x - rhs.x <= i32::MAX,
            i32::MIN <= self.y - rhs.y <= i32::MAX,
            i32::MIN <= self.z - rhs.z <= i32::MAX,
        ensures
            r.x == self.x - rhs.x,
            r.y == self.y - rhs.y,
            r.z == self.z - rhs.z,
    {
        Coord3 { x: self.x - rhs.x, y: self.y - rhs.y, z: self.z - rhs.z }
    }

    /// Scalar multiply.
    pub fn scale(self, scalar: i32) -> (r: Coord3)
        requires
            i32::MIN <= self.x * scalar <= i32::MAX,
            i32::MIN <= self.y * scalar <= i32::MAX,
            i32::MIN <= self.z * scalar <= i32::MAX,
        ensures
            r.x == self.x * scalar,
            r.y == self.y * scalar,
            r.z == self.z * scalar,
    {
        Coord3 { x: self.x * scalar, y: self.y * scalar, z: self.z * scalar }
    }

    pub fn xzy(&self) -> (r: Coord3)
        ensures
            r == (Coord3 { x: self.x, y: self.z, z: self.y }),
    {
        Coord3 { x: self.x, y: self.z, z: self.y }
    }

    pub fn yxz(&self) -> (r: Coord3)
        ensures
            r == (Coord3 { x: self.y, y: self.x, z: self.z }),
    {
        Coord3 { x: self.y, y: self.x, z: self.z }
    }

    pub fn yzx(&self) -> (r: Coord3)
        ensures
            r == (Coord3 { x: self.y, y: self.z, z: self.x }),
    {
        Coord3 { x: self.y, y: self.z, z: self.x }
    }

    pub fn zyx(&self) -> (r: Coord3)
        ensures
            r == (Coord3 { x: self.z, y: self.y, z: self.x }),
    {
        Coord3 { x: self.z, y: self.y, z: self.x }
    }

    pub fn zxy(&self) -> (r: Coord3)
        ensures
            r == (Coord3 { x: self.z, y: self.x, z: self.y }),
    {
        Coord3 { x: self.z, y: self.x, z: self.y }
    }

    /// Squared magnitude; exact (no floating point), so sphere-membership
    /// tests stay exact.
    pub fn magnitude2(&self) -> (r: i32)
        requires
            mag2i(*self) <= i32::MAX,
        ensures
            r == mag2i(*self),
    {
        proof {
            assert(self.x * self.x >= 0 && self.y * self.y >= 0 && self.z * self.z >= 0)
                by (nonlinear_arith);
        }
        self.x * self.x + self.y * self.y + self.z * self.z
    }

    /// Squared distance to `other`; exact.
    pub fn distance2(&self, other: Coord3) -> (r: i32)
        requires
            i32::MIN <= self.x - other.x <= i32::MAX,
            i32::MIN <= self.y - other.y <= i32::MAX,
            i32::MIN <= self.z - other.z <= i32::MAX,
            dist2i(*self, other) <= i32::MAX,
        ensures
            r == dist2i(*self, other),
    {
        let d = self.sub(other);
        d.magnitude2()
    }

    /// Componentwise Euclidean division: the quotient is the floor of the
    /// exact quotient for a positive divisor, so negative world coordinates
    /// map to the correct (negative) chunk coordinate.
    pub fn div_euclid(&self, value: i32) -> (r: Coord3)
        requires
            value > 0,
        ensures
            r.x == self.x as int / value as int,
            r.y == self.y as int / value as int,
            r.z == self.z as int / value as int,
    {
        Coord3 {
            x: euclid_div_i32(self.x, value),
            y: euclid_div_i32(self.y, value),
            z: euclid_div_i32(self.z, value),
        }
    }

    /// Componentwise Euclidean remainder: always in `[0, value)`, so a
    /// chunk-local coordinate is never negative.
    pub fn mod_euclid(&self, value: i32) -> (r: Coord3)
        requires
            value > 0,
        ensures
            r.x == self.x as int % value as int,
            r.y == self.y as int % value as int,
            r.z == self.z as int % value as int,
            0 <= r.x < value,
            0 <= r.y < value,
            0 <= r.z < value,
    {
        Coord3 {
            x: euclid_mod_i32(self.x, value),
            y: euclid_mod_i32(self.y, value),
            z: euclid_mod_i32(self.z, value),
        }
    }

    /// Converts to unsigned components, failing on any negative one.
    pub fn to_usize3(&self) -> (r: Result<(usize, usize, usize), VoxelError>)
        ensures
            self.x >= 0 && self.y >= 0 && self.z >= 0 ==> r == Ok::<_, VoxelError>(
                (self.x as usize, self.y as usize, self.z as usize),
            ),
            !(self.x >= 0 && self.y >= 0 && self.z >= 0) ==> r == Err::<(usize, usize, usize), _>(
                VoxelError::NegativeCoordinate,
            ),
    {
        if self.x < 0 || self.y < 0 || self.z < 0 {
            return Err(VoxelError::NegativeCoordinate);
        }
        Ok((self.x as usize, self.y as usize, self.z as usize))
    }

    /// The coordinate one step up the y axis.
    pub fn upper(&self) -> (r: Coord3)
        requires
            self.y < i32::MAX,
        ensures
            r == (Coord3 { x: self.x, y: (self.y + 1) as i32, z: self.z }),
    {
        Coord3 { x: self.x, y: self.y + 1, z: self.z }
    }

    /// The coordinate one step down the y axis.
    pub fn lower(&self) -> (r: Coord3)
        requires
            self.y > i32::MIN,
        ensures
            r == (Coord3 { x: self.x, y: (self.y - 1) as i32, z: self.z }),
    {
        Coord3 { x: self.x, y: self.y - 1, z: self.z }
    }

    /// The six face-neighbor offsets, in the order +y, -y, +x, -x, +z, -z.
    /// The face index of the culling mask is the position in this list.
    pub fn neighbors_into_iter() -> (r: Vec<Coord3>)
        ensures
            r@ == neighbor_offsets(),
    {
        let mut v: Vec<Coord3> = Vec::new();
        v.push(Coord3 { x: 0, y: 1, z: 0 });
        v.push(Coord3 { x: 0, y: -1, z: 0 });
        v.push(Coord3 { x: 1, y: 0, z: 0 });
        v.push(Coord3 { x: -1, y: 0, z: 0 });
        v.push(Coord3 { x: 0, y: 0, z: 1 });
        v.push(Coord3 { x: 0, y: 0, z: -1 });
        proof {
            assert(v@ =~= neighbor_offsets());
        }
        v
    }
}

/// The six face-neighbor offsets as a sequence: +y, -y, +x, -x, +z, -z.
pub open spec fn neighbor_offsets() -> Seq<Coord3> {
    seq![
        Coord3 { x: 0, y: 1, z: 0 },
        Coord3 { x: 0, y: -1i32, z: 0 },
        Coord3 { x: 1, y: 0, z: 0 },
        Coord3 { x: -1i32, y: 0, z: 0 },
        Coord3 { x: 0, y: 0, z: 1 },
        Coord3 { x: 0, y: 0, z: -1i32 },
    ]
}

/// Squared distance computed in a wide integer: exact for every pair of
/// coordinates, with no precondition.
pub fn distance2_wide(a: Coord3, b: Coord3) -> (d: i128)
    ensures
        d == dist2i(a, b),
{
    let dx = a.x as i128 - b.x as i128;
    let dy = a.y as i128 - b.y as i128;
    let dz = a.z as i128 - b.z as i128;
    proof {
        assert(dx * dx >= 0 && dx * dx <= 0x10000000000000000) by (nonlinear_arith)
            requires -0x100000000 <= dx <= 0x100000000;
        assert(dy * dy >= 0 && dy * dy <= 0x10000000000000000) by (nonlinear_arith)
            requires -0x100000000 <= dy <= 0x100000000;
        assert(dz * dz >= 0 && dz * dz <= 0x10000000000000000) by (nonlinear_arith)
            requires -0x100000000 <= dz <= 0x100000000;
    }
    dx * dx + dy * dy + dz * dz
}

/// The Euclidean quotient of a bounded value by a positive divisor stays in
/// bounds.
proof fn lemma_euclid_div_in_range(a: int, b: int)
    requires
        b >= 1,
        i32::MIN <= a <= i32::MAX,
    ensures
        i32::MIN <= a / b <= i32::MAX,
{
    vstd::arithmetic::div_mod::lemma_fundamental_div_mod(a, b);
    let q = a / b;
    let r = a % b;
    if q < i32::MIN {
        assert(b * q <= q) by (nonlinear_arith)
            requires b >= 1 && q < 0;
        assert(b * (q + 1) <= q + 1) by (nonlinear_arith)
            requires b >= 1 && q + 1 <= 0;
        assert(a == b * q + r);
        assert(b * q + b == b * (q + 1)) by (nonlinear_arith);
        assert(a < b * (q + 1));
        assert(false);
    }
    if q > i32::MAX {
        assert(b * q >= q) by (nonlinear_arith)
            requires b >= 1 && q > 0;
        assert(a >= b * q);
        assert(false);
    }
}

/// Euclidean division of an `i32` by a positive divisor.
fn euclid_div_i32(a: i32, b: i32) -> (q: i32)
    requires
        b > 0,
    ensures
        q == a as int / b as int,
{
    proof {
        lemma_euclid_div_in_range(a as int, b as int);
    }
    match a.checked_div_euclid(b) {
        Some(q) => q,
        None => {
            proof {
                assert(false);
            }
            0
        },
    }
}

/// Euclidean remainder of an `i32` by a positive divisor.
fn euclid_mod_i32(a: i32, b: i32) -> (r: i32)
    requires
        b > 0,
    ensures
        r == a as int % b as int,
        0 <= r < b,
{
    match a.checked_rem_euclid(b) {
        Some(r) => r,
        None => {
            proof {
                assert(false);
            }
            0
        },
    }
}

} // verus!
