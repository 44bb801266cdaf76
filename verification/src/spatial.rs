use vstd::prelude::*;
use crate::primitives::SCALE;

verus! {

/// Largest magnitude an axis component may take, in ticks.
pub const MAX_AXIS: i64 = 1_000_000;

/// Largest magnitude a scalar offset may take when scaling an axis, in ticks.
pub const MAX_OFFSET: i64 = 1_000_000_000_000;

/// Largest magnitude a scaled product can reach: `MAX_OFFSET * MAX_AXIS / SCALE`.
pub const MAX_SCALED: i64 = 1_000_000_000_000_000;

/// Product of a scalar and one axis component, brought back to tick scale.
/// Division truncates toward zero, as the executable arithmetic does.
pub open spec fn scale_comp(c: int, s: int) -> int {
    if c * s >= 0 {
        (c * s) / (SCALE as int)
    } else {
        -((-(c * s)) / (SCALE as int))
    }
}

/// A spatial vector in fixed-point ticks (`SCALE` ticks = one unit).
#[derive(Clone, Copy, Debug, PartialEq, Eq, Structural, Hash)]
pub struct Vec3 {
    pub x: i64,
    pub y: i64,
    pub z: i64,
}

/// Truncating division of `c * s` by `SCALE`, on executable integers.
fn mul_scaled(c: i64, s: i64) -> (r: i64)
    requires
        -MAX_AXIS <= c <= MAX_AXIS,
        -MAX_OFFSET <= s <= MAX_OFFSET,
    ensures
        r == scale_comp(c as int, s as int),
        -MAX_SCALED <= r <= MAX_SCALED,
{
    proof {
        lemma_scale_comp_bound(c as int, s as int);
    }
    let cm: u64 = if c >= 0 {
        c as u64
    } else {
        (-c) as u64
    };
    let sm: u64 = if s >= 0 {
        s as u64
    } else {
        (-s) as u64
    };
    proof {
        assert(cm * sm <= (MAX_AXIS as int) * (MAX_OFFSET as int)) by (nonlinear_arith)
            requires
                0 <= cm <= MAX_AXIS,
                0 <= sm <= MAX_OFFSET,
        ;
        assert(cm * sm == if c * s >= 0 {
            c * s
        } else {
            -(c * s)
        }) by (nonlinear_arith)
            requires
                cm == if c >= 0 { c as int } else { -(c as int) },
                sm == if s >= 0 { s as int } else { -(s as int) },
        ;
        assert(((c < 0) != (s < 0)) && cm * sm > 0 ==> c * s < 0) by (nonlinear_arith)
            requires
                cm == if c >= 0 { c as int } else { -(c as int) },
                sm == if s >= 0 { s as int } else { -(s as int) },
        ;
        assert(((c < 0) != (s < 0)) || c * s >= 0) by (nonlinear_arith);
    }
    let prod: u64 = cm * sm;
    let q: u64 = prod / (SCALE as u64);
    let neg: bool = (c < 0) != (s < 0);
    if neg && q > 0 {
        -(q as i64)
    } else {
        proof {
            if neg {
                assert(q == 0);
                assert(scale_comp(c as int, s as int) == 0);
            }
        }
        q as i64
    }
}

/// The scaled product stays well inside `i64`.
pub proof fn lemma_scale_comp_bound(c: int, s: int)
    requires
        -MAX_AXIS <= c <= MAX_AXIS,
        -MAX_OFFSET <= s <= MAX_OFFSET,
    ensures
        -MAX_SCALED <= scale_comp(c, s) <= MAX_SCALED,
        -(MAX_OFFSET as int) * (MAX_AXIS as int) <= c * s <= (MAX_OFFSET as int) * (MAX_AXIS as int),
{
    assert(-(MAX_OFFSET as int) * (MAX_AXIS as int) <= c * s <= (MAX_OFFSET as int) * (MAX_AXIS as int)) by (nonlinear_arith)
        requires
            -MAX_AXIS <= c <= MAX_AXIS,
            -MAX_OFFSET <= s <= MAX_OFFSET,
    ;
    if c * s >= 0 {
        assert((c * s) / (SCALE as int) <= MAX_SCALED) by (nonlinear_arith)
            requires
                0 <= c * s <= (MAX_OFFSET as int) * (MAX_AXIS as int),
        ;
    } else {
        assert((-(c * s)) / (SCALE as int) <= MAX_SCALED) by (nonlinear_arith)
            requires
                0 < -(c * s) <= (MAX_OFFSET as int) * (MAX_AXIS as int),
        ;
    }
}

impl Vec3 {
    pub fn new(x: i64, y: i64, z: i64) -> (r: Vec3)
        ensures
            r == (Vec3 { x, y, z }),
    {
        Vec3 { x, y, z }
    }

    pub fn zero() -> (r: Vec3)
        ensures
            r == (Vec3 { x: 0i64, y: 0i64, z: 0i64 }),
    {
        Vec3 { x: 0, y: 0, z: 0 }
    }

    /// Whether every component is small enough to serve as an axis.
    pub open spec fn axis_bounded(self) -> bool {
        &&& -MAX_AXIS <= self.x <= MAX_AXIS
        &&& -MAX_AXIS <= self.y <= MAX_AXIS
        &&& -MAX_AXIS <= self.z <= MAX_AXIS
    }

    /// The vector scaled by `s` ticks, componentwise.
    pub open spec fn spec_scaled(self, s: int) -> Vec3 {
        Vec3 {
            x: scale_comp(self.x as int, s) as i64,
            y: scale_comp(self.y as int, s) as i64,
            z: scale_comp(self.z as int, s) as i64,
        }
    }

    pub fn scaled(self, s: i64) -> (r: Vec3)
        requires
            self.axis_bounded(),
            -MAX_OFFSET <= s <= MAX_OFFSET,
        ensures
            r == self.spec_scaled(s as int),
    {
        proof {
            lemma_scale_comp_bound(self.x as int, s as int);
            lemma_scale_comp_bound(self.y as int, s as int);
            lemma_scale_comp_bound(self.z as int, s as int);
        }
        Vec3 { x: mul_scaled(self.x, s), y: mul_scaled(self.y, s), z: mul_scaled(self.z, s) }
    }

    /// Scaling by a negated scalar negates every component.
    pub proof fn lemma_scaled_neg(self, s: int)
        requires
            self.axis_bounded(),
            -MAX_OFFSET <= s <= MAX_OFFSET,
        ensures
            self.spec_scaled(-s) == (Vec3 {
                x: (-self.spec_scaled(s).x) as i64,
                y: (-self.spec_scaled(s).y) as i64,
                z: (-self.spec_scaled(s).z) as i64,
            }),
    {
        lemma_scale_comp_neg(self.x as int, s);
        lemma_scale_comp_neg(self.y as int, s);
        lemma_scale_comp_neg(self.z as int, s);
        lemma_scale_comp_bound(self.x as int, s);
        lemma_scale_comp_bound(self.y as int, s);
        lemma_scale_comp_bound(self.z as int, s);
    }
}

/// Truncating scaled products are odd in the scalar argument.
pub proof fn lemma_scale_comp_neg(c: int, s: int)
    ensures
        scale_comp(c, -s) == -scale_comp(c, s),
{
    assert(c * (-s) == -(c * s)) by (nonlinear_arith);
}

/// A rotation as a quaternion in fixed-point ticks; `identity` is no rotation.
#[derive(Clone, Copy, Debug, PartialEq, Eq, Structural, Hash)]
pub struct Rotation {
    pub x: i64,
    pub y: i64,
    pub z: i64,
    pub w: i64,
}

impl Rotation {
    pub open spec fn spec_identity() -> Rotation {
        Rotation { x: 0i64, y: 0i64, z: 0i64, w: SCALE }
    }

    pub fn identity() -> (r: Rotation)
        ensures
            r == Rotation::spec_identity(),
    {
        Rotation { x: 0, y: 0, z: 0, w: SCALE }
    }
}

/// A point in the local frame of some parent entity.
#[derive(Clone, Copy, Debug, PartialEq, Eq, Structural, Hash)]
pub struct LocalPosition(pub Vec3);

impl LocalPosition {
    pub fn new(x: i64, y: i64, z: i64) -> (r: LocalPosition)
        ensures
            r.0 == (Vec3 { x, y, z }),
    {
        LocalPosition(Vec3 { x, y, z })
    }

    pub fn as_vec3(self) -> (r: Vec3)
        ensures
            r == self.0,
    {
        self.0
    }
}

impl From<Vec3> for LocalPosition {
    fn from(v: Vec3) -> (r: LocalPosition) {
        LocalPosition(v)
    }
}

impl vstd::std_specs::convert::FromSpecImpl<Vec3> for LocalPosition {
    open spec fn obeys_from_spec() -> bool {
        true
    }

    open spec fn from_spec(v: Vec3) -> LocalPosition {
        LocalPosition(v)
    }
}

} // verus!
