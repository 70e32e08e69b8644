//! The optimizable variables of a factor graph.

use std::ops::Range;
use vstd::prelude::*;

verus! {

/// Whether a variable is held constant, or which slice of the global state
/// vector it occupies.
#[derive(Debug)]
pub enum FixedType {
    Fixed,
    NonFixed(Range<usize>),
}

impl FixedType {
    /// The half-open index interval of a free variable, as a pair; `None` for a fixed one.
    pub open spec fn range(self) -> Option<(int, int)> {
        match self {
            FixedType::Fixed => None,
            FixedType::NonFixed(r) => Some((r.start as int, r.end as int)),
        }
    }

    pub fn is_fixed(&self) -> (fixed: bool)
        ensures
            fixed == (*self is Fixed),
    {
        match self {
            FixedType::Fixed => true,
            FixedType::NonFixed(_) => false,
        }
    }

    /// A copy of this value.
    pub fn duplicate(&self) -> (copy: FixedType)
        ensures
            copy == *self,
    {
        match self {
            FixedType::Fixed => FixedType::Fixed,
            FixedType::NonFixed(r) => FixedType::NonFixed(r.start..r.end),
        }
    }
}

impl PartialEq for FixedType {
    fn eq(&self, other: &FixedType) -> (equal: bool) {
        match (self, other) {
            (FixedType::Fixed, FixedType::Fixed) => true,
            (FixedType::NonFixed(a), FixedType::NonFixed(b)) => a.start == b.start && a.end == b.end,
            _ => false,
        }
    }
}

impl vstd::std_specs::cmp::PartialEqSpecImpl for FixedType {
    open spec fn obeys_eq_spec() -> bool {
        true
    }

    open spec fn eq_spec(&self, other: &FixedType) -> bool {
        match (*self, *other) {
            (FixedType::Fixed, FixedType::Fixed) => true,
            (FixedType::NonFixed(a), FixedType::NonFixed(b)) => a.start == b.start && a.end == b.end,
            _ => false,
        }
    }
}

impl Eq for FixedType {}

/// The four kinds of variable.
#[derive(Debug, Clone, Copy, PartialEq, Eq, Structural)]
pub enum VariableType {
    Vehicle2D,
    Landmark2D,
    Vehicle3D,
    Landmark3D,
}

impl VariableType {
    /// Dimension of the local tangent space: the width of the variable's
    /// slice of the global state vector.
    pub open spec fn spec_local_dim(self) -> nat {
        match self {
            VariableType::Vehicle2D => 3,
            VariableType::Landmark2D => 2,
            VariableType::Vehicle3D => 6,
            VariableType::Landmark3D => 3,
        }
    }

    /// How many numbers an estimate of this kind is stored in.
    pub open spec fn spec_storage_width(self) -> nat {
        match self {
            VariableType::Vehicle2D => 3,
            VariableType::Landmark2D => 2,
            VariableType::Vehicle3D => 7,
            VariableType::Landmark3D => 3,
        }
    }

    pub fn local_dim(self) -> (d: usize)
        ensures
            d == self.spec_local_dim(),
    {
        match self {
            VariableType::Vehicle2D => 3,
            VariableType::Landmark2D => 2,
            VariableType::Vehicle3D => 6,
            VariableType::Landmark3D => 3,
        }
    }

    pub fn storage_width(self) -> (w: usize)
        ensures
            w == self.spec_storage_width(),
    {
        match self {
            VariableType::Vehicle2D => 3,
            VariableType::Landmark2D => 2,
            VariableType::Vehicle3D => 7,
            VariableType::Landmark3D => 3,
        }
    }
}

/// A vehicle pose in the plane: `(x, y, phi)`.
#[derive(Debug)]
pub struct VehicleVariable2D {
    pub id: usize,
    pub pose: [u64; 3],
    pub fixed_type: FixedType,
}

/// A landmark position in the plane: `(x, y)`.
#[derive(Debug)]
pub struct LandmarkVariable2D {
    pub id: usize,
    pub position: [u64; 2],
    pub fixed_type: FixedType,
}

/// A vehicle pose in space: `(x, y, z, qx, qy, qz, qw)`.
#[derive(Debug)]
pub struct VehicleVariable3D {
    pub id: usize,
    pub pose: [u64; 7],
    pub fixed_type: FixedType,
}

/// A landmark position in space: `(x, y, z)`.
#[derive(Debug)]
pub struct LandmarkVariable3D {
    pub id: usize,
    pub position: [u64; 3],
    pub fixed_type: FixedType,
}

/// A variable of any supported kind.
#[derive(Debug)]
pub enum Variable {
    /// Vehicle pose (position and rotation) in 2D.
    Vehicle2D(VehicleVariable2D),
    /// Landmark position in 2D.
    Landmark2D(LandmarkVariable2D),
    /// Vehicle pose (position and rotation) in 3D.
    Vehicle3D(VehicleVariable3D),
    /// Landmark position in 3D.
    Landmark3D(LandmarkVariable3D),
}

impl VehicleVariable2D {
    /// A variable from a 2D pose, an id and its fixed type.
    pub fn new(id: usize, x: u64, y: u64, phi: u64, fixed_type: FixedType) -> (v: Self)
        ensures
            v.id == id,
            v.pose@ == seq![x, y, phi],
            v.fixed_type == fixed_type,
    {
        VehicleVariable2D { id, pose: [x, y, phi], fixed_type }
    }
}

impl LandmarkVariable2D {
    /// A variable from a 2D position, an id and its fixed type.
    pub fn new(id: usize, x: u64, y: u64, fixed_type: FixedType) -> (v: Self)
        ensures
            v.id == id,
            v.position@ == seq![x, y],
            v.fixed_type == fixed_type,
    {
        LandmarkVariable2D { id, position: [x, y], fixed_type }
    }
}

impl VehicleVariable3D {
    /// A variable from a 3D pose, an id and its fixed type.
    pub fn new(
        id: usize,
        x: u64,
        y: u64,
        z: u64,
        rot_x: u64,
        rot_y: u64,
        rot_z: u64,
        rot_w: u64,
        fixed_type: FixedType,
    ) -> (v: Self)
        ensures
            v.id == id,
            v.pose@ == seq![x, y, z, rot_x, rot_y, rot_z, rot_w],
            v.fixed_type == fixed_type,
    {
        VehicleVariable3D { id, pose: [x, y, z, rot_x, rot_y, rot_z, rot_w], fixed_type }
    }
}

impl LandmarkVariable3D {
    /// A variable from a 3D position, an id and its fixed type.
    pub fn new(id: usize, x: u64, y: u64, z: u64, fixed_type: FixedType) -> (v: Self)
        ensures
            v.id == id,
            v.position@ == seq![x, y, z],
            v.fixed_type == fixed_type,
    {
        LandmarkVariable3D { id, position: [x, y, z], fixed_type }
    }
}

/// The words of an array, in order, as a vector.
fn words_of<const N: usize>(words: &[u64; N]) -> (out: Vec<u64>)
    ensures
        out@ == words@,
{
    let mut out: Vec<u64> = Vec::new();
    let mut i: usize = 0;
    while i < N
        invariant
            i <= N,
            out@ == words@.take(i as int),
        decreases N - i,
    {
        out.push(words[i]);
        i += 1;
        assert(words@.take(i as int) == words@.take(i - 1).push(words@[i - 1]));
    }
    assert(words@.take(N as int) == words@);
    out
}

impl Variable {
    /// The kind of this variable.
    pub open spec fn kind(self) -> VariableType {
        match self {
            Variable::Vehicle2D(_) => VariableType::Vehicle2D,
            Variable::Landmark2D(_) => VariableType::Landmark2D,
            Variable::Vehicle3D(_) => VariableType::Vehicle3D,
            Variable::Landmark3D(_) => VariableType::Landmark3D,
        }
    }

    /// The id of this variable.
    pub open spec fn id(self) -> usize {
        match self {
            Variable::Vehicle2D(v) => v.id,
            Variable::Landmark2D(v) => v.id,
            Variable::Vehicle3D(v) => v.id,
            Variable::Landmark3D(v) => v.id,
        }
    }

    /// The fixed type of this variable.
    pub open spec fn fixed_type(self) -> FixedType {
        match self {
            Variable::Vehicle2D(v) => v.fixed_type,
            Variable::Landmark2D(v) => v.fixed_type,
            Variable::Vehicle3D(v) => v.fixed_type,
            Variable::Landmark3D(v) => v.fixed_type,
        }
    }

    /// The estimate of this variable: as many words as its kind stores.
    pub open spec fn content(self) -> Seq<u64> {
        match self {
            Variable::Vehicle2D(v) => v.pose@,
            Variable::Landmark2D(v) => v.position@,
            Variable::Vehicle3D(v) => v.pose@,
            Variable::Landmark3D(v) => v.position@,
        }
    }

    /// A free variable occupies a slice exactly as wide as the local
    /// dimension of its kind.
    pub open spec fn wf(self) -> bool {
        match self.fixed_type() {
            FixedType::Fixed => true,
            FixedType::NonFixed(r) => r.start + self.kind().spec_local_dim() == r.end,
        }
    }

    /// A variable of kind `kind` that holds `estimate`.
    pub fn new(kind: VariableType, id: usize, estimate: &Vec<u64>, fixed_type: FixedType) -> (v: Variable)
        requires
            estimate@.len() == kind.spec_storage_width(),
        ensures
            v.kind() == kind,
            v.id() == id,
            v.content() == estimate@,
            v.fixed_type() == fixed_type,
    {
        let e = estimate;
        match kind {
            VariableType::Vehicle2D => {
                let v = VehicleVariable2D::new(id, e[0], e[1], e[2], fixed_type);
                assert(v.pose@ =~= e@);
                Variable::Vehicle2D(v)
            },
            VariableType::Landmark2D => {
                let v = LandmarkVariable2D::new(id, e[0], e[1], fixed_type);
                assert(v.position@ =~= e@);
                Variable::Landmark2D(v)
            },
            VariableType::Vehicle3D => {
                let v = VehicleVariable3D::new(id, e[0], e[1], e[2], e[3], e[4], e[5], e[6], fixed_type);
                assert(v.pose@ =~= e@);
                Variable::Vehicle3D(v)
            },
            VariableType::Landmark3D => {
                let v = LandmarkVariable3D::new(id, e[0], e[1], e[2], fixed_type);
                assert(v.position@ =~= e@);
                Variable::Landmark3D(v)
            },
        }
    }

    pub fn get_type(&self) -> (kind: VariableType)
        ensures
            kind == self.kind(),
    {
        match self {
            Variable::Vehicle2D(_) => VariableType::Vehicle2D,
            Variable::Landmark2D(_) => VariableType::Landmark2D,
            Variable::Vehicle3D(_) => VariableType::Vehicle3D,
            Variable::Landmark3D(_) => VariableType::Landmark3D,
        }
    }

    pub fn get_fixed_type(&self) -> (fixed_type: &FixedType)
        ensures
            *fixed_type == self.fixed_type(),
    {
        match self {
            Variable::Vehicle2D(v) => &v.fixed_type,
            Variable::Landmark2D(v) => &v.fixed_type,
            Variable::Vehicle3D(v) => &v.fixed_type,
            Variable::Landmark3D(v) => &v.fixed_type,
        }
    }

    pub fn get_content(&self) -> (content: Vec<u64>)
        ensures
            content@ == self.content(),
            content@.len() == self.kind().spec_storage_width(),
    {
        match self {
            Variable::Vehicle2D(v) => words_of(&v.pose),
            Variable::Landmark2D(v) => words_of(&v.position),
            Variable::Vehicle3D(v) => words_of(&v.pose),
            Variable::Landmark3D(v) => words_of(&v.position),
        }
    }

    /// Replaces the estimate. Nothing is checked of the numbers: a 3D pose
    /// must come with its quaternion already normalized.
    pub fn set_content(&mut self, update: Vec<u64>)
        requires
            update@.len() == old(self).kind().spec_storage_width(),
        ensures
            final(self).content() == update@,
            final(self).kind() == old(self).kind(),
            final(self).id() == old(self).id(),
            final(self).fixed_type() == old(self).fixed_type(),
    {
        let u = update;
        match self {
            Variable::Vehicle2D(v) => {
                v.pose = [u[0], u[1], u[2]];
                assert(v.pose@ =~= u@);
            },
            Variable::Landmark2D(v) => {
                v.position = [u[0], u[1]];
                assert(v.position@ =~= u@);
            },
            Variable::Vehicle3D(v) => {
                v.pose = [u[0], u[1], u[2], u[3], u[4], u[5], u[6]];
                assert(v.pose@ =~= u@);
            },
            Variable::Landmark3D(v) => {
                v.position = [u[0], u[1], u[2]];
                assert(v.position@ =~= u@);
            },
        }
    }

    pub fn get_id(&self) -> (id: usize)
        ensures
            id == self.id(),
    {
        match self {
            Variable::Vehicle2D(v) => v.id,
            Variable::Landmark2D(v) => v.id,
            Variable::Vehicle3D(v) => v.id,
            Variable::Landmark3D(v) => v.id,
        }
    }
}

} // verus!
