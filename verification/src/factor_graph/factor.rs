//! The measurements of a factor graph.

use crate::factor_graph::variable::VariableType;
use vstd::prelude::*;

verus! {

/// The six kinds of factor.
#[derive(Debug, Clone, Copy, PartialEq, Eq, Structural)]
pub enum FactorType {
    /// Prior on a 2D vehicle pose.
    Position2D,
    /// Relative pose between two 2D vehicle poses, in the frame of the first.
    Odometry2D,
    /// Position of a 2D landmark in the frame of a vehicle.
    Observation2D,
    /// Prior on a 3D vehicle pose.
    Position3D,
    /// Relative pose between two 3D vehicle poses, in the frame of the first.
    Odometry3D,
    /// Position of a 3D landmark in the frame of a vehicle.
    Observation3D,
}

impl FactorType {
    /// Length of the constraint vector.
    pub open spec fn spec_constraint_dim(self) -> nat {
        match self {
            FactorType::Position2D => 3,
            FactorType::Odometry2D => 3,
            FactorType::Observation2D => 2,
            FactorType::Position3D => 7,
            FactorType::Odometry3D => 7,
            FactorType::Observation3D => 3,
        }
    }

    /// Number of rows, and of columns, of the information matrix.
    pub open spec fn spec_information_dim(self) -> nat {
        match self {
            FactorType::Position2D => 3,
            FactorType::Odometry2D => 3,
            FactorType::Observation2D => 2,
            FactorType::Position3D => 6,
            FactorType::Odometry3D => 6,
            FactorType::Observation3D => 3,
        }
    }

    /// The kind of variable the factor starts from.
    pub open spec fn spec_source_kind(self) -> VariableType {
        match self {
            FactorType::Position2D => VariableType::Vehicle2D,
            FactorType::Odometry2D => VariableType::Vehicle2D,
            FactorType::Observation2D => VariableType::Vehicle2D,
            FactorType::Position3D => VariableType::Vehicle3D,
            FactorType::Odometry3D => VariableType::Vehicle3D,
            FactorType::Observation3D => VariableType::Vehicle3D,
        }
    }

    /// The kind of variable the factor leads to; `None` for a prior, which
    /// has one endpoint only.
    pub open spec fn spec_target_kind(self) -> Option<VariableType> {
        match self {
            FactorType::Position2D => None,
            FactorType::Odometry2D => Some(VariableType::Vehicle2D),
            FactorType::Observation2D => Some(VariableType::Landmark2D),
            FactorType::Position3D => None,
            FactorType::Odometry3D => Some(VariableType::Vehicle3D),
            FactorType::Observation3D => Some(VariableType::Landmark3D),
        }
    }

    pub fn constraint_dim(self) -> (d: usize)
        ensures
            d == self.spec_constraint_dim(),
    {
        match self {
            FactorType::Position2D => 3,
            FactorType::Odometry2D => 3,
            FactorType::Observation2D => 2,
            FactorType::Position3D => 7,
            FactorType::Odometry3D => 7,
            FactorType::Observation3D => 3,
        }
    }

    pub fn information_dim(self) -> (d: usize)
        ensures
            d == self.spec_information_dim(),
    {
        match self {
            FactorType::Position2D => 3,
            FactorType::Odometry2D => 3,
            FactorType::Observation2D => 2,
            FactorType::Position3D => 6,
            FactorType::Odometry3D => 6,
            FactorType::Observation3D => 3,
        }
    }

    pub fn source_kind(self) -> (kind: VariableType)
        ensures
            kind == self.spec_source_kind(),
    {
        match self {
            FactorType::Position2D => VariableType::Vehicle2D,
            FactorType::Odometry2D => VariableType::Vehicle2D,
            FactorType::Observation2D => VariableType::Vehicle2D,
            FactorType::Position3D => VariableType::Vehicle3D,
            FactorType::Odometry3D => VariableType::Vehicle3D,
            FactorType::Observation3D => VariableType::Vehicle3D,
        }
    }

    pub fn target_kind(self) -> (kind: Option<VariableType>)
        ensures
            kind == self.spec_target_kind(),
    {
        match self {
            FactorType::Position2D => None,
            FactorType::Odometry2D => Some(VariableType::Vehicle2D),
            FactorType::Observation2D => Some(VariableType::Landmark2D),
            FactorType::Position3D => None,
            FactorType::Odometry3D => Some(VariableType::Vehicle3D),
            FactorType::Observation3D => Some(VariableType::Landmark3D),
        }
    }
}

/// A measurement: its kind, the measured value and how much it is trusted.
///
/// `information_matrix` holds the full symmetric matrix column by column.
#[derive(Debug)]
pub struct Factor {
    pub factor_type: FactorType,
    pub constraint: Vec<u64>,
    pub information_matrix: Vec<u64>,
}

impl Factor {
    /// The constraint and the information matrix have the sizes of the kind.
    pub open spec fn wf(self) -> bool {
        &&& self.constraint@.len() == self.factor_type.spec_constraint_dim()
        &&& self.information_matrix@.len() == self.factor_type.spec_information_dim()
            * self.factor_type.spec_information_dim()
    }

    /// Whether `wf` holds.
    pub fn is_well_formed(&self) -> (ok: bool)
        ensures
            ok == self.wf(),
    {
        let d: usize = self.factor_type.information_dim();
        assert(d <= 6);
        assert(d * d <= 36) by (nonlinear_arith)
            requires
                d <= 6,
        ;
        self.constraint.len() == self.factor_type.constraint_dim()
            && self.information_matrix.len() == d * d
    }

    /// The entry of the information matrix in row `row` and column `col`.
    pub fn information(&self, row: usize, col: usize) -> (word: u64)
        requires
            self.wf(),
            row < self.factor_type.spec_information_dim(),
            col < self.factor_type.spec_information_dim(),
        ensures
            word == self.information_matrix@[col * self.factor_type.spec_information_dim() + row],
    {
        let d: usize = self.factor_type.information_dim();
        assert(col * d + row < d * d) by (nonlinear_arith)
            requires
                row < d,
                col < d,
        ;
        assert(d * d <= 36) by (nonlinear_arith)
            requires
                d <= 6,
        ;
        self.information_matrix[col * d + row]
    }
}

} // verus!
