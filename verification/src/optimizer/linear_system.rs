//! Where each factor adds to the normal equations `H dx = -b`.
//!
//! A factor contributes one block of `H` for every ordered pair of its free
//! endpoints and one segment of `b` for every free endpoint. A fixed
//! endpoint contributes nothing.
//!
//! The system is kept as the list of its contributions, in the order in
//! which they were made: an entry of `H` or of `b` is the sum of what was
//! added at its place, taken in that order.

#![allow(non_snake_case)]

use crate::factor_graph::variable::{FixedType, Variable, VehicleVariable2D};
use crate::factor_graph::{Edge, FactorGraph};
use std::ops::Range;
use vstd::prelude::*;

verus! {

/// One of the two ends of a factor.
#[derive(Debug, Clone, Copy, PartialEq, Eq, Structural)]
pub enum Endpoint {
    Source,
    Target,
}

/// The slices of the state vector that the endpoints of one factor occupy;
/// `None` for an endpoint that is fixed, and for the target of a prior.
#[derive(Debug)]
pub struct Scatter {
    pub source: Option<Range<usize>>,
    pub target: Option<Range<usize>>,
}

/// A block of `H`: the rows of one endpoint against the columns of another.
#[derive(Debug)]
pub struct Block {
    pub row: Endpoint,
    pub column: Endpoint,
    pub rows: Range<usize>,
    pub columns: Range<usize>,
}

/// A segment of `b`: the rows of one endpoint.
#[derive(Debug)]
pub struct Segment {
    pub row: Endpoint,
    pub rows: Range<usize>,
}

/// A range as the pair of its bounds.
pub open spec fn bounds(r: Range<usize>) -> (int, int) {
    (r.start as int, r.end as int)
}

/// A range, if there is one, as the pair of its bounds.
pub open spec fn optional_bounds(r: Option<Range<usize>>) -> Option<(int, int)> {
    match r {
        None => None,
        Some(r) => Some(bounds(r)),
    }
}

/// The slice of the variable at position `at`, if there is such an endpoint
/// and it is free.
pub open spec fn slice_of(vars: Seq<Variable>, at: Option<usize>) -> Option<(int, int)> {
    match at {
        None => None,
        Some(i) => vars[i as int].fixed_type().range(),
    }
}

/// The block of the pair `(row, column)`, if both slices are there.
pub open spec fn pair_block(
    row: Endpoint,
    column: Endpoint,
    rows: Option<(int, int)>,
    columns: Option<(int, int)>,
) -> Seq<(Endpoint, Endpoint, (int, int), (int, int))> {
    match (rows, columns) {
        (Some(r), Some(c)) => seq![(row, column, r, c)],
        _ => Seq::empty(),
    }
}

/// The blocks of `H` that a factor with these slices adds to.
pub open spec fn blocks_of(source: Option<(int, int)>, target: Option<(int, int)>) -> Seq<
    (Endpoint, Endpoint, (int, int), (int, int)),
> {
    pair_block(Endpoint::Source, Endpoint::Source, source, source) + pair_block(
        Endpoint::Source,
        Endpoint::Target,
        source,
        target,
    ) + pair_block(Endpoint::Target, Endpoint::Source, target, source) + pair_block(
        Endpoint::Target,
        Endpoint::Target,
        target,
        target,
    )
}

/// The segment of `row`, if its slice is there.
pub open spec fn single_segment(row: Endpoint, rows: Option<(int, int)>) -> Seq<
    (Endpoint, (int, int)),
> {
    match rows {
        Some(r) => seq![(row, r)],
        None => Seq::empty(),
    }
}

/// The segments of `b` that a factor with these slices adds to.
pub open spec fn segments_of(source: Option<(int, int)>, target: Option<(int, int)>) -> Seq<
    (Endpoint, (int, int)),
> {
    single_segment(Endpoint::Source, source) + single_segment(Endpoint::Target, target)
}

impl Block {
    pub open spec fn model(self) -> (Endpoint, Endpoint, (int, int), (int, int)) {
        (self.row, self.column, bounds(self.rows), bounds(self.columns))
    }
}

impl Segment {
    pub open spec fn model(self) -> (Endpoint, (int, int)) {
        (self.row, bounds(self.rows))
    }
}

/// The slice of a variable as a range of its own; `None` for a fixed one.
fn range_of(variable: &Variable) -> (r: Option<Range<usize>>)
    ensures
        optional_bounds(r) == variable.fixed_type().range(),
{
    match variable.get_fixed_type() {
        FixedType::Fixed => None,
        FixedType::NonFixed(r) => Some(r.start..r.end),
    }
}

/// The slices that the endpoints of the factor at position `index` occupy.
/// Each lies within the state vector and is as wide as the local dimension
/// of the endpoint's kind.
pub fn scatter_of(graph: &FactorGraph, index: usize) -> (scatter: Scatter)
    requires
        graph.wf(),
        index < graph.edges().len(),
    ensures
        optional_bounds(scatter.source) == slice_of(
            graph.variables(),
            Some(graph.edges()[index as int].source),
        ),
        optional_bounds(scatter.target) == slice_of(
            graph.variables(),
            graph.edges()[index as int].target,
        ),
        scatter.within(graph.free_dim() as int),
        scatter.source matches Some(r) ==> r.end - r.start
            == graph.edges()[index as int].factor.factor_type.spec_source_kind().spec_local_dim(),
        scatter.target matches Some(r) ==> graph.edges()[index as int].factor.factor_type.spec_target_kind() matches Some(
            kind,
        ) && r.end - r.start == kind.spec_local_dim(),
{
    let edge: &Edge = graph.edge_at(index);
    proof {
        graph.lemma_slice_within(edge.source as int);
        if let Some(t) = edge.target {
            graph.lemma_slice_within(t as int);
        }
    }
    let source = range_of(graph.variable_at(edge.source));
    let target = match edge.target {
        None => None,
        Some(t) => range_of(graph.variable_at(t)),
    };
    Scatter { source, target }
}

impl Scatter {
    /// Both slices are non-empty and end at or before `n`.
    pub open spec fn within(self, n: int) -> bool {
        &&& self.source matches Some(r) ==> r.start < r.end <= n
        &&& self.target matches Some(r) ==> r.start < r.end <= n
    }

    /// The blocks of `H` that the factor adds to: one for every ordered pair
    /// of free endpoints, the source before the target.
    pub fn blocks(&self) -> (blocks: Vec<Block>)
        ensures
            blocks@.len() == blocks_of(
                optional_bounds(self.source),
                optional_bounds(self.target),
            ).len(),
            forall|i: int|
                0 <= i < blocks@.len() ==> (#[trigger] blocks@[i]).model() == blocks_of(
                    optional_bounds(self.source),
                    optional_bounds(self.target),
                )[i],
    {
        let mut blocks: Vec<Block> = Vec::new();
        if let Some(s) = &self.source {
            blocks.push(
                Block {
                    row: Endpoint::Source,
                    column: Endpoint::Source,
                    rows: s.start..s.end,
                    columns: s.start..s.end,
                },
            );
            if let Some(t) = &self.target {
                blocks.push(
                    Block {
                        row: Endpoint::Source,
                        column: Endpoint::Target,
                        rows: s.start..s.end,
                        columns: t.start..t.end,
                    },
                );
                blocks.push(
                    Block {
                        row: Endpoint::Target,
                        column: Endpoint::Source,
                        rows: t.start..t.end,
                        columns: s.start..s.end,
                    },
                );
            }
        }
        if let Some(t) = &self.target {
            blocks.push(
                Block {
                    row: Endpoint::Target,
                    column: Endpoint::Target,
                    rows: t.start..t.end,
                    columns: t.start..t.end,
                },
            );
        }
        blocks
    }

    /// The segments of `b` that the factor adds to: one for every free
    /// endpoint, the source before the target.
    pub fn segments(&self) -> (segments: Vec<Segment>)
        ensures
            segments@.len() == segments_of(
                optional_bounds(self.source),
                optional_bounds(self.target),
            ).len(),
            forall|i: int|
                0 <= i < segments@.len() ==> (#[trigger] segments@[i]).model() == segments_of(
                    optional_bounds(self.source),
                    optional_bounds(self.target),
                )[i],
    {
        let mut segments: Vec<Segment> = Vec::new();
        if let Some(s) = &self.source {
            segments.push(Segment { row: Endpoint::Source, rows: s.start..s.end });
        }
        if let Some(t) = &self.target {
            segments.push(Segment { row: Endpoint::Target, rows: t.start..t.end });
        }
        segments
    }
}

/// The blocks of a factor come in transposed pairs: with the block of
/// `(row, column)` the list holds the block of `(column, row)`, so the sum of
/// the contributions `J_row^T * Omega * J_column` is symmetric in its layout.
pub proof fn lemma_blocks_symmetric(
    source: Option<(int, int)>,
    target: Option<(int, int)>,
    block: (Endpoint, Endpoint, (int, int), (int, int)),
)
    requires
        blocks_of(source, target).contains(block),
    ensures
        blocks_of(source, target).contains((block.1, block.0, block.3, block.2)),
{
    let all = blocks_of(source, target);
    let i = choose|i: int| 0 <= i < all.len() && all[i] == block;
    let mirrored = (block.1, block.0, block.3, block.2);
    match (source, target) {
        (Some(s), Some(t)) => {
            assert(all.len() == 4);
            let j = if i == 1 {
                2int
            } else if i == 2 {
                1int
            } else {
                i
            };
            assert(all[j] == mirrored);
        },
        (Some(s), None) => {
            assert(all.len() == 1);
            assert(all[0] == mirrored);
        },
        (None, Some(t)) => {
            assert(all.len() == 1);
            assert(all[0] == mirrored);
        },
        (None, None) => {
            assert(all.len() == 0);
        },
    }
}

/// The normal equations of one iteration, as what the factors added.
#[derive(Debug)]
pub struct LinearSystem {
    /// Number of rows, and of columns, of `H`; length of `b`.
    pub dim: usize,
    /// What was added to `H`: row, column and value.
    pub h: Vec<(usize, usize, u64)>,
    /// What was added to `b`: row and value.
    pub b: Vec<(usize, u64)>,
}

/// A block as the list of its entries, column by column: entry `k` of
/// `values` lands `k % height` rows below and `k / height` columns right of
/// the block's corner.
pub open spec fn block_entries(rows: Range<usize>, columns: Range<usize>, values: Seq<u64>) -> Seq<
    (usize, usize, u64),
> {
    Seq::new(
        values.len(),
        |k: int|
            (
                (rows.start + k % (rows.end - rows.start)) as usize,
                (columns.start + k / (rows.end - rows.start)) as usize,
                values[k],
            ),
    )
}

/// A segment as the list of its entries.
pub open spec fn segment_entries(rows: Range<usize>, values: Seq<u64>) -> Seq<(usize, u64)> {
    Seq::new(values.len(), |k: int| ((rows.start + k) as usize, values[k]))
}

impl LinearSystem {
    /// Every contribution lies within the system.
    pub open spec fn wf(self) -> bool {
        &&& forall|k: int|
            0 <= k < self.h@.len() ==> (#[trigger] self.h@[k]).0 < self.dim && self.h@[k].1 < self.dim
        &&& forall|k: int| 0 <= k < self.b@.len() ==> (#[trigger] self.b@[k]).0 < self.dim
    }

    /// The system of dimension `dim` to which nothing was added: `H` and `b`
    /// are zero.
    pub fn new(dim: usize) -> (system: LinearSystem)
        ensures
            system.wf(),
            system.dim == dim,
            system.h@.len() == 0,
            system.b@.len() == 0,
    {
        LinearSystem { dim, h: Vec::new(), b: Vec::new() }
    }

    /// Adds `values`, a matrix given column by column, to the block of `H`
    /// in the rows `rows` and the columns `columns`.
    pub fn add_block(&mut self, rows: &Range<usize>, columns: &Range<usize>, values: &Vec<u64>)
        requires
            old(self).wf(),
            rows.start < rows.end <= old(self).dim,
            columns.start <= columns.end <= old(self).dim,
            values@.len() == (rows.end - rows.start) * (columns.end - columns.start),
        ensures
            final(self).wf(),
            final(self).dim == old(self).dim,
            final(self).b@ == old(self).b@,
            final(self).h@ == old(self).h@ + block_entries(*rows, *columns, values@),
    {
        let height: usize = rows.end - rows.start;
        let ghost width: int = columns.end - columns.start;
        let ghost all = block_entries(*rows, *columns, values@);
        let mut k: usize = 0;
        while k < values.len()
            invariant
                k <= values@.len(),
                height == rows.end - rows.start,
                height > 0,
                width == columns.end - columns.start,
                values@.len() == height * width,
                rows.end <= self.dim,
                columns.end <= self.dim,
                all == block_entries(*rows, *columns, values@),
                self.dim == old(self).dim,
                self.b@ == old(self).b@,
                self.h@ == old(self).h@ + all.take(k as int),
                self.wf(),
            decreases values@.len() - k,
        {
            let i: usize = k % height;
            let j: usize = k / height;
            assert(j < width) by (nonlinear_arith)
                requires
                    k < height * width,
                    j == k / height,
                    height > 0,
            ;
            let ghost before = self.h@;
            self.h.push((rows.start + i, columns.start + j, values[k]));
            proof {
                assert(all[k as int] == (
                    (rows.start + i) as usize,
                    (columns.start + j) as usize,
                    values@[k as int],
                ));
                assert(all.take(k + 1) == all.take(k as int).push(all[k as int]));
                assert(self.h@ == old(self).h@ + all.take(k + 1));
            }
            k += 1;
        }
        assert(all.take(k as int) == all);
    }

    /// Adds `values` to the rows `rows` of `b`.
    pub fn add_segment(&mut self, rows: &Range<usize>, values: &Vec<u64>)
        requires
            old(self).wf(),
            rows.start <= rows.end <= old(self).dim,
            values@.len() == rows.end - rows.start,
        ensures
            final(self).wf(),
            final(self).dim == old(self).dim,
            final(self).h@ == old(self).h@,
            final(self).b@ == old(self).b@ + segment_entries(*rows, values@),
    {
        let ghost all = segment_entries(*rows, values@);
        let mut k: usize = 0;
        while k < values.len()
            invariant
                k <= values@.len(),
                values@.len() == rows.end - rows.start,
                rows.end <= self.dim,
                all == segment_entries(*rows, values@),
                self.dim == old(self).dim,
                self.h@ == old(self).h@,
                self.b@ == old(self).b@ + all.take(k as int),
                self.wf(),
            decreases values@.len() - k,
        {
            self.b.push((rows.start + k, values[k]));
            proof {
                assert(all.take(k + 1) == all.take(k as int).push(all[k as int]));
                assert(self.b@ == old(self).b@ + all.take(k + 1));
            }
            k += 1;
        }
        assert(all.take(k as int) == all);
    }
}

/// Adds what a prior on the vehicle `var` contributes: `H_update`, a 3 by 3
/// matrix given column by column, to the block of `H` on the diagonal at the
/// slice of `var`, and `b_update` to that slice of `b`. A fixed vehicle
/// contributes nothing.
pub fn update_H_b(system: &mut LinearSystem, H_update: &Vec<u64>, b_update: &Vec<u64>, var: &VehicleVariable2D)
    requires
        old(system).wf(),
        H_update@.len() == 9,
        b_update@.len() == 3,
        var.fixed_type matches FixedType::NonFixed(r) ==> r.start + 3 == r.end && r.end <= old(
            system,
        ).dim,
    ensures
        final(system).wf(),
        final(system).dim == old(system).dim,
        match var.fixed_type {
            FixedType::Fixed => final(system).h@ == old(system).h@ && final(system).b@ == old(
                system,
            ).b@,
            FixedType::NonFixed(r) => final(system).h@ == old(system).h@ + block_entries(
                r,
                r,
                H_update@,
            ) && final(system).b@ == old(system).b@ + segment_entries(r, b_update@),
        },
{
    match &var.fixed_type {
        FixedType::Fixed => {},
        FixedType::NonFixed(range) => {
            assert((range.end - range.start) * (range.end - range.start) == 9) by (nonlinear_arith)
                requires
                    range.end - range.start == 3,
            ;
            system.add_block(range, range, H_update);
            system.add_segment(range, b_update);
        },
    }
}

} // verus!
