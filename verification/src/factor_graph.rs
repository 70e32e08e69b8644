//! The factor graph: variables, factors and the container that owns both.

pub mod factor;
pub mod variable;

use crate::factor_graph::factor::{Factor, FactorType};
use crate::factor_graph::variable::{FixedType, Variable, VariableType};
use std::collections::HashMap;
use vstd::prelude::*;

verus! {

/// What can go wrong while a graph is built or optimized.
#[derive(Debug, Clone, Copy, PartialEq, Eq, Structural)]
pub enum GraphError {
    /// An id that occurs twice, or an endpoint that names no variable of the
    /// kind the factor connects.
    MalformedGraph,
    /// An estimate, a constraint or an information matrix of the wrong size.
    DimensionMismatch,
    /// The normal equations of an iteration could not be solved.
    SingularSystem,
}

/// A factor together with its endpoints, given as positions in the graph's
/// insertion order of variables.
#[derive(Debug)]
pub struct Edge {
    pub factor: Factor,
    pub source: usize,
    pub target: Option<usize>,
}

/// Number of state-vector entries taken by the free variables among the
/// first `upto` of `vars`.
pub open spec fn free_offset(vars: Seq<Variable>, upto: int) -> nat
    decreases upto,
{
    if upto <= 0 {
        0
    } else {
        free_offset(vars, upto - 1) + if vars[upto - 1].fixed_type() is Fixed {
            0
        } else {
            vars[upto - 1].kind().spec_local_dim()
        }
    }
}

/// Every free variable owns the slice that starts where the free variables
/// before it end, and is as wide as its kind's local dimension.
pub open spec fn ranges_assigned(vars: Seq<Variable>) -> bool {
    forall|i: int|
        0 <= i < vars.len() ==> match (#[trigger] vars[i]).fixed_type() {
            FixedType::Fixed => true,
            FixedType::NonFixed(r) => r.start == free_offset(vars, i) && r.end == free_offset(
                vars,
                i,
            ) + vars[i].kind().spec_local_dim(),
        }
}

/// No two variables share an id.
pub open spec fn ids_distinct(vars: Seq<Variable>) -> bool {
    forall|i: int, j: int|
        0 <= i < vars.len() && 0 <= j < vars.len() && (#[trigger] vars[i]).id() == (
        #[trigger] vars[j]).id() ==> i == j
}

/// Some variable has the id `id`.
pub open spec fn has_id(vars: Seq<Variable>, id: usize) -> bool {
    exists|i: int| 0 <= i < vars.len() && (#[trigger] vars[i]).id() == id
}

/// Some variable has the id `id` and stores `width` numbers.
pub open spec fn has_id_of_width(vars: Seq<Variable>, id: usize, width: nat) -> bool {
    exists|i: int|
        0 <= i < vars.len() && (#[trigger] vars[i]).id() == id && vars[i].kind().spec_storage_width()
            == width
}

/// The endpoints of `edge` are variables of `vars`, of the kinds that the
/// factor connects, and the factor has the sizes of its kind.
pub open spec fn edge_resolves(vars: Seq<Variable>, edge: Edge) -> bool {
    &&& edge.factor.wf()
    &&& edge.source < vars.len()
    &&& vars[edge.source as int].kind() == edge.factor.factor_type.spec_source_kind()
    &&& match edge.factor.factor_type.spec_target_kind() {
        None => edge.target is None,
        Some(kind) => edge.target matches Some(t) && t < vars.len() && vars[t as int].kind()
            == kind,
    }
}

/// Some variable has the id `id` and the kind `kind`.
pub open spec fn has_id_of_kind(vars: Seq<Variable>, id: usize, kind: VariableType) -> bool {
    exists|i: int| 0 <= i < vars.len() && (#[trigger] vars[i]).id() == id && vars[i].kind() == kind
}

/// The endpoint ids of a factor of kind `factor_type` name variables of the
/// kinds that it connects: a prior has no target, every other factor has one.
pub open spec fn endpoints_resolve(
    vars: Seq<Variable>,
    factor_type: FactorType,
    source_id: usize,
    target_id: Option<usize>,
) -> bool {
    &&& has_id_of_kind(vars, source_id, factor_type.spec_source_kind())
    &&& match factor_type.spec_target_kind() {
        None => target_id is None,
        Some(kind) => target_id matches Some(t) && has_id_of_kind(vars, t, kind),
    }
}

/// The offset up to `upto` depends only on the kinds and fixed types of the
/// variables before `upto`.
pub proof fn lemma_free_offset_agrees(a: Seq<Variable>, b: Seq<Variable>, upto: int)
    requires
        0 <= upto <= a.len(),
        upto <= b.len(),
        forall|j: int|
            0 <= j < upto ==> (#[trigger] a[j]).kind() == b[j].kind() && a[j].fixed_type()
                == b[j].fixed_type(),
    ensures
        free_offset(a, upto) == free_offset(b, upto),
    decreases upto,
{
    if upto > 0 {
        lemma_free_offset_agrees(a, b, upto - 1);
        assert(a[upto - 1].kind() == b[upto - 1].kind());
    }
}

/// The variable `v` is free and entry `k` of the state vector is its own.
pub open spec fn owns(v: Variable, k: int) -> bool {
    v.fixed_type() matches FixedType::NonFixed(r) && r.start <= k < r.end
}

/// Entry `k` of the state vector belongs to some variable of `vars`.
pub open spec fn is_owned(vars: Seq<Variable>, k: int) -> bool {
    exists|i: int| 0 <= i < vars.len() && #[trigger] owns(vars[i], k)
}

/// The slices of the free variables tile `[0, n)`: every entry below `n`
/// belongs to a free variable, to one only, and no slice reaches outside.
pub open spec fn ranges_partition(vars: Seq<Variable>, n: int) -> bool {
    &&& forall|k: int| 0 <= k < n ==> #[trigger] is_owned(vars, k)
    &&& forall|i: int, j: int, k: int|
        0 <= i < vars.len() && 0 <= j < vars.len() && #[trigger] owns(vars[i], k) && #[trigger] owns(
            vars[j],
            k,
        ) ==> i == j
    &&& forall|i: int, k: int| 0 <= i < vars.len() && #[trigger] owns(vars[i], k) ==> 0 <= k < n
}

/// The offset grows with the number of variables counted.
pub proof fn lemma_free_offset_monotonic(vars: Seq<Variable>, i: int, j: int)
    requires
        i <= j,
    ensures
        free_offset(vars, i) <= free_offset(vars, j),
    decreases j - i,
{
    if i < j {
        lemma_free_offset_monotonic(vars, i, j - 1);
    }
}

/// Every entry below the offset up to `upto` belongs to one of the first
/// `upto` variables.
proof fn lemma_covered(vars: Seq<Variable>, upto: int, k: int)
    requires
        ranges_assigned(vars),
        0 <= upto <= vars.len(),
        0 <= k < free_offset(vars, upto),
    ensures
        exists|i: int| 0 <= i < upto && #[trigger] owns(vars[i], k),
    decreases upto,
{
    if k < free_offset(vars, upto - 1) {
        lemma_covered(vars, upto - 1, k);
    } else {
        assert(owns(vars[upto - 1], k));
    }
}

/// Ranges that are assigned consecutively tile the state vector: the slices
/// of the free variables are disjoint and their union is `[0, n)`, where `n`
/// is the sum of the local dimensions of the free variables.
pub proof fn lemma_ranges_partition(vars: Seq<Variable>)
    requires
        ranges_assigned(vars),
    ensures
        ranges_partition(vars, free_offset(vars, vars.len() as int) as int),
{
    let n = free_offset(vars, vars.len() as int) as int;
    assert forall|k: int| 0 <= k < n implies #[trigger] is_owned(vars, k) by {
        lemma_covered(vars, vars.len() as int, k);
    }
    assert forall|i: int, k: int| 0 <= i < vars.len() && #[trigger] owns(vars[i], k) implies 0 <= k
        < n by {
        lemma_free_offset_monotonic(vars, i + 1, vars.len() as int);
    }
    assert forall|i: int, j: int, k: int|
        0 <= i < vars.len() && 0 <= j < vars.len() && #[trigger] owns(vars[i], k) && #[trigger] owns(
            vars[j],
            k,
        ) implies i == j by {
        if i < j {
            lemma_free_offset_monotonic(vars, i + 1, j);
        }
        if j < i {
            lemma_free_offset_monotonic(vars, j + 1, i);
        }
    }
}

/// `estimates` holds one entry for each variable, and the entry of every
/// free variable has the length that its kind stores.
pub open spec fn estimates_fit(vars: Seq<Variable>, estimates: Seq<Vec<u64>>) -> bool {
    &&& estimates.len() == vars.len()
    &&& forall|i: int|
        0 <= i < vars.len() ==> (#[trigger] vars[i]).fixed_type() is Fixed || estimates[i]@.len()
            == vars[i].kind().spec_storage_width()
}

/// `after` is `before` with the estimate of every free variable replaced by
/// its entry of `estimates`; ids, kinds, fixed types and the estimates of
/// the fixed variables are those of `before`.
pub open spec fn estimates_replaced(
    before: Seq<Variable>,
    estimates: Seq<Vec<u64>>,
    after: Seq<Variable>,
) -> bool {
    &&& after.len() == before.len()
    &&& forall|i: int|
        0 <= i < before.len() ==> {
            &&& (#[trigger] after[i]).id() == before[i].id()
            &&& after[i].kind() == before[i].kind()
            &&& after[i].fixed_type() == before[i].fixed_type()
            &&& after[i].content() == if before[i].fixed_type() is Fixed {
                before[i].content()
            } else {
                estimates[i]@
            }
        }
}

/// `after` has the variables of `before`, with the same ids, kinds and fixed
/// types, and every fixed variable holds the estimate it held.
pub open spec fn fixed_preserved(before: Seq<Variable>, after: Seq<Variable>) -> bool {
    &&& after.len() == before.len()
    &&& forall|i: int|
        0 <= i < before.len() ==> {
            &&& (#[trigger] after[i]).id() == before[i].id()
            &&& after[i].kind() == before[i].kind()
            &&& after[i].fixed_type() == before[i].fixed_type()
            &&& before[i].fixed_type() is Fixed ==> after[i].content() == before[i].content()
        }
}

/// A copy of `words`.
fn copy_words(words: &Vec<u64>) -> (out: Vec<u64>)
    ensures
        out@ == words@,
{
    let mut out: Vec<u64> = Vec::new();
    let mut i: usize = 0;
    while i < words.len()
        invariant
            i <= words@.len(),
            out@ == words@.take(i as int),
        decreases words@.len() - i,
    {
        out.push(words[i]);
        i += 1;
        assert(words@.take(i as int) == words@.take(i - 1).push(words@[i - 1]));
    }
    assert(words@.take(words@.len() as int) == words@);
    out
}

/// A factor graph: variables and factors, each in insertion order.
pub struct FactorGraph {
    variables: Vec<Variable>,
    edges: Vec<Edge>,
    index_of: HashMap<usize, usize>,
    number_of_dynamic_nodes: usize,
}

impl FactorGraph {
    /// The variables, in insertion order.
    pub closed spec fn variables(self) -> Seq<Variable> {
        self.variables@
    }

    /// The factors with their endpoints, in insertion order.
    pub closed spec fn edges(self) -> Seq<Edge> {
        self.edges@
    }

    /// The recorded length of the global state vector.
    pub closed spec fn free_dim(self) -> nat {
        self.number_of_dynamic_nodes as nat
    }

    /// The id index names exactly the variables, each at its position.
    pub closed spec fn index_consistent(self) -> bool {
        &&& forall|id: usize| #[trigger]
            self.index_of@.contains_key(id) ==> self.index_of@[id] < self.variables@.len()
                && self.variables@[self.index_of@[id] as int].id() == id
        &&& forall|i: int|
            0 <= i < self.variables@.len() ==> self.index_of@.contains_key(
                (#[trigger] self.variables@[i]).id(),
            ) && self.index_of@[self.variables@[i].id()] == i
    }

    /// The invariant of a graph.
    pub open spec fn wf(self) -> bool {
        &&& self.index_consistent()
        &&& ids_distinct(self.variables())
        &&& ranges_assigned(self.variables())
        &&& self.free_dim() == free_offset(self.variables(), self.variables().len() as int)
        &&& forall|k: int|
            0 <= k < self.edges().len() ==> edge_resolves(self.variables(), #[trigger] self.edges()[k])
    }

    /// An empty graph.
    pub fn new() -> (graph: FactorGraph)
        ensures
            graph.wf(),
            graph.variables() == Seq::<Variable>::empty(),
            graph.edges() == Seq::<Edge>::empty(),
            graph.free_dim() == 0,
    {
        broadcast use vstd::std_specs::hash::group_hash_axioms;

        FactorGraph {
            variables: Vec::new(),
            edges: Vec::new(),
            index_of: HashMap::new(),
            number_of_dynamic_nodes: 0,
        }
    }

    /// Length of the global state vector: the sum of the local dimensions of
    /// the free variables.
    pub fn total_free_dim(&self) -> (n: usize)
        ensures
            n == self.free_dim(),
    {
        self.number_of_dynamic_nodes
    }

    pub fn variable_count(&self) -> (n: usize)
        ensures
            n == self.variables().len(),
    {
        self.variables.len()
    }

    pub fn factor_count(&self) -> (n: usize)
        ensures
            n == self.edges().len(),
    {
        self.edges.len()
    }

    /// The variable at position `index` of the insertion order.
    pub fn variable_at(&self, index: usize) -> (variable: &Variable)
        requires
            index < self.variables().len(),
        ensures
            *variable == self.variables()[index as int],
    {
        &self.variables[index]
    }

    /// The factor at position `index` of the insertion order, with its endpoints.
    pub fn edge_at(&self, index: usize) -> (edge: &Edge)
        requires
            index < self.edges().len(),
        ensures
            *edge == self.edges()[index as int],
    {
        &self.edges[index]
    }

    /// The factor at position `index` of the insertion order, with the id of
    /// its source and, unless it is a prior, of its target.
    pub fn factor_at(&self, index: usize) -> (entry: (&Factor, usize, Option<usize>))
        requires
            self.wf(),
            index < self.edges().len(),
        ensures
            *entry.0 == self.edges()[index as int].factor,
            entry.1 == self.variables()[self.edges()[index as int].source as int].id(),
            match self.edges()[index as int].target {
                Some(t) => entry.2 == Some(self.variables()[t as int].id()),
                None => entry.2 is None,
            },
    {
        let edge = &self.edges[index];
        assert(edge_resolves(self.variables(), self.edges()[index as int]));
        let source_id: usize = self.variables[edge.source].get_id();
        let target_id: Option<usize> = match edge.target {
            Some(t) => Some(self.variables[t].get_id()),
            None => None,
        };
        (&edge.factor, source_id, target_id)
    }

    /// Position of the variable with id `id` in the insertion order.
    pub fn position(&self, id: usize) -> (found: Option<usize>)
        requires
            self.wf(),
        ensures
            match found {
                Some(i) => i < self.variables().len() && self.variables()[i as int].id() == id,
                None => !has_id(self.variables(), id),
            },
    {
        broadcast use vstd::std_specs::hash::group_hash_axioms;

        match self.index_of.get(&id) {
            Some(i) => Some(*i),
            None => None,
        }
    }

    /// The variable with id `id`.
    pub fn get(&self, id: usize) -> (found: Option<&Variable>)
        requires
            self.wf(),
        ensures
            match found {
                Some(v) => v.id() == id && self.variables().contains(*v),
                None => !has_id(self.variables(), id),
            },
    {
        match self.position(id) {
            Some(i) => {
                assert(self.variables()[i as int] == self.variables@[i as int]);
                Some(&self.variables[i])
            },
            None => None,
        }
    }

    /// The ids of the variables, in insertion order.
    pub fn ids(&self) -> (ids: Vec<usize>)
        ensures
            ids@.len() == self.variables().len(),
            forall|i: int| 0 <= i < ids@.len() ==> ids@[i] == (#[trigger] self.variables()[i]).id(),
    {
        let mut ids: Vec<usize> = Vec::new();
        let mut i: usize = 0;
        while i < self.variables.len()
            invariant
                i <= self.variables@.len(),
                ids@.len() == i,
                forall|j: int| 0 <= j < i ==> ids@[j] == (#[trigger] self.variables@[j]).id(),
            decreases self.variables@.len() - i,
        {
            ids.push(self.variables[i].get_id());
            i += 1;
        }
        ids
    }

    /// The estimate of the variable with id `id`.
    pub fn get_estimate(&self, id: usize) -> (found: Option<Vec<u64>>)
        requires
            self.wf(),
        ensures
            match found {
                Some(estimate) => exists|i: int|
                    0 <= i < self.variables().len() && (#[trigger] self.variables()[i]).id() == id
                        && estimate@ == self.variables()[i].content(),
                None => !has_id(self.variables(), id),
            },
    {
        match self.position(id) {
            Some(i) => Some(self.variables[i].get_content()),
            None => None,
        }
    }

    /// The fixed type of the variable with id `id`.
    pub fn fixed_type(&self, id: usize) -> (found: Option<&FixedType>)
        requires
            self.wf(),
        ensures
            match found {
                Some(fixed_type) => exists|i: int|
                    0 <= i < self.variables().len() && (#[trigger] self.variables()[i]).id() == id
                        && *fixed_type == self.variables()[i].fixed_type(),
                None => !has_id(self.variables(), id),
            },
    {
        match self.position(id) {
            Some(i) => Some(self.variables[i].get_fixed_type()),
            None => None,
        }
    }

    /// Adds a variable. A free variable receives the next slice of the
    /// global state vector, as wide as the local dimension of its kind; a
    /// fixed one receives none.
    ///
    /// Fails with `DimensionMismatch` when `estimate` has not the length that
    /// the kind stores, and otherwise with `MalformedGraph` when the id is
    /// taken. A failed call leaves the graph as it was.
    pub fn add_variable(&mut self, kind: VariableType, id: usize, estimate: Vec<u64>, fixed: bool) -> (result: Result<(), GraphError>)
        requires
            old(self).wf(),
            !fixed ==> old(self).free_dim() + kind.spec_local_dim() <= usize::MAX,
        ensures
            final(self).wf(),
            final(self).edges() == old(self).edges(),
            match result {
                Ok(_) => {
                    &&& estimate@.len() == kind.spec_storage_width()
                    &&& !has_id(old(self).variables(), id)
                    &&& final(self).variables().len() == old(self).variables().len() + 1
                    &&& final(self).variables().drop_last() == old(self).variables()
                    &&& final(self).variables().last().kind() == kind
                    &&& final(self).variables().last().id() == id
                    &&& final(self).variables().last().content() == estimate@
                    &&& final(self).variables().last().fixed_type().range() == if fixed {
                        None::<(int, int)>
                    } else {
                        Some((old(self).free_dim() as int, (old(self).free_dim() + kind.spec_local_dim()) as int))
                    }
                    &&& final(self).free_dim() == old(self).free_dim() + if fixed {
                        0
                    } else {
                        kind.spec_local_dim()
                    }
                },
                Err(e) => {
                    &&& *final(self) == *old(self)
                    &&& e == if estimate@.len() != kind.spec_storage_width() {
                        GraphError::DimensionMismatch
                    } else {
                        GraphError::MalformedGraph
                    }
                    &&& estimate@.len() != kind.spec_storage_width() || has_id(old(self).variables(), id)
                },
            },
    {
        broadcast use vstd::std_specs::hash::group_hash_axioms;

        if estimate.len() != kind.storage_width() {
            return Err(GraphError::DimensionMismatch);
        }
        if self.position(id).is_some() {
            return Err(GraphError::MalformedGraph);
        }
        let start: usize = self.number_of_dynamic_nodes;
        let width: usize = if fixed { 0 } else { kind.local_dim() };
        let fixed_type = if fixed {
            FixedType::Fixed
        } else {
            FixedType::NonFixed(start..start + width)
        };
        let variable = Variable::new(kind, id, &estimate, fixed_type);
        let at: usize = self.variables.len();
        let ghost before = self.variables@;
        self.variables.push(variable);
        self.index_of.insert(id, at);
        self.number_of_dynamic_nodes = start + width;
        proof {
            let after = self.variables@;
            assert(after.drop_last() =~= before);
            assert forall|j: int| 0 <= j < before.len() implies (#[trigger] before[j]).id() != id by {
                if before[j].id() == id {
                    assert(has_id(before, id));
                }
            }
            assert forall|i: int| 0 <= i <= before.len() implies free_offset(after, i)
                == free_offset(before, i) by {
                lemma_free_offset_agrees(after, before, i);
            }
            assert(free_offset(after, after.len() as int) == free_offset(after, before.len() as int)
                + if after[before.len() as int].fixed_type() is Fixed {
                0
            } else {
                after[before.len() as int].kind().spec_local_dim()
            });
            assert forall|k: int| 0 <= k < self.edges().len() implies edge_resolves(
                self.variables(),
                #[trigger] self.edges()[k],
            ) by {
                assert(edge_resolves(before, old(self).edges()[k]));
            }
        }
        Ok(())
    }

    /// Position of the variable with id `id`, if it has the kind `kind`.
    fn position_of_kind(&self, id: usize, kind: VariableType) -> (found: Option<usize>)
        requires
            self.wf(),
        ensures
            match found {
                Some(i) => i < self.variables().len() && self.variables()[i as int].id() == id
                    && self.variables()[i as int].kind() == kind,
                None => !has_id_of_kind(self.variables(), id, kind),
            },
    {
        match self.position(id) {
            Some(i) => {
                if self.variables[i].get_type() == kind {
                    Some(i)
                } else {
                    None
                }
            },
            None => {
                assert forall|j: int| 0 <= j < self.variables().len() implies (
                #[trigger] self.variables()[j]).id() != id by {
                    if self.variables()[j].id() == id {
                        assert(has_id(self.variables(), id));
                    }
                }
                None
            },
        }
    }

    /// Adds a factor between the variables with the given ids. The
    /// information matrix comes in full, column by column.
    ///
    /// Fails with `DimensionMismatch` when the constraint or the matrix has
    /// not the size of the kind, and otherwise with `MalformedGraph` when an
    /// endpoint does not resolve. A failed call leaves the graph as it was.
    pub fn add_factor(
        &mut self,
        factor_type: FactorType,
        constraint: Vec<u64>,
        information_matrix: Vec<u64>,
        source_id: usize,
        target_id: Option<usize>,
    ) -> (result: Result<(), GraphError>)
        requires
            old(self).wf(),
        ensures
            final(self).wf(),
            final(self).variables() == old(self).variables(),
            final(self).free_dim() == old(self).free_dim(),
            match result {
                Ok(_) => {
                    let edge = final(self).edges().last();
                    &&& (Factor { factor_type, constraint, information_matrix }).wf()
                    &&& endpoints_resolve(old(self).variables(), factor_type, source_id, target_id)
                    &&& final(self).edges().len() == old(self).edges().len() + 1
                    &&& final(self).edges().drop_last() == old(self).edges()
                    &&& edge.factor.factor_type == factor_type
                    &&& edge.factor.constraint@ == constraint@
                    &&& edge.factor.information_matrix@ == information_matrix@
                    &&& old(self).variables()[edge.source as int].id() == source_id
                    &&& match target_id {
                        Some(t) => edge.target matches Some(j) && old(self).variables()[j as int].id()
                            == t,
                        None => edge.target is None,
                    }
                },
                Err(e) => {
                    &&& *final(self) == *old(self)
                    &&& e == if !(Factor { factor_type, constraint, information_matrix }).wf() {
                        GraphError::DimensionMismatch
                    } else {
                        GraphError::MalformedGraph
                    }
                    &&& !(Factor { factor_type, constraint, information_matrix }).wf()
                        || !endpoints_resolve(old(self).variables(), factor_type, source_id, target_id)
                },
            },
    {
        let factor = Factor { factor_type, constraint, information_matrix };
        if !factor.is_well_formed() {
            return Err(GraphError::DimensionMismatch);
        }
        let source: usize = match self.position_of_kind(source_id, factor_type.source_kind()) {
            Some(i) => i,
            None => {
                return Err(GraphError::MalformedGraph);
            },
        };
        let target: Option<usize> = match (factor_type.target_kind(), target_id) {
            (None, None) => None,
            (Some(kind), Some(t)) => match self.position_of_kind(t, kind) {
                Some(j) => Some(j),
                None => {
                    return Err(GraphError::MalformedGraph);
                },
            },
            _ => {
                return Err(GraphError::MalformedGraph);
            },
        };
        let ghost before = self.edges@;
        self.edges.push(Edge { factor, source, target });
        proof {
            assert(self.edges@.drop_last() =~= before);
            assert forall|k: int| 0 <= k < self.edges().len() implies edge_resolves(
                self.variables(),
                #[trigger] self.edges()[k],
            ) by {
                if k < before.len() {
                    assert(edge_resolves(old(self).variables(), old(self).edges()[k]));
                }
            }
        }
        Ok(())
    }

    /// Replaces the estimate of the variable with id `id`. The numbers are
    /// stored as they come: a 3D pose must bring a unit quaternion.
    ///
    /// Fails with `MalformedGraph` when no variable has the id, and otherwise
    /// with `DimensionMismatch` when `estimate` has not the length that the
    /// kind stores. A failed call leaves the graph as it was.
    pub fn set_estimate(&mut self, id: usize, estimate: Vec<u64>) -> (result: Result<(), GraphError>)
        requires
            old(self).wf(),
        ensures
            final(self).wf(),
            final(self).edges() == old(self).edges(),
            final(self).free_dim() == old(self).free_dim(),
            final(self).variables().len() == old(self).variables().len(),
            forall|i: int|
                0 <= i < old(self).variables().len() ==> {
                    let before = #[trigger] old(self).variables()[i];
                    let after = final(self).variables()[i];
                    &&& after.id() == before.id()
                    &&& after.kind() == before.kind()
                    &&& after.fixed_type() == before.fixed_type()
                    &&& after.content() == if result is Ok && before.id() == id {
                        estimate@
                    } else {
                        before.content()
                    }
                },
            match result {
                Ok(_) => has_id_of_width(old(self).variables(), id, estimate@.len()),
                Err(e) => {
                    &&& *final(self) == *old(self)
                    &&& !has_id_of_width(old(self).variables(), id, estimate@.len())
                    &&& e == if has_id(old(self).variables(), id) {
                        GraphError::DimensionMismatch
                    } else {
                        GraphError::MalformedGraph
                    }
                },
            },
    {
        let at: usize = match self.position(id) {
            Some(i) => i,
            None => {
                assert forall|j: int| 0 <= j < self.variables().len() implies !((
                #[trigger] self.variables()[j]).id() == id
                    && self.variables()[j].kind().spec_storage_width() == estimate@.len()) by {
                    if self.variables()[j].id() == id {
                        assert(has_id(self.variables(), id));
                    }
                }
                return Err(GraphError::MalformedGraph);
            },
        };
        if estimate.len() != self.variables[at].get_type().storage_width() {
            return Err(GraphError::DimensionMismatch);
        }
        let ghost before = self.variables@;
        self.variables[at].set_content(estimate);
        proof {
            let after = self.variables@;
            assert forall|i: int| 0 <= i <= before.len() implies free_offset(after, i)
                == free_offset(before, i) by {
                lemma_free_offset_agrees(after, before, i);
            }
            assert forall|k: int| 0 <= k < self.edges().len() implies edge_resolves(
                self.variables(),
                #[trigger] self.edges()[k],
            ) by {
                assert(edge_resolves(before, old(self).edges()[k]));
            }
        }
        Ok(())
    }

    /// The part of a solution of the normal equations that belongs to the
    /// variable at position `index`: the entries of its slice, or `None` for
    /// a fixed variable.
    pub fn correction(&self, index: usize, solution: &Vec<u64>) -> (slice: Option<Vec<u64>>)
        requires
            self.wf(),
            index < self.variables().len(),
            solution@.len() == self.free_dim(),
        ensures
            match self.variables()[index as int].fixed_type() {
                FixedType::Fixed => slice is None,
                FixedType::NonFixed(r) => slice matches Some(words) && r.end <= solution@.len()
                    && words@ == solution@.subrange(r.start as int, r.end as int),
            },
    {
        proof {
            self.lemma_partition();
        }
        match self.variables[index].get_fixed_type() {
            FixedType::Fixed => None,
            FixedType::NonFixed(r) => {
                let start: usize = r.start;
                let end: usize = r.end;
                assert(owns(self.variables()[index as int], start as int));
                assert(owns(self.variables()[index as int], end - 1));
                let mut words: Vec<u64> = Vec::new();
                let mut k: usize = start;
                while k < end
                    invariant
                        start <= k <= end <= solution@.len(),
                        words@ == solution@.subrange(start as int, k as int),
                    decreases end - k,
                {
                    words.push(solution[k]);
                    k += 1;
                    assert(solution@.subrange(start as int, k as int) == solution@.subrange(
                        start as int,
                        k - 1,
                    ).push(solution@[k - 1]));
                }
                Some(words)
            },
        }
    }

    /// Whether `estimates` holds an entry of the right length for every free
    /// variable.
    pub fn fits(&self, estimates: &Vec<Vec<u64>>) -> (ok: bool)
        ensures
            ok == estimates_fit(self.variables(), estimates@),
    {
        if estimates.len() != self.variables.len() {
            return false;
        }
        let mut i: usize = 0;
        while i < self.variables.len()
            invariant
                i <= self.variables@.len(),
                estimates@.len() == self.variables@.len(),
                forall|j: int|
                    0 <= j < i ==> (#[trigger] self.variables@[j]).fixed_type() is Fixed
                        || estimates@[j]@.len() == self.variables@[j].kind().spec_storage_width(),
            decreases self.variables@.len() - i,
        {
            let free: bool = !self.variables[i].get_fixed_type().is_fixed();
            if free && estimates[i].len() != self.variables[i].get_type().storage_width() {
                assert(!(self.variables@[i as int].fixed_type() is Fixed));
                return false;
            }
            i += 1;
        }
        true
    }

    /// Replaces the estimate of every free variable by its entry of
    /// `estimates`, which holds one entry for each variable in insertion
    /// order. The entries of fixed variables are not looked at: a fixed
    /// variable keeps its estimate.
    ///
    /// Fails with `DimensionMismatch`, and changes nothing, unless
    /// `estimates` fits the graph.
    pub fn update_estimates(&mut self, estimates: &Vec<Vec<u64>>) -> (result: Result<(), GraphError>)
        requires
            old(self).wf(),
        ensures
            final(self).wf(),
            final(self).edges() == old(self).edges(),
            final(self).free_dim() == old(self).free_dim(),
            fixed_preserved(old(self).variables(), final(self).variables()),
            match result {
                Ok(_) => estimates_fit(old(self).variables(), estimates@) && estimates_replaced(
                    old(self).variables(),
                    estimates@,
                    final(self).variables(),
                ),
                Err(e) => e == GraphError::DimensionMismatch && !estimates_fit(
                    old(self).variables(),
                    estimates@,
                ) && final(self).variables() == old(self).variables(),
            },
    {
        if !self.fits(estimates) {
            return Err(GraphError::DimensionMismatch);
        }
        let ghost before = self.variables@;
        let mut i: usize = 0;
        while i < self.variables.len()
            invariant
                i <= before.len(),
                before == old(self).variables@,
                estimates_fit(before, estimates@),
                self.variables@.len() == before.len(),
                self.edges == old(self).edges,
                self.index_of == old(self).index_of,
                self.number_of_dynamic_nodes == old(self).number_of_dynamic_nodes,
                forall|j: int|
                    0 <= j < before.len() ==> {
                        &&& (#[trigger] self.variables@[j]).id() == before[j].id()
                        &&& self.variables@[j].kind() == before[j].kind()
                        &&& self.variables@[j].fixed_type() == before[j].fixed_type()
                        &&& self.variables@[j].content() == if j < i && !(before[j].fixed_type() is Fixed) {
                            estimates@[j]@
                        } else {
                            before[j].content()
                        }
                    },
            decreases before.len() - i,
        {
            let free: bool = !self.variables[i].get_fixed_type().is_fixed();
            if free {
                assert(before[i as int].fixed_type() == self.variables@[i as int].fixed_type());
                let words = copy_words(&estimates[i]);
                self.variables[i].set_content(words);
            }
            i += 1;
        }
        proof {
            let after = self.variables@;
            assert forall|j: int| 0 <= j <= before.len() implies free_offset(after, j)
                == free_offset(before, j) by {
                lemma_free_offset_agrees(after, before, j);
            }
            assert forall|k: int| 0 <= k < self.edges().len() implies edge_resolves(
                self.variables(),
                #[trigger] self.edges()[k],
            ) by {
                assert(edge_resolves(before, old(self).edges()[k]));
            }
            assert(old(self).index_consistent());
            assert(self.index_consistent());
        }
        Ok(())
    }

    /// In a well-formed graph the slices of the free variables are disjoint
    /// and their union is `[0, total_free_dim)`.
    pub proof fn lemma_partition(self)
        requires
            self.wf(),
        ensures
            ranges_partition(self.variables(), self.free_dim() as int),
    {
        lemma_ranges_partition(self.variables());
    }

    /// The slice of a free variable is not empty, is as wide as the local
    /// dimension of its kind and lies within the state vector.
    pub proof fn lemma_slice_within(self, index: int)
        requires
            self.wf(),
            0 <= index < self.variables().len(),
        ensures
            self.variables()[index].wf(),
            self.variables()[index].fixed_type() matches FixedType::NonFixed(r) ==> r.start < r.end
                <= self.free_dim() && r.end - r.start
                == self.variables()[index].kind().spec_local_dim(),
    {
        self.lemma_partition();
        if let FixedType::NonFixed(r) = self.variables()[index].fixed_type() {
            assert(owns(self.variables()[index], r.start as int));
            assert(owns(self.variables()[index], r.end - 1));
        }
    }
}

} // verus!
