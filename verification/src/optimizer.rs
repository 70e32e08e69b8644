//! The Gauss-Newton iteration over a factor graph.
//!
//! One iteration linearizes every factor at the current estimates, solves
//! the normal equations and moves every free variable by its part of the
//! solution. The numbers of an iteration are worked out by the caller; this
//! module decides whether another iteration is due and takes its results
//! into the graph, all at once.

pub mod linear_system;

use crate::factor_graph::{fixed_preserved, estimates_fit, estimates_replaced, FactorGraph, GraphError};
use crate::factor_graph::variable::Variable;
use vstd::prelude::*;

verus! {

/// What the caller of an `Optimizer` has to do next.
#[derive(Debug, Clone, Copy, PartialEq, Eq, Structural)]
pub enum Action {
    /// Assemble and solve the normal equations at the current estimates,
    /// work out the new estimates and hand them to `advance`.
    Linearize,
    /// Nothing: the run is over.
    Stop,
}

/// How the numeric part of one iteration ended.
#[derive(Debug)]
pub enum Outcome {
    /// The new estimates, one entry for each variable in insertion order.
    /// The entries of fixed variables are not looked at.
    Solved(Vec<Vec<u64>>),
    /// The normal equations could not be solved.
    Singular,
}

/// A run of a given number of iterations over a graph.
pub struct Optimizer {
    pub graph: FactorGraph,
    /// Iterations that are still due.
    pub remaining: usize,
    /// Why the run ended early, if it did.
    pub error: Option<GraphError>,
}

/// The law of a step: the graph keeps its factors, its state-vector length
/// and its variables with their ids, kinds and fixed types, and every fixed
/// variable keeps its estimate.
pub open spec fn structure_preserved(before: FactorGraph, after: FactorGraph) -> bool {
    &&& after.edges() == before.edges()
    &&& after.free_dim() == before.free_dim()
    &&& fixed_preserved(before.variables(), after.variables())
}

/// What `advance` does to a run that is handed `outcome`.
pub open spec fn advanced(
    before: Optimizer,
    outcome: Outcome,
    after: Optimizer,
    result: Result<(), GraphError>,
) -> bool {
    let vars = before.graph.variables();
    if before.spec_next_action() == Action::Stop {
        &&& result == Ok::<(), GraphError>(())
        &&& after.graph.variables() == vars
        &&& after.remaining == before.remaining
        &&& after.error == before.error
    } else {
        match outcome {
            Outcome::Singular => {
                &&& result == Err::<(), GraphError>(GraphError::SingularSystem)
                &&& after.graph.variables() == vars
                &&& after.remaining == before.remaining
                &&& after.error == Some(GraphError::SingularSystem)
            },
            Outcome::Solved(estimates) => if estimates_fit(vars, estimates@) {
                &&& result == Ok::<(), GraphError>(())
                &&& estimates_replaced(vars, estimates@, after.graph.variables())
                &&& after.remaining == before.remaining - 1
                &&& after.error is None
            } else {
                &&& result == Err::<(), GraphError>(GraphError::DimensionMismatch)
                &&& after.graph.variables() == vars
                &&& after.remaining == before.remaining
                &&& after.error == Some(GraphError::DimensionMismatch)
            },
        }
    }
}

impl Optimizer {
    pub open spec fn wf(self) -> bool {
        self.graph.wf()
    }

    /// Another iteration is due while some remain and none has failed.
    pub open spec fn spec_next_action(self) -> Action {
        if self.error is Some || self.remaining == 0 {
            Action::Stop
        } else {
            Action::Linearize
        }
    }

    /// A run of `iterations` iterations over `graph`. With no iteration the
    /// run is over before it starts.
    pub fn new(graph: FactorGraph, iterations: usize) -> (run: Optimizer)
        requires
            graph.wf(),
        ensures
            run.wf(),
            run.graph == graph,
            run.remaining == iterations,
            run.error is None,
    {
        Optimizer { graph, remaining: iterations, error: None }
    }

    pub fn next_action(&self) -> (action: Action)
        ensures
            action == self.spec_next_action(),
    {
        if self.error.is_some() || self.remaining == 0 {
            Action::Stop
        } else {
            Action::Linearize
        }
    }

    /// Ends an iteration. New estimates that fit are taken into the graph,
    /// all together, and one iteration less is due. A singular system, or
    /// estimates that do not fit, end the run with the error: the graph
    /// stays as the iterations before left it. On a run that is over the
    /// call does nothing.
    pub fn advance(&mut self, outcome: Outcome) -> (result: Result<(), GraphError>)
        requires
            old(self).wf(),
        ensures
            final(self).wf(),
            structure_preserved(old(self).graph, final(self).graph),
            advanced(*old(self), outcome, *final(self), result),
    {
        if self.error.is_some() || self.remaining == 0 {
            return Ok(());
        }
        match &outcome {
            Outcome::Singular => {
                self.error = Some(GraphError::SingularSystem);
                Err(GraphError::SingularSystem)
            },
            Outcome::Solved(estimates) => {
                match self.graph.update_estimates(estimates) {
                    Ok(_) => {
                        self.remaining = self.remaining - 1;
                        Ok(())
                    },
                    Err(_) => {
                        self.error = Some(GraphError::DimensionMismatch);
                        Err(GraphError::DimensionMismatch)
                    },
                }
            },
        }
    }

    /// The graph as the run left it, and the error that ended it early.
    pub fn finish(self) -> (end: (FactorGraph, Option<GraphError>))
        ensures
            end.0 == self.graph,
            end.1 == self.error,
    {
        (self.graph, self.error)
    }
}

/// A graph preserves its own structure.
pub proof fn lemma_structure_preserved_reflexive(graph: FactorGraph)
    ensures
        structure_preserved(graph, graph),
{
}

/// Steps compose: what every step preserves, every run preserves. So a
/// fixed variable holds after any number of iterations the estimate it held
/// before the first.
pub proof fn lemma_structure_preserved_transitive(a: FactorGraph, b: FactorGraph, c: FactorGraph)
    requires
        structure_preserved(a, b),
        structure_preserved(b, c),
    ensures
        structure_preserved(a, c),
{
    assert forall|i: int| 0 <= i < a.variables().len() implies {
        &&& (#[trigger] c.variables()[i]).id() == a.variables()[i].id()
        &&& c.variables()[i].kind() == a.variables()[i].kind()
        &&& c.variables()[i].fixed_type() == a.variables()[i].fixed_type()
        &&& a.variables()[i].fixed_type() is Fixed ==> c.variables()[i].content()
            == a.variables()[i].content()
    } by {
        assert(b.variables()[i].id() == a.variables()[i].id());
    }
}

/// Fixed variables are immutable: along a run of any number of steps, each
/// of which preserves the structure as `advance` does, the graph at the end
/// has the factors and variables of the graph at the start, and every fixed
/// variable holds, bit for bit, the estimate it started with.
pub proof fn lemma_run_preserves_fixed(states: Seq<FactorGraph>)
    requires
        states.len() > 0,
        forall|i: int|
            0 <= i < states.len() - 1 ==> structure_preserved(#[trigger] states[i], states[i + 1]),
    ensures
        structure_preserved(states[0], states.last()),
    decreases states.len(),
{
    if states.len() == 1 {
        lemma_structure_preserved_reflexive(states[0]);
    } else {
        let shorter = states.drop_last();
        assert forall|i: int| 0 <= i < shorter.len() - 1 implies structure_preserved(
            #[trigger] shorter[i],
            shorter[i + 1],
        ) by {
            assert(structure_preserved(states[i], states[i + 1]));
        }
        lemma_run_preserves_fixed(shorter);
        assert(structure_preserved(states[states.len() - 2], states[states.len() - 2 + 1]));
        lemma_structure_preserved_transitive(states[0], shorter.last(), states.last());
    }
}

/// The estimates that a step leaves are fixed by the state before it and by
/// the outcome handed in: two steps from one state with one outcome end
/// with the same result, the same iterations due, and variables that agree
/// in id, kind, fixed type and estimate.
pub proof fn lemma_advance_deterministic(
    before: Optimizer,
    outcome: Outcome,
    first: Optimizer,
    first_result: Result<(), GraphError>,
    second: Optimizer,
    second_result: Result<(), GraphError>,
)
    requires
        structure_preserved(before.graph, first.graph),
        structure_preserved(before.graph, second.graph),
        advanced(before, outcome, first, first_result),
        advanced(before, outcome, second, second_result),
    ensures
        first_result == second_result,
        first.remaining == second.remaining,
        first.error == second.error,
        first.graph.edges() == second.graph.edges(),
        first.graph.variables().len() == second.graph.variables().len(),
        forall|i: int|
            0 <= i < first.graph.variables().len() ==> same_variable(
                #[trigger] first.graph.variables()[i],
                second.graph.variables()[i],
            ),
{
    assert forall|i: int| 0 <= i < first.graph.variables().len() implies same_variable(
        #[trigger] first.graph.variables()[i],
        second.graph.variables()[i],
    ) by {
        assert(first.graph.variables()[i].id() == before.graph.variables()[i].id());
        assert(second.graph.variables()[i].id() == before.graph.variables()[i].id());
    }
}

/// Two variables agree in id, kind, fixed type and estimate.
pub open spec fn same_variable(a: Variable, b: Variable) -> bool {
    &&& a.id() == b.id()
    &&& a.kind() == b.kind()
    &&& a.fixed_type() == b.fixed_type()
    &&& a.content() == b.content()
}

} // verus!
