use gs_rs::factor_graph::factor::FactorType;
use gs_rs::factor_graph::variable::VariableType;
use gs_rs::factor_graph::{FactorGraph, GraphError};
use gs_rs::optimizer::{Action, Optimizer, Outcome};

fn words(numbers: &[f64]) -> Vec<u64> {
    numbers.iter().map(|x| x.to_bits()).collect()
}

fn identity(dim: usize) -> Vec<u64> {
    let mut out = Vec::new();
    for col in 0..dim {
        for row in 0..dim {
            out.push(if row == col { 1.0f64.to_bits() } else { 0.0f64.to_bits() });
        }
    }
    out
}

/// Vehicle 0 (fixed), vehicle 1 and landmark 2 (free).
fn graph() -> FactorGraph {
    let mut g = FactorGraph::new();
    g.add_variable(VariableType::Vehicle2D, 0, words(&[0.0, 0.0, 0.0]), true).unwrap();
    g.add_variable(VariableType::Vehicle2D, 1, words(&[1.1, 0.0, 0.0]), false).unwrap();
    g.add_variable(VariableType::Landmark2D, 2, words(&[2.0, 1.0]), false).unwrap();
    g.add_factor(FactorType::Odometry2D, words(&[1.0, 0.0, 0.0]), identity(3), 0, Some(1)).unwrap();
    g.add_factor(FactorType::Observation2D, words(&[1.0, 1.0]), identity(2), 1, Some(2)).unwrap();
    g
}

fn step(vehicle: &[f64], landmark: &[f64]) -> Outcome {
    Outcome::Solved(vec![words(&[7.0, 7.0, 7.0]), words(vehicle), words(landmark)])
}

#[test]
fn a_run_without_iterations_is_over_at_once() {
    let mut run = Optimizer::new(graph(), 0);
    assert_eq!(run.next_action(), Action::Stop);
    assert_eq!(run.advance(step(&[1.0, 0.0, 0.0], &[2.0, 1.0])), Ok(()));
    assert_eq!(run.remaining, 0);
    let (g, error) = run.finish();
    assert_eq!(error, None);
    assert_eq!(g.get_estimate(1), Some(words(&[1.1, 0.0, 0.0])));
}

#[test]
fn a_run_asks_for_as_many_iterations_as_it_was_given() {
    let mut run = Optimizer::new(graph(), 3);
    let mut iterations = 0;
    while run.next_action() == Action::Linearize {
        iterations += 1;
        assert_eq!(run.advance(step(&[iterations as f64, 0.0, 0.0], &[2.0, 1.0])), Ok(()));
        assert_eq!(run.remaining, 3 - iterations);
    }
    assert_eq!(iterations, 3);
    let (g, error) = run.finish();
    assert_eq!(error, None);
    assert_eq!(g.get_estimate(1), Some(words(&[3.0, 0.0, 0.0])));
}

#[test]
fn advance_takes_the_new_estimates_of_free_variables() {
    let mut run = Optimizer::new(graph(), 1);
    assert_eq!(run.advance(step(&[1.0, 0.5, 0.25], &[2.5, 1.5])), Ok(()));
    assert_eq!(run.next_action(), Action::Stop);
    assert_eq!(run.graph.get_estimate(0), Some(words(&[0.0, 0.0, 0.0])));
    assert_eq!(run.graph.get_estimate(1), Some(words(&[1.0, 0.5, 0.25])));
    assert_eq!(run.graph.get_estimate(2), Some(words(&[2.5, 1.5])));
    assert_eq!(run.graph.ids(), vec![0, 1, 2]);
    assert_eq!(run.graph.factor_count(), 2);
    assert_eq!(run.graph.total_free_dim(), 5);
}

#[test]
fn a_singular_system_ends_the_run_and_keeps_earlier_updates() {
    let mut run = Optimizer::new(graph(), 5);
    assert_eq!(run.advance(step(&[1.0, 0.0, 0.0], &[2.0, 1.0])), Ok(()));
    assert_eq!(run.advance(Outcome::Singular), Err(GraphError::SingularSystem));
    assert_eq!(run.next_action(), Action::Stop);
    assert_eq!(run.remaining, 4);
    assert_eq!(run.error, Some(GraphError::SingularSystem));
    assert_eq!(run.advance(step(&[9.0, 9.0, 9.0], &[9.0, 9.0])), Ok(()));
    let (g, error) = run.finish();
    assert_eq!(error, Some(GraphError::SingularSystem));
    assert_eq!(g.get_estimate(1), Some(words(&[1.0, 0.0, 0.0])));
    assert_eq!(g.get_estimate(2), Some(words(&[2.0, 1.0])));
}

#[test]
fn estimates_that_do_not_fit_end_the_run() {
    let mut run = Optimizer::new(graph(), 2);
    let short = Outcome::Solved(vec![Vec::new(), words(&[1.0, 0.0]), words(&[2.0, 1.0])]);
    assert_eq!(run.advance(short), Err(GraphError::DimensionMismatch));
    assert_eq!(run.next_action(), Action::Stop);
    assert_eq!(run.error, Some(GraphError::DimensionMismatch));
    assert_eq!(run.graph.get_estimate(1), Some(words(&[1.1, 0.0, 0.0])));
    assert_eq!(run.graph.get_estimate(2), Some(words(&[2.0, 1.0])));

    let mut run = Optimizer::new(graph(), 2);
    let too_few = Outcome::Solved(vec![Vec::new(), words(&[1.0, 0.0, 0.0])]);
    assert_eq!(run.advance(too_few), Err(GraphError::DimensionMismatch));
    assert_eq!(run.graph.get_estimate(1), Some(words(&[1.1, 0.0, 0.0])));
}

#[test]
fn entries_of_fixed_variables_are_not_looked_at() {
    let mut run = Optimizer::new(graph(), 2);
    assert_eq!(
        run.advance(Outcome::Solved(vec![Vec::new(), words(&[1.0, 0.0, 0.0]), words(&[2.0, 1.0])])),
        Ok(())
    );
    assert_eq!(
        run.advance(Outcome::Solved(vec![
            words(&[1.0, 2.0, 3.0, 4.0]),
            words(&[1.0, 0.0, 0.0]),
            words(&[2.0, 1.0])
        ])),
        Ok(())
    );
    assert_eq!(run.graph.get_estimate(0), Some(words(&[0.0, 0.0, 0.0])));
}
