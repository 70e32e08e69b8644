//! Whole optimizations on small graphs. The arithmetic of an iteration is
//! done here, in floating point; the library supplies the graph, the places
//! where each factor adds to the normal equations, and the driver.

use gs_rs::factor_graph::factor::{Factor, FactorType};
use gs_rs::factor_graph::variable::{Variable, VariableType};
use gs_rs::factor_graph::{FactorGraph, GraphError};
use gs_rs::optimizer::linear_system::{scatter_of, update_H_b, Endpoint, LinearSystem};
use gs_rs::optimizer::{Action, Optimizer, Outcome};
use nalgebra::{DMatrix, DVector};
use std::f64::consts::PI;

fn numbers(words: &[u64]) -> Vec<f64> {
    words.iter().map(|w| f64::from_bits(*w)).collect()
}

fn words(numbers: &[f64]) -> Vec<u64> {
    numbers.iter().map(|x| x.to_bits()).collect()
}

fn identity(dim: usize) -> Vec<u64> {
    words(DMatrix::<f64>::identity(dim, dim).as_slice())
}

fn wrap(a: f64) -> f64 {
    let w = a - 2.0 * PI * (a / (2.0 * PI)).round();
    if w <= -PI {
        w + 2.0 * PI
    } else if w > PI {
        w - 2.0 * PI
    } else {
        w
    }
}

/// The rotation by `-phi` and its derivative by `phi`.
fn back_rotation(phi: f64) -> (DMatrix<f64>, DMatrix<f64>) {
    let (s, c) = phi.sin_cos();
    (
        DMatrix::from_row_slice(2, 2, &[c, s, -s, c]),
        DMatrix::from_row_slice(2, 2, &[-s, c, -c, -s]),
    )
}

fn quat_mul(a: &[f64], b: &[f64]) -> [f64; 4] {
    let (ax, ay, az, aw) = (a[0], a[1], a[2], a[3]);
    let (bx, by, bz, bw) = (b[0], b[1], b[2], b[3]);
    [
        aw * bx + ax * bw + ay * bz - az * by,
        aw * by - ax * bz + ay * bw + az * bx,
        aw * bz + ax * by - ay * bx + az * bw,
        aw * bw - ax * bx - ay * by - az * bz,
    ]
}

fn quat_inv(q: &[f64]) -> [f64; 4] {
    [-q[0], -q[1], -q[2], q[3]]
}

fn quat_normalize(q: &[f64]) -> [f64; 4] {
    let norm = (q[0] * q[0] + q[1] * q[1] + q[2] * q[2] + q[3] * q[3]).sqrt();
    [q[0] / norm, q[1] / norm, q[2] / norm, q[3] / norm]
}

fn quat_exp(omega: &[f64]) -> [f64; 4] {
    let theta = (omega[0] * omega[0] + omega[1] * omega[1] + omega[2] * omega[2]).sqrt();
    let (scale, w) = if theta < 1e-8 {
        (0.5 - theta * theta / 48.0, 1.0 - theta * theta / 8.0)
    } else {
        ((theta / 2.0).sin() / theta, (theta / 2.0).cos())
    };
    [omega[0] * scale, omega[1] * scale, omega[2] * scale, w]
}

fn rotation(q: &[f64]) -> DMatrix<f64> {
    let (x, y, z, w) = (q[0], q[1], q[2], q[3]);
    DMatrix::from_row_slice(
        3,
        3,
        &[
            1.0 - 2.0 * (y * y + z * z),
            2.0 * (x * y - z * w),
            2.0 * (x * z + y * w),
            2.0 * (x * y + z * w),
            1.0 - 2.0 * (x * x + z * z),
            2.0 * (y * z - x * w),
            2.0 * (x * z - y * w),
            2.0 * (y * z + x * w),
            1.0 - 2.0 * (x * x + y * y),
        ],
    )
}

fn skew(v: &DVector<f64>) -> DMatrix<f64> {
    DMatrix::from_row_slice(3, 3, &[0.0, -v[2], v[1], v[2], 0.0, -v[0], -v[1], v[0], 0.0])
}

/// Derivative of the vector part of `left * exp(omega) * right` by `omega`
/// at zero, times `sign`.
fn rotation_block(left: &[f64], right: &[f64], sign: f64) -> DMatrix<f64> {
    let mut block = DMatrix::zeros(3, 3);
    for k in 0..3 {
        let mut unit = [0.0; 4];
        unit[k] = 0.5 * sign;
        let column = quat_mul(&quat_mul(left, &unit), right);
        for row in 0..3 {
            block[(row, k)] = column[row];
        }
    }
    block
}

struct Linearized {
    error: DVector<f64>,
    source: DMatrix<f64>,
    target: Option<DMatrix<f64>>,
}

fn linearize(factor: &Factor, source: &[f64], target: Option<&[f64]>) -> Linearized {
    let z = numbers(&factor.constraint);
    let one = [0.0, 0.0, 0.0, 1.0];
    match factor.factor_type {
        FactorType::Position2D => {
            let (r, _) = back_rotation(z[2]);
            let e = &r * DVector::from_vec(vec![source[0] - z[0], source[1] - z[1]]);
            let mut j = DMatrix::identity(3, 3);
            j.slice_mut((0, 0), (2, 2)).copy_from(&r);
            Linearized {
                error: DVector::from_vec(vec![e[0], e[1], wrap(source[2] - z[2])]),
                source: j,
                target: None,
            }
        }
        FactorType::Odometry2D => {
            let b = target.unwrap();
            let d = DVector::from_vec(vec![b[0] - source[0], b[1] - source[1]]);
            let (ra, dra) = back_rotation(source[2]);
            let (rz, _) = back_rotation(z[2]);
            let predicted = &ra * &d;
            let e = &rz * DVector::from_vec(vec![predicted[0] - z[0], predicted[1] - z[1]]);
            let angle = wrap(wrap(b[2] - source[2]) - z[2]);
            let both = &rz * &ra;
            let by_angle = &rz * &dra * &d;
            let mut ja = DMatrix::zeros(3, 3);
            ja.slice_mut((0, 0), (2, 2)).copy_from(&(-&both));
            ja[(0, 2)] = by_angle[0];
            ja[(1, 2)] = by_angle[1];
            ja[(2, 2)] = -1.0;
            let mut jb = DMatrix::identity(3, 3);
            jb.slice_mut((0, 0), (2, 2)).copy_from(&both);
            Linearized {
                error: DVector::from_vec(vec![e[0], e[1], angle]),
                source: ja,
                target: Some(jb),
            }
        }
        FactorType::Observation2D => {
            let l = target.unwrap();
            let d = DVector::from_vec(vec![l[0] - source[0], l[1] - source[1]]);
            let (rv, drv) = back_rotation(source[2]);
            let seen = &rv * &d;
            let by_angle = &drv * &d;
            let mut jv = DMatrix::zeros(2, 3);
            jv.slice_mut((0, 0), (2, 2)).copy_from(&(-&rv));
            jv[(0, 2)] = by_angle[0];
            jv[(1, 2)] = by_angle[1];
            Linearized {
                error: DVector::from_vec(vec![seen[0] - z[0], seen[1] - z[1]]),
                source: jv,
                target: Some(rv),
            }
        }
        FactorType::Position3D => {
            let rm_t = rotation(&z[3..7]).transpose();
            let e_t = &rm_t
                * DVector::from_vec(vec![source[0] - z[0], source[1] - z[1], source[2] - z[2]]);
            let q_err = quat_mul(&quat_inv(&z[3..7]), &source[3..7]);
            let mut j = DMatrix::zeros(6, 6);
            j.slice_mut((0, 0), (3, 3)).copy_from(&rm_t);
            j.slice_mut((3, 3), (3, 3)).copy_from(&rotation_block(&q_err, &one, 1.0));
            Linearized {
                error: DVector::from_vec(vec![e_t[0], e_t[1], e_t[2], q_err[0], q_err[1], q_err[2]]),
                source: j,
                target: None,
            }
        }
        FactorType::Odometry3D => {
            let b = target.unwrap();
            let ra_t = rotation(&source[3..7]).transpose();
            let rm_t = rotation(&z[3..7]).transpose();
            let predicted = &ra_t
                * DVector::from_vec(vec![b[0] - source[0], b[1] - source[1], b[2] - source[2]]);
            let e_t = &rm_t
                * DVector::from_vec(vec![predicted[0] - z[0], predicted[1] - z[1], predicted[2] - z[2]]);
            let q_pred = quat_mul(&quat_inv(&source[3..7]), &b[3..7]);
            let q_m_inv = quat_inv(&z[3..7]);
            let q_err = quat_mul(&q_m_inv, &q_pred);
            let both = &rm_t * &ra_t;
            let mut ja = DMatrix::zeros(6, 6);
            ja.slice_mut((0, 0), (3, 3)).copy_from(&(-&both));
            ja.slice_mut((0, 3), (3, 3)).copy_from(&(&rm_t * skew(&predicted)));
            ja.slice_mut((3, 3), (3, 3)).copy_from(&rotation_block(&q_m_inv, &q_pred, -1.0));
            let mut jb = DMatrix::zeros(6, 6);
            jb.slice_mut((0, 0), (3, 3)).copy_from(&both);
            jb.slice_mut((3, 3), (3, 3)).copy_from(&rotation_block(&q_err, &one, 1.0));
            Linearized {
                error: DVector::from_vec(vec![e_t[0], e_t[1], e_t[2], q_err[0], q_err[1], q_err[2]]),
                source: ja,
                target: Some(jb),
            }
        }
        FactorType::Observation3D => {
            let l = target.unwrap();
            let rv_t = rotation(&source[3..7]).transpose();
            let seen = &rv_t
                * DVector::from_vec(vec![l[0] - source[0], l[1] - source[1], l[2] - source[2]]);
            let mut jv = DMatrix::zeros(3, 6);
            jv.slice_mut((0, 0), (3, 3)).copy_from(&(-&rv_t));
            jv.slice_mut((0, 3), (3, 3)).copy_from(&skew(&seen));
            Linearized {
                error: DVector::from_vec(vec![seen[0] - z[0], seen[1] - z[1], seen[2] - z[2]]),
                source: jv,
                target: Some(rv_t),
            }
        }
    }
}

fn linearize_at(graph: &FactorGraph, k: usize) -> (Linearized, DMatrix<f64>) {
    let edge = graph.edge_at(k);
    let source = numbers(&graph.variable_at(edge.source).get_content());
    let target = edge.target.map(|t| numbers(&graph.variable_at(t).get_content()));
    let dim = edge.factor.factor_type.information_dim();
    let omega = DMatrix::from_column_slice(dim, dim, &numbers(&edge.factor.information_matrix));
    (linearize(&edge.factor, &source, target.as_deref()), omega)
}

fn chi2(graph: &FactorGraph) -> f64 {
    let mut sum = 0.0;
    for k in 0..graph.factor_count() {
        let (lin, omega) = linearize_at(graph, k);
        sum += (lin.error.transpose() * &omega * &lin.error)[(0, 0)];
    }
    sum
}

fn assemble(graph: &FactorGraph) -> (DMatrix<f64>, DVector<f64>) {
    let n = graph.total_free_dim();
    let mut system = LinearSystem::new(n);
    for k in 0..graph.factor_count() {
        let (lin, omega) = linearize_at(graph, k);
        let edge = graph.edge_at(k);
        if let (FactorType::Position2D, Variable::Vehicle2D(var)) =
            (edge.factor.factor_type, graph.variable_at(edge.source))
        {
            let h_update = lin.source.transpose() * &omega * &lin.source;
            let b_update = lin.source.transpose() * &omega * &lin.error;
            update_H_b(&mut system, &words(h_update.as_slice()), &words(b_update.as_slice()), var);
            continue;
        }
        let jacobian = |end: Endpoint| match end {
            Endpoint::Source => &lin.source,
            Endpoint::Target => lin.target.as_ref().unwrap(),
        };
        let scatter = scatter_of(graph, k);
        for block in scatter.blocks() {
            let update = jacobian(block.row).transpose() * &omega * jacobian(block.column);
            assert_eq!(update.nrows(), block.rows.len());
            assert_eq!(update.ncols(), block.columns.len());
            system.add_block(&block.rows, &block.columns, &words(update.as_slice()));
        }
        for segment in scatter.segments() {
            let update = jacobian(segment.row).transpose() * &omega * &lin.error;
            assert_eq!(update.nrows(), segment.rows.len());
            system.add_segment(&segment.rows, &words(update.as_slice()));
        }
    }
    let mut h = DMatrix::zeros(n, n);
    let mut b = DVector::zeros(n);
    for (row, column, value) in &system.h {
        h[(*row, *column)] += f64::from_bits(*value);
    }
    for (row, value) in &system.b {
        b[*row] += f64::from_bits(*value);
    }
    (h, b)
}

fn solve(h: DMatrix<f64>, b: DVector<f64>) -> Option<Vec<f64>> {
    let rhs = -b;
    let solution = match h.clone().cholesky() {
        Some(cholesky) => cholesky.solve(&rhs),
        None => h.lu().solve(&rhs)?,
    };
    if solution.iter().all(|x| x.is_finite()) {
        Some(solution.iter().cloned().collect())
    } else {
        None
    }
}

fn retract(kind: VariableType, old: &[f64], delta: &[f64]) -> Vec<f64> {
    match kind {
        VariableType::Vehicle2D => vec![old[0] + delta[0], old[1] + delta[1], wrap(old[2] + delta[2])],
        VariableType::Landmark2D => vec![old[0] + delta[0], old[1] + delta[1]],
        VariableType::Landmark3D => vec![old[0] + delta[0], old[1] + delta[1], old[2] + delta[2]],
        VariableType::Vehicle3D => {
            let q = quat_normalize(&quat_mul(&old[3..7], &quat_exp(&delta[3..6])));
            vec![old[0] + delta[0], old[1] + delta[1], old[2] + delta[2], q[0], q[1], q[2], q[3]]
        }
    }
}

fn iterate(graph: &FactorGraph) -> Outcome {
    let (h, b) = assemble(graph);
    let solution = match solve(h, b) {
        Some(solution) => words(&solution),
        None => return Outcome::Singular,
    };
    let mut estimates = Vec::new();
    for i in 0..graph.variable_count() {
        let variable = graph.variable_at(i);
        estimates.push(match graph.correction(i, &solution) {
            Some(delta) => words(&retract(
                variable.get_type(),
                &numbers(&variable.get_content()),
                &numbers(&delta),
            )),
            None => Vec::new(),
        });
    }
    Outcome::Solved(estimates)
}

fn optimize(graph: FactorGraph, iterations: usize) -> (FactorGraph, Option<GraphError>) {
    let mut run = Optimizer::new(graph, iterations);
    while run.next_action() == Action::Linearize {
        let outcome = iterate(&run.graph);
        if run.advance(outcome).is_err() {
            break;
        }
    }
    run.finish()
}

fn estimate(graph: &FactorGraph, id: usize) -> Vec<f64> {
    numbers(&graph.get_estimate(id).unwrap())
}

fn assert_close(actual: &[f64], expected: &[f64], tolerance: f64) {
    assert_eq!(actual.len(), expected.len());
    for (a, e) in actual.iter().zip(expected) {
        assert!((a - e).abs() < tolerance, "{:?} is not {:?}", actual, expected);
    }
}

fn two_poses() -> FactorGraph {
    let mut g = FactorGraph::new();
    g.add_variable(VariableType::Vehicle2D, 0, words(&[0.0, 0.0, 0.0]), true).unwrap();
    g.add_variable(VariableType::Vehicle2D, 1, words(&[1.1, 0.0, 0.0]), false).unwrap();
    g.add_factor(FactorType::Odometry2D, words(&[1.0, 0.0, 0.0]), identity(3), 0, Some(1)).unwrap();
    g
}

fn triangle() -> FactorGraph {
    let mut g = FactorGraph::new();
    g.add_variable(VariableType::Vehicle2D, 0, words(&[0.0, 0.0, 0.0]), true).unwrap();
    g.add_variable(VariableType::Vehicle2D, 1, words(&[1.0, 0.1, 0.0]), false).unwrap();
    g.add_variable(VariableType::Vehicle2D, 2, words(&[1.0, 1.0, 0.0]), false).unwrap();
    g.add_factor(FactorType::Odometry2D, words(&[1.0, 0.0, 0.0]), identity(3), 0, Some(1)).unwrap();
    g.add_factor(FactorType::Odometry2D, words(&[0.0, 1.0, 0.0]), identity(3), 1, Some(2)).unwrap();
    g.add_factor(FactorType::Odometry2D, words(&[-1.0, -1.0, 0.0]), identity(3), 2, Some(0)).unwrap();
    g
}

fn pair_3d(start: &[f64]) -> FactorGraph {
    let mut g = FactorGraph::new();
    g.add_variable(VariableType::Vehicle3D, 0, words(&[0.0, 0.0, 0.0, 0.0, 0.0, 0.0, 1.0]), true).unwrap();
    g.add_variable(VariableType::Vehicle3D, 1, words(start), false).unwrap();
    g.add_factor(
        FactorType::Odometry3D,
        words(&[0.0, 0.0, 0.0, 0.0, 0.0, 0.0, 1.0]),
        identity(6),
        0,
        Some(1),
    )
    .unwrap();
    g
}

#[test]
fn two_pose_odometry_2d() {
    let (g, error) = optimize(two_poses(), 1);
    assert_eq!(error, None);
    assert_close(&estimate(&g, 1), &[1.0, 0.0, 0.0], 1e-9);
    assert_eq!(g.get_estimate(0), Some(words(&[0.0, 0.0, 0.0])));
}

#[test]
fn triangle_loop_2d() {
    let start = chi2(&triangle());
    assert!(start > 1e-3);
    let (g, error) = optimize(triangle(), 5);
    assert_eq!(error, None);
    assert!(chi2(&g) < 1e-12);
    assert_close(&estimate(&g, 1), &[1.0, 0.0, 0.0], 1e-6);
    assert_close(&estimate(&g, 2), &[1.0, 1.0, 0.0], 1e-6);
}

#[test]
fn landmark_observation() {
    let mut g = FactorGraph::new();
    g.add_variable(VariableType::Vehicle2D, 0, words(&[0.0, 0.0, 0.0]), true).unwrap();
    g.add_variable(VariableType::Landmark2D, 1, words(&[2.1, 0.1]), false).unwrap();
    g.add_factor(FactorType::Observation2D, words(&[2.0, 0.0]), identity(2), 0, Some(1)).unwrap();
    let (g, error) = optimize(g, 1);
    assert_eq!(error, None);
    assert_close(&estimate(&g, 1), &[2.0, 0.0], 1e-9);
}

#[test]
fn odometry_pair_3d() {
    let (g, error) = optimize(pair_3d(&[0.1, 0.0, 0.0, 0.0, 0.0, 0.0, 1.0]), 1);
    assert_eq!(error, None);
    assert_close(&estimate(&g, 1), &[0.0, 0.0, 0.0, 0.0, 0.0, 0.0, 1.0], 1e-9);
}

#[test]
fn odometry_pair_3d_from_a_slightly_turned_pose() {
    let q = quat_normalize(&[1e-4, -2e-4, 5e-5, 1.0]);
    let (g, error) = optimize(pair_3d(&[0.1, 0.0, 0.0, q[0], q[1], q[2], q[3]]), 1);
    assert_eq!(error, None);
    assert_close(&estimate(&g, 1), &[0.0, 0.0, 0.0, 0.0, 0.0, 0.0, 1.0], 1e-9);
}

#[test]
fn prior_2d_pulls_a_free_vehicle_onto_the_measurement() {
    let mut g = FactorGraph::new();
    g.add_variable(VariableType::Vehicle2D, 0, words(&[0.5, -0.5, 0.3]), false).unwrap();
    g.add_factor(FactorType::Position2D, words(&[1.0, 2.0, 0.5]), identity(3), 0, None).unwrap();
    let (g, error) = optimize(g, 1);
    assert_eq!(error, None);
    assert_close(&estimate(&g, 0), &[1.0, 2.0, 0.5], 1e-9);
}

#[test]
fn prior_and_observation_3d() {
    let mut g = FactorGraph::new();
    g.add_variable(VariableType::Vehicle3D, 0, words(&[0.2, 0.1, -0.1, 0.0, 0.0, 0.0, 1.0]), false).unwrap();
    g.add_variable(VariableType::Landmark3D, 1, words(&[1.2, 2.1, 2.9]), false).unwrap();
    g.add_factor(
        FactorType::Position3D,
        words(&[0.0, 0.0, 0.0, 0.0, 0.0, 0.0, 1.0]),
        identity(6),
        0,
        None,
    )
    .unwrap();
    g.add_factor(FactorType::Observation3D, words(&[1.0, 2.0, 3.0]), identity(3), 0, Some(1)).unwrap();
    let before = chi2(&g);
    let (g, error) = optimize(g, 5);
    assert_eq!(error, None);
    assert!(chi2(&g) < 1e-12 && chi2(&g) < before);
    assert_close(&estimate(&g, 0), &[0.0, 0.0, 0.0, 0.0, 0.0, 0.0, 1.0], 1e-6);
    assert_close(&estimate(&g, 1), &[1.0, 2.0, 3.0], 1e-6);
}

#[test]
fn fixed_variables_stay_bit_equal() {
    let mut g = triangle();
    g.add_variable(VariableType::Landmark2D, 7, vec![0x7ff8_0000_0000_0001, (-0.0f64).to_bits()], true).unwrap();
    for iterations in [0, 1, 3, 10] {
        let mut start = triangle();
        start.add_variable(VariableType::Landmark2D, 7, vec![0x7ff8_0000_0000_0001, (-0.0f64).to_bits()], true).unwrap();
        let (end, _) = optimize(start, iterations);
        assert_eq!(end.get_estimate(0), g.get_estimate(0));
        assert_eq!(end.get_estimate(7), g.get_estimate(7));
    }
}

#[test]
fn quaternions_stay_unit() {
    let q = quat_normalize(&[0.3, -0.2, 0.1, 0.9]);
    let mut run = Optimizer::new(pair_3d(&[0.4, -0.3, 0.2, q[0], q[1], q[2], q[3]]), 6);
    while run.next_action() == Action::Linearize {
        let outcome = iterate(&run.graph);
        run.advance(outcome).unwrap();
        let pose = estimate(&run.graph, 1);
        let norm = (pose[3] * pose[3] + pose[4] * pose[4] + pose[5] * pose[5] + pose[6] * pose[6]).sqrt();
        assert!((norm - 1.0).abs() < 1e-9);
    }
    assert!(chi2(&run.graph) < 1e-12);
}

#[test]
fn angles_stay_wrapped() {
    let mut g = FactorGraph::new();
    g.add_variable(VariableType::Vehicle2D, 0, words(&[0.0, 0.0, 3.0]), true).unwrap();
    g.add_variable(VariableType::Vehicle2D, 1, words(&[-1.0, 0.2, 3.1]), false).unwrap();
    g.add_factor(FactorType::Odometry2D, words(&[1.0, 0.0, 0.4]), identity(3), 0, Some(1)).unwrap();
    let mut run = Optimizer::new(g, 5);
    while run.next_action() == Action::Linearize {
        let outcome = iterate(&run.graph);
        run.advance(outcome).unwrap();
        let phi = estimate(&run.graph, 1)[2];
        assert!(-PI < phi && phi <= PI);
    }
    assert_close(&estimate(&run.graph, 1)[2..], &[3.4 - 2.0 * PI], 1e-9);
}

#[test]
fn wrap_maps_into_the_half_open_turn() {
    assert_eq!(wrap(0.0), 0.0);
    assert_eq!(wrap(PI), PI);
    assert_eq!(wrap(-PI), PI);
    assert!((wrap(3.0 * PI / 2.0) + PI / 2.0).abs() < 1e-12);
    assert!((wrap(-3.0 * PI / 2.0) - PI / 2.0).abs() < 1e-12);
    assert!((wrap(7.0) - (7.0 - 2.0 * PI)).abs() < 1e-12);
}

#[test]
fn zero_residual_is_a_fixpoint() {
    let mut g = FactorGraph::new();
    g.add_variable(VariableType::Vehicle2D, 0, words(&[0.0, 0.0, 0.0]), true).unwrap();
    g.add_variable(VariableType::Vehicle2D, 1, words(&[1.0, 0.0, 0.0]), false).unwrap();
    g.add_variable(VariableType::Vehicle2D, 2, words(&[1.0, 1.0, 0.0]), false).unwrap();
    g.add_variable(VariableType::Landmark2D, 3, words(&[3.0, 2.0]), false).unwrap();
    g.add_factor(FactorType::Odometry2D, words(&[1.0, 0.0, 0.0]), identity(3), 0, Some(1)).unwrap();
    g.add_factor(FactorType::Odometry2D, words(&[0.0, 1.0, 0.0]), identity(3), 1, Some(2)).unwrap();
    g.add_factor(FactorType::Observation2D, words(&[2.0, 1.0]), identity(2), 2, Some(3)).unwrap();
    assert_eq!(chi2(&g), 0.0);
    let (g, error) = optimize(g, 1);
    assert_eq!(error, None);
    assert_close(&estimate(&g, 1), &[1.0, 0.0, 0.0], 1e-9);
    assert_close(&estimate(&g, 2), &[1.0, 1.0, 0.0], 1e-9);
    assert_close(&estimate(&g, 3), &[3.0, 2.0], 1e-9);
}

#[test]
fn chi2_falls_on_a_well_posed_problem() {
    let before = chi2(&triangle());
    let (g, _) = optimize(triangle(), 10);
    assert!(chi2(&g) < before);
}

#[test]
fn chi2_of_the_two_pose_graph() {
    assert!((chi2(&two_poses()) - 0.01).abs() < 1e-12);
}

#[test]
fn runs_are_bit_identical() {
    let (first, _) = optimize(triangle(), 4);
    let (second, _) = optimize(triangle(), 4);
    for id in first.ids() {
        assert_eq!(first.get_estimate(id), second.get_estimate(id));
    }
}

#[test]
fn variable_without_a_factor_makes_the_system_singular() {
    let mut g = two_poses();
    g.add_variable(VariableType::Landmark2D, 2, words(&[5.0, 5.0]), false).unwrap();
    let (g, error) = optimize(g, 3);
    assert_eq!(error, Some(GraphError::SingularSystem));
    assert_eq!(g.get_estimate(0), Some(words(&[0.0, 0.0, 0.0])));
    assert_eq!(g.get_estimate(1), Some(words(&[1.1, 0.0, 0.0])));
    assert_eq!(g.get_estimate(2), Some(words(&[5.0, 5.0])));
}

#[test]
fn assembled_system_is_symmetric() {
    let (h, _) = assemble(&triangle());
    assert_eq!(h.nrows(), 6);
    for row in 0..6 {
        for column in 0..6 {
            assert!((h[(row, column)] - h[(column, row)]).abs() < 1e-12);
        }
    }
}

#[test]
fn no_iteration_changes_nothing() {
    let (g, error) = optimize(two_poses(), 0);
    assert_eq!(error, None);
    assert_eq!(g.get_estimate(1), Some(words(&[1.1, 0.0, 0.0])));
}
