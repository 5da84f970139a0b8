use control_playground::display::{write_vector, NiceFloat};
use control_playground::dynamic_system::{
    CompoundSystem, CompoundSystemComponent, CompoundSystemComponentDefinition, Signal, SystemBlock,
};
use control_playground::matrix::{add_vectors, dot_product, Matrix};
use control_playground::scalar::{Decimal, Scalar};
use control_playground::simulation::{Simulation, STEPS};
use control_playground::state_space::DiscreteStateSpaceModel;
use control_playground::transfer_function::DiscreteTransferFunction;
use std::rc::Rc;

/// Double precision numbers as the engine's scalars.
#[derive(Clone, Copy, Debug, PartialEq)]
struct Real(f64);

impl Scalar for Real {
    fn spec_zero() -> Self {
        Real(0.0)
    }
    fn zero() -> Self {
        Self::spec_zero()
    }
    fn spec_one() -> Self {
        Real(1.0)
    }
    fn one() -> Self {
        Self::spec_one()
    }
    fn spec_from_decimal(d: Decimal) -> Self {
        let sign = if d.negative { "-" } else { "" };
        Real(format!("{}{}e{}", sign, d.mantissa, d.exponent).parse().unwrap())
    }
    fn from_decimal(d: Decimal) -> Self {
        Self::spec_from_decimal(d)
    }
    fn spec_plus(self, rhs: Self) -> Self {
        Real(self.0 + rhs.0)
    }
    fn plus(self, rhs: Self) -> Self {
        self.spec_plus(rhs)
    }
    fn spec_minus(self, rhs: Self) -> Self {
        Real(self.0 - rhs.0)
    }
    fn minus(self, rhs: Self) -> Self {
        self.spec_minus(rhs)
    }
    fn spec_times(self, rhs: Self) -> Self {
        Real(self.0 * rhs.0)
    }
    fn times(self, rhs: Self) -> Self {
        self.spec_times(rhs)
    }
    fn spec_over(self, rhs: Self) -> Self {
        Real(self.0 / rhs.0)
    }
    fn over(self, rhs: Self) -> Self {
        self.spec_over(rhs)
    }
    fn spec_negated(self) -> Self {
        Real(-self.0)
    }
    fn negated(self) -> Self {
        self.spec_negated()
    }
    fn spec_magnitude(self) -> Self {
        Real(self.0.abs())
    }
    fn magnitude(self) -> Self {
        self.spec_magnitude()
    }
    fn spec_is_zero(self) -> bool {
        self.0 == 0.0
    }
    fn is_zero(self) -> bool {
        self.spec_is_zero()
    }
    fn spec_is_one(self) -> bool {
        self.0 == 1.0
    }
    fn is_one(self) -> bool {
        self.spec_is_one()
    }
    fn spec_is_negative(self) -> bool {
        self.0 < 0.0
    }
    fn is_negative(self) -> bool {
        self.spec_is_negative()
    }
    fn spec_to_fixed(self) -> String {
        format!("{:.3}", self.0)
    }
    fn to_fixed(self) -> String {
        self.spec_to_fixed()
    }
    fn spec_to_text(self) -> String {
        format!("{}", self.0)
    }
    fn to_text(self) -> String {
        self.spec_to_text()
    }
}

fn reals(values: &[f64]) -> Vec<Real> {
    values.iter().map(|v| Real(*v)).collect()
}

fn matrix(rows: &[&[f64]], cols: usize) -> Matrix<Real> {
    Matrix::from_rows(rows.iter().map(|r| reals(r)).collect(), cols).unwrap()
}

fn close(m: &Matrix<Real>, expected: &[&[f64]], cols: usize) {
    assert_eq!(m.nrows(), expected.len());
    assert_eq!(m.ncols(), cols);
    for (i, row) in expected.iter().enumerate() {
        for (j, e) in row.iter().enumerate() {
            let got = m.get(i, j).0;
            assert!((got - e).abs() <= 1e-12 * e.abs().max(1.0), "entry ({i}, {j}): {got} against {e}");
        }
    }
}

fn tf(num: &[f64], den: &[f64]) -> DiscreteTransferFunction<Real> {
    DiscreteTransferFunction::new(reals(num), reals(den)).unwrap()
}

fn define(block: SystemBlock<Real>, name: &str, reads: &[&str]) -> CompoundSystemComponentDefinition<Real> {
    CompoundSystemComponentDefinition {
        block,
        name: name.to_string(),
        reads_input_from: reads.iter().map(|r| r.to_string()).collect(),
    }
}

fn tf_block(num: &[f64], den: &[f64]) -> SystemBlock<Real> {
    SystemBlock::TransferFunction(Rc::new(tf(num, den)))
}

fn response(definitions: Vec<CompoundSystemComponentDefinition<Real>>) -> Vec<f64> {
    let system = CompoundSystem::new(definitions).unwrap();
    Simulation::new(&system).unwrap().execute().iter().map(|v| v.0).collect()
}

#[test]
fn tf_display() {
    let tf = tf(&[-1.0, 1.5, -2.0], &[1.5, 0.5, 0.75]);
    let out = tf.to_string();
    assert_eq!(
        &out,
        "  -1 + 1.5 z^-1 - 2 z^-2\n--------------------------\n1.5 + 0.5 z^-1 + 0.75 z^-2\n"
    );
}

#[test]
fn state_space_conversion() {
    let tf = tf(&[1.0, 1.5, 2.0], &[1.5, 0.5, 0.75]);
    let ss = tf.convert_to_state_space().unwrap();
    close(ss.a(), &[&[-1. / 3., -0.5], &[1., 0.]], 2);
    close(ss.b(), &[&[1.0], &[0.0]], 1);
    close(ss.c(), &[&[7.0 / 9.0, 1.0]], 2);
    close(ss.d(), &[&[2.0 / 3.0]], 1);
}

#[test]
fn state_space_conversion_gain_only() {
    let tf = tf(&[2.0], &[3.0]);
    let ss = tf.convert_to_state_space().unwrap();
    close(ss.a(), &[], 0);
    close(ss.b(), &[], 1);
    close(ss.c(), &[&[]], 0);
    close(ss.d(), &[&[2.0 / 3.0]], 1);
    assert_eq!(ss.state_size(), 0);
    assert_eq!(ss.input_size(), 1);
    assert_eq!(ss.output_size(), 1);
}

#[test]
fn third_order_realization_is_a_companion_matrix() {
    let ss = tf(&[1.0, 0.0, 0.0, 0.0], &[2.0, 4.0, 6.0, 8.0]).convert_to_state_space().unwrap();
    close(ss.a(), &[&[-2.0, -3.0, -4.0], &[1.0, 0.0, 0.0], &[0.0, 1.0, 0.0]], 3);
    close(ss.b(), &[&[1.0], &[0.0], &[0.0]], 1);
    close(ss.c(), &[&[-1.0, -1.5, -2.0]], 3);
    close(ss.d(), &[&[0.5]], 1);
}

#[test]
fn impulse_response_matches_polynomial_division() {
    let num = [1.0, 1.5, 2.0];
    let den = [1.5, 0.5, 0.75];
    let ss = tf(&num, &den).convert_to_state_space().unwrap();
    let mut divided = Vec::new();
    for k in 0..num.len() {
        let mut h: f64 = num[k];
        for i in 1..=k {
            h -= den[i] * divided[k - i];
        }
        divided.push(h / den[0]);
    }
    let mut state = reals(&[0.0, 0.0]);
    for (k, expected) in divided.iter().enumerate() {
        let input = reals(&[if k == 0 { 1.0 } else { 0.0 }]);
        let mut out = reals(&[0.0]);
        ss.calculate_output_with_feedthrough(&input, &state, &mut out);
        assert!((out[0].0 - expected).abs() <= 1e-9 * expected.abs());
        ss.update_state(&input, &mut state);
    }
}

#[test]
fn construction_pads_the_shorter_list_at_its_end() {
    let longer_den = tf(&[1.0], &[1.0, -0.5]);
    assert_eq!(longer_den.num(), &reals(&[1.0, 0.0]));
    assert_eq!(longer_den.den(), &reals(&[1.0, -0.5]));
    let longer_num = tf(&[1.0, 2.0, 3.0], &[4.0]);
    assert_eq!(longer_num.num(), &reals(&[1.0, 2.0, 3.0]));
    assert_eq!(longer_num.den(), &reals(&[4.0, 0.0, 0.0]));
}

#[test]
fn construction_needs_both_lists() {
    assert!(DiscreteTransferFunction::new(reals(&[]), reals(&[1.0])).is_none());
    assert!(DiscreteTransferFunction::new(reals(&[1.0]), reals(&[])).is_none());
    assert!(DiscreteTransferFunction::<Real>::new(vec![], vec![]).is_none());
}

#[test]
fn no_realization_without_a_leading_coefficient() {
    assert!(tf(&[1.0], &[0.0, 1.0]).convert_to_state_space().is_none());
    assert!(tf(&[1.0], &[-0.0, 1.0]).convert_to_state_space().is_none());
}

#[test]
fn display_without_a_bar_for_the_denominator_one() {
    assert_eq!(tf(&[1.0, 2.0], &[1.0]).to_string(), "1 + 2 z^-1\n");
}

#[test]
fn display_of_special_polynomials() {
    assert_eq!(tf(&[0.0], &[2.0]).to_string(), "0\n-\n2\n");
    assert_eq!(tf(&[0.0, 1.0], &[1.0, 1.0]).to_string(), "  z^-1\n--------\n1 + z^-1\n");
    assert_eq!(tf(&[2.0, 1.0], &[1.0]).to_string(), "2 + z^-1\n");
    assert_eq!(tf(&[0.0, 2.0], &[1.0]).to_string(), "2 z^-1\n");
    assert_eq!(tf(&[1.0, 1.0, 1.0], &[1.0]).to_string(), "1 + z^-1 + z^-2\n");
    assert_eq!(tf(&[0.0, 0.0, 1.0], &[-1.0, -1.0]).to_string(), "   z^-2\n-----------\n-1 - 1 z^-1\n");
    assert_eq!(tf(&[0.0, -1.0], &[1.0, 2.0]).to_string(), " -1 z^-1\n----------\n1 + 2 z^-1\n");
    assert_eq!(tf(&[1.0, -1.0, 0.0, 0.5], &[3.0]).to_string(), "1 - 1 z^-1 + 0.5 z^-3\n---------------------\n          3\n");
    assert_eq!(tf(&[1.0], &[0.0, 1.0]).to_string(), " 1\n----\nz^-1\n");
}

#[test]
fn nice_float_trims_zeros_and_the_point() {
    assert_eq!(NiceFloat(Real(1.0)).to_string(), "1");
    assert_eq!(NiceFloat(Real(0.75)).to_string(), "0.75");
    assert_eq!(NiceFloat(Real(-2.5)).to_string(), "-2.5");
    assert_eq!(NiceFloat(Real(100.0)).to_string(), "100");
    assert_eq!(NiceFloat(Real(0.0)).to_string(), "0");
    assert_eq!(NiceFloat(Real(1.23456)).to_string(), "1.235");
    assert_eq!(NiceFloat(Real(0.0001)).to_string(), "0");
}

#[test]
fn vectors_and_matrices_as_text() {
    assert_eq!(write_vector(&reals(&[56.6, 4.0, -3.3])), "[56.6, 4, -3.3]");
    assert_eq!(write_vector(&reals(&[])), "[]");
    assert_eq!(matrix(&[&[1.0, 2.0], &[3.0, 4.5]], 2).to_string(), "[[1, 2],\n [3, 4.5]]");
    assert_eq!(matrix(&[], 3).to_string(), "[[]]");
    assert_eq!(matrix(&[&[]], 0).to_string(), "[[]]");
}

#[test]
fn matrix_needs_rows_of_one_length() {
    assert!(Matrix::from_rows(vec![reals(&[1.0, 2.0]), reals(&[3.0])], 2).is_none());
    assert!(Matrix::from_rows(vec![reals(&[1.0, 2.0])], 3).is_none());
    let zeros = Matrix::<Real>::zeros(2, 3);
    close(&zeros, &[&[0.0, 0.0, 0.0], &[0.0, 0.0, 0.0]], 3);
    assert_eq!(zeros.clone(), zeros);
    assert_eq!(zeros.row(1), &reals(&[0.0, 0.0, 0.0]));
}

#[test]
fn products_and_sums_of_vectors() {
    assert_eq!(dot_product(&reals(&[1.0, 2.0, 3.0]), &reals(&[4.0, 5.0, 6.0])), Real(32.0));
    assert_eq!(dot_product(&reals(&[]), &reals(&[])), Real(0.0));
    assert_eq!(add_vectors(&reals(&[1.0, 2.0]), &reals(&[0.5, -2.0])), reals(&[1.5, 0.0]));
    let m = matrix(&[&[1.0, 2.0], &[0.0, -1.0], &[3.0, 3.0]], 2);
    assert_eq!(m.times_vector(&reals(&[2.0, 0.5])), reals(&[3.0, -0.5, 7.5]));
}

#[test]
fn state_space_block_runs() {
    let ss = DiscreteStateSpaceModel::new(
        matrix(&[&[0.5, 1.0], &[0.0, 0.25]], 2),
        matrix(&[&[1.0], &[2.0]], 1),
        matrix(&[&[1.0, -1.0]], 2),
        matrix(&[&[0.0]], 1),
    );
    assert_eq!((ss.state_size(), ss.input_size(), ss.output_size()), (2, 1, 1));
    assert!(!ss.has_feedthrough());
    let mut state = reals(&[4.0, 8.0]);
    let mut out = reals(&[0.0]);
    ss.calculate_output(&state, &mut out);
    assert_eq!(out, reals(&[-4.0]));
    ss.calculate_output_with_feedthrough(&reals(&[10.0]), &state, &mut out);
    assert_eq!(out, reals(&[-4.0]));
    ss.update_state(&reals(&[10.0]), &mut state);
    assert_eq!(state, reals(&[20.0, 22.0]));
    assert_eq!(ss.to_string(), "A: [[0.5, 1],\n [0, 0.25]] B: [[1],\n [2]] C: [[1, -1]] D: [[0]] ");
    assert_eq!(ss.clone(), ss);
}

#[test]
fn feedthrough_is_a_nonzero_entry_of_d() {
    let with = DiscreteStateSpaceModel::new(matrix(&[], 0), matrix(&[], 2), matrix(&[&[]], 0), matrix(&[&[0.0, 3.0]], 2));
    assert!(with.has_feedthrough());
    let mut out = reals(&[0.0]);
    with.calculate_output_with_feedthrough(&reals(&[5.0, 2.0]), &reals(&[]), &mut out);
    assert_eq!(out, reals(&[6.0]));
    let without = DiscreteStateSpaceModel::new(matrix(&[], 0), matrix(&[], 2), matrix(&[&[]], 0), matrix(&[&[0.0, -0.0]], 2));
    assert!(!without.has_feedthrough());
}

#[test]
fn blocks_as_text() {
    assert_eq!(SystemBlock::<Real>::Difference.to_string(), "\u{2212}");
    assert_eq!(tf_block(&[1.0, 2.0], &[1.0]).to_string(), "1 + 2 z^-1\n");
    assert_eq!(tf_block(&[1.0], &[1.0]).clone(), tf_block(&[1.0], &[1.0]));
}

#[test]
fn names_are_resolved_in_order() {
    let system = CompoundSystem::new(vec![
        define(tf_block(&[2.0], &[1.0]), "a", &["u"]),
        define(tf_block(&[3.0], &[1.0]), "b", &["a"]),
        define(SystemBlock::Difference, "c", &["b", "u"]),
    ])
    .unwrap();
    let reads: Vec<Vec<Signal>> = system.components.iter().map(|c| c.reads_input_from.clone()).collect();
    assert_eq!(
        reads,
        vec![
            vec![Signal::SystemInput],
            vec![Signal::ComponentOutput(0)],
            vec![Signal::ComponentOutput(1), Signal::SystemInput],
        ]
    );
    let names: Vec<&str> = system.components.iter().map(|c| c.name.as_str()).collect();
    assert_eq!(names, vec!["a", "b", "c"]);
    assert_eq!(system.components[2].block, SystemBlock::Difference);
}

#[test]
fn duplicate_names_are_rejected() {
    let twice = CompoundSystem::new(vec![
        define(tf_block(&[2.0], &[1.0]), "a", &["u"]),
        define(tf_block(&[3.0], &[1.0]), "a", &["u"]),
    ]);
    assert_eq!(twice.unwrap_err(), "duplicate name a");
    let reserved = CompoundSystem::new(vec![define(tf_block(&[2.0], &[1.0]), "u", &["u"])]);
    assert_eq!(reserved.unwrap_err(), "duplicate name u");
}

#[test]
fn unknown_signals_are_rejected() {
    let missing = CompoundSystem::new(vec![define(tf_block(&[2.0], &[1.0]), "a", &["b"])]);
    assert_eq!(missing.unwrap_err(), "signal b does not exist");
    let own = CompoundSystem::new(vec![define(tf_block(&[2.0], &[1.0]), "a", &["a"])]);
    assert_eq!(own.unwrap_err(), "signal a does not exist");
    let later = CompoundSystem::new(vec![
        define(SystemBlock::Difference, "e", &["u", "y"]),
        define(tf_block(&[2.0], &[1.0]), "y", &["e"]),
    ]);
    assert_eq!(later.unwrap_err(), "signal y does not exist");
    let first_fault_wins = CompoundSystem::new(vec![
        define(tf_block(&[2.0], &[1.0]), "a", &["x", "y"]),
        define(tf_block(&[2.0], &[1.0]), "a", &["u"]),
    ]);
    assert_eq!(first_fault_wins.unwrap_err(), "signal x does not exist");
}

#[test]
fn first_order_step_response() {
    let out = response(vec![define(tf_block(&[1.0], &[1.0, -0.5]), "", &["u"])]);
    assert_eq!(out.len(), STEPS + 1);
    assert_eq!(out.len(), 36);
    assert_eq!(&out[..4], &[1.0, 1.5, 1.75, 1.875]);
    assert!((out[35] - 2.0).abs() <= 2.0 * 0.5f64.powi(35));
}

#[test]
fn a_gain_gives_a_constant_response() {
    for k in [0.0, 1.0, -2.5, 7.0] {
        let out = response(vec![define(tf_block(&[k], &[1.0]), "", &["u"])]);
        assert_eq!(out, vec![k; 36]);
    }
}

#[test]
fn a_delay_moves_the_step_by_one() {
    let out = response(vec![define(tf_block(&[0.0, 1.0], &[1.0, 0.0]), "y", &["u"])]);
    assert_eq!(out[0], 0.0);
    assert_eq!(&out[1..], &vec![1.0; 35][..]);
}

#[test]
fn a_difference_subtracts_in_the_order_written() {
    let forward = response(vec![
        define(tf_block(&[3.0], &[1.0]), "y", &["u"]),
        define(SystemBlock::Difference, "e", &["y", "u"]),
    ]);
    assert_eq!(forward, vec![2.0; 36]);
    let backward = response(vec![
        define(tf_block(&[3.0], &[1.0]), "y", &["u"]),
        define(SystemBlock::Difference, "e", &["u", "y"]),
    ]);
    assert_eq!(backward, vec![-2.0; 36]);
    let same = response(vec![define(SystemBlock::Difference, "e", &["u", "u"])]);
    assert_eq!(same, vec![0.0; 36]);
}

#[test]
fn blocks_in_a_chain() {
    let out = response(vec![
        define(tf_block(&[1.0], &[1.0, -0.5]), "a", &["u"]),
        define(tf_block(&[0.0, 1.0], &[1.0, 0.0]), "b", &["a"]),
        define(tf_block(&[2.0], &[1.0]), "c", &["b"]),
    ]);
    assert_eq!(&out[..5], &[0.0, 2.0, 3.0, 3.5, 3.75]);
}

#[test]
fn the_response_is_the_same_every_time() {
    let definitions = || {
        vec![
            define(tf_block(&[1.0, 0.3], &[1.0, -0.5, 0.1]), "a", &["u"]),
            define(SystemBlock::Difference, "e", &["u", "a"]),
        ]
    };
    let first = response(definitions());
    let second = response(definitions());
    let bits = |v: &Vec<f64>| v.iter().map(|x| x.to_bits()).collect::<Vec<u64>>();
    assert_eq!(bits(&first), bits(&second));
}

#[test]
fn an_empty_system_puts_out_its_input() {
    assert_eq!(response(vec![]), vec![1.0; 36]);
}

#[test]
fn planning_fails_where_a_block_cannot_run() {
    let no_model = CompoundSystem::new(vec![define(tf_block(&[1.0], &[0.0, 1.0]), "y", &["u"])]).unwrap();
    assert!(Simulation::new(&no_model).is_none());
    let three = CompoundSystem::new(vec![define(SystemBlock::Difference, "e", &["u", "u", "u"])]).unwrap();
    assert!(Simulation::new(&three).is_none());
    let none = CompoundSystem::new(vec![define(tf_block(&[1.0], &[1.0]), "y", &[])]).unwrap();
    assert!(Simulation::new(&none).is_none());
    let too_narrow = CompoundSystem::new(vec![define(SystemBlock::Difference, "e", &["u"])]).unwrap();
    assert!(Simulation::new(&too_narrow).is_none());
    let wide = DiscreteStateSpaceModel::new(matrix(&[], 0), matrix(&[], 1), matrix(&[&[], &[]], 0), matrix(&[&[1.0], &[1.0]], 1));
    let two_wide = CompoundSystem::new(vec![
        define(SystemBlock::StateSpace(Rc::new(wide)), "w", &["u"]),
        define(SystemBlock::Difference, "e", &["w", "u"]),
    ])
    .unwrap();
    assert!(Simulation::new(&two_wide).is_none());
    let ahead = CompoundSystem {
        components: vec![CompoundSystemComponent {
            block: tf_block(&[1.0], &[1.0]),
            name: "y".to_string(),
            reads_input_from: vec![Signal::ComponentOutput(0)],
        }],
    };
    assert!(Simulation::new(&ahead).is_none());
}

#[test]
fn a_block_without_output_leaves_the_output_to_the_one_before() {
    let sink = DiscreteStateSpaceModel::new(matrix(&[&[0.5]], 1), matrix(&[&[1.0]], 1), matrix(&[], 1), matrix(&[], 1));
    let out = response(vec![
        define(tf_block(&[4.0], &[1.0]), "y", &["u"]),
        define(SystemBlock::StateSpace(Rc::new(sink)), "s", &["y"]),
    ]);
    assert_eq!(out, vec![4.0; 36]);
}
