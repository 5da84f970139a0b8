use control_playground::arx::{ArxModel, ArxModelStructure};

#[test]
fn regressor_set_construction() {
    let y = vec![10.0, 11.0, 12.0, 13.0];
    let u = vec![20.0, 21.0, 22.0, 23.0];

    let struc = ArxModelStructure { na: 1, nb: 1, nk: 1 };
    assert_eq!(struc.build_regressor_set(&y, &u, 1), vec![10.0, 20.0]);
    assert_eq!(struc.build_regressor_set(&y, &u, 2), vec![11.0, 21.0]);
    let struc = ArxModelStructure { na: 2, nb: 2, nk: 2 };
    assert_eq!(struc.build_regressor_set(&y, &u, 3), vec![12.0, 11.0, 21.0, 20.0]);
}

#[test]
fn parameters_and_delay() {
    let struc = ArxModelStructure { na: 2, nb: 3, nk: 2 };
    assert_eq!(struc.num_params(), 5);
    assert_eq!(struc.maximum_delay(), 4);
    assert_eq!(ArxModelStructure { na: 5, nb: 3, nk: 2 }.maximum_delay(), 5);
    assert_eq!(ArxModelStructure { na: 2, nb: 0, nk: 9 }.maximum_delay(), 2);
    assert_eq!(ArxModelStructure { na: 0, nb: 1, nk: 0 }.maximum_delay(), 0);
    assert_eq!(ArxModelStructure { na: 0, nb: 0, nk: 0 }.num_params(), 0);
}

#[test]
fn regressors_of_every_sample() {
    let y = vec![16, 18, 24, 27];
    let u = vec![20, 30, 31, 32];
    let struc = ArxModelStructure { na: 1, nb: 1, nk: 1 };
    assert_eq!(struc.regressor_matrix(&y, &u), vec![vec![16, 20], vec![18, 30], vec![24, 31]]);
    let struc = ArxModelStructure { na: 0, nb: 2, nk: 0 };
    assert_eq!(struc.regressor_matrix(&y, &u), vec![vec![30, 20], vec![31, 30], vec![32, 31]]);
    let struc = ArxModelStructure { na: 4, nb: 0, nk: 0 };
    assert_eq!(struc.regressor_matrix(&y, &u), Vec::<Vec<i32>>::new());
}

#[test]
fn a_model_from_its_parameters() {
    let struc = ArxModelStructure { na: 2, nb: 1, nk: 3 };
    assert_eq!(struc.to_model(&vec![0.5, 0.25, 4.0]), ArxModel { a: vec![0.5, 0.25], b: vec![4.0], nk: 3 });
}
