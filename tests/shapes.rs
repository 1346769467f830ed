use ad_bench::shape::{check_mse_shapes, LinearStage, Model, ShapeError};

#[test]
fn init_builds_256_256_2() {
    let m = Model::init();
    assert_eq!(m.l1, LinearStage { d_input: 256, d_output: 256 });
    assert_eq!(m.l2, LinearStage { d_input: 256, d_output: 2 });
}

#[test]
fn forward_shape_maps_input_to_two_outputs() {
    let m = Model::init();
    assert_eq!(m.forward_shape(&vec![256]), Ok(vec![2]));
}

#[test]
fn forward_shape_is_the_same_on_repeated_calls() {
    let m = Model::init();
    let a = m.forward_shape(&vec![256]);
    let b = m.forward_shape(&vec![256]);
    assert_eq!(a, b);
}

#[test]
fn forward_shape_refuses_wrong_width() {
    let m = Model::init();
    assert_eq!(
        m.forward_shape(&vec![255]),
        Err(ShapeError::DimMismatch { expected: 256, found: 255 })
    );
    assert_eq!(
        m.forward_shape(&vec![2]),
        Err(ShapeError::DimMismatch { expected: 256, found: 2 })
    );
}

#[test]
fn forward_shape_refuses_wrong_rank() {
    let m = Model::init();
    assert_eq!(
        m.forward_shape(&vec![1, 256]),
        Err(ShapeError::RankMismatch { expected: 1, found: 2 })
    );
    assert_eq!(
        m.forward_shape(&vec![]),
        Err(ShapeError::RankMismatch { expected: 1, found: 0 })
    );
}

#[test]
fn stage_output_len() {
    let s = LinearStage { d_input: 256, d_output: 2 };
    assert_eq!(s.output_len(256), Ok(2));
    assert_eq!(s.output_len(3), Err(ShapeError::DimMismatch { expected: 256, found: 3 }));
}

#[test]
fn param_shapes_of_the_model() {
    let m = Model::init();
    assert_eq!(
        m.param_shapes(),
        vec![vec![256, 256], vec![256], vec![256, 2], vec![2]]
    );
}

#[test]
fn mse_accepts_equal_shapes() {
    assert_eq!(check_mse_shapes(&vec![2], &vec![2]), Ok(()));
    assert_eq!(check_mse_shapes(&vec![], &vec![]), Ok(()));
    assert_eq!(check_mse_shapes(&vec![3, 4], &vec![3, 4]), Ok(()));
}

#[test]
fn mse_refuses_different_rank() {
    assert_eq!(
        check_mse_shapes(&vec![2], &vec![1, 2]),
        Err(ShapeError::RankMismatch { expected: 2, found: 1 })
    );
}

#[test]
fn mse_refuses_first_different_dimension() {
    assert_eq!(
        check_mse_shapes(&vec![2], &vec![3]),
        Err(ShapeError::DimMismatch { expected: 3, found: 2 })
    );
    assert_eq!(
        check_mse_shapes(&vec![4, 5, 6], &vec![4, 7, 8]),
        Err(ShapeError::DimMismatch { expected: 7, found: 5 })
    );
}
