use encephalon::error::ErrorKind;
use encephalon::gd::GradientDescent;
use encephalon::learner::{check_input_width, check_labels, initial_weights};
use encephalon::tensor::Tensor;

#[test]
fn batch_is_one_group() {
    assert_eq!(GradientDescent::Batch.partition(5).unwrap(), vec![(0, 5)]);
}

#[test]
fn stochastic_is_one_group_per_row() {
    assert_eq!(GradientDescent::Stochastic.partition(3).unwrap(), vec![(0, 1), (1, 2), (2, 3)]);
}

#[test]
fn mini_batch_groups_are_contiguous() {
    assert_eq!(GradientDescent::MiniBatch(2).partition(5).unwrap(), vec![(0, 2), (2, 4), (4, 5)]);
    assert_eq!(GradientDescent::MiniBatch(2).partition(4).unwrap(), vec![(0, 2), (2, 4)]);
    assert_eq!(GradientDescent::MiniBatch(4).partition(4).unwrap(), vec![(0, 4)]);
}

#[test]
fn mini_batch_larger_than_data_fails() {
    let e = GradientDescent::MiniBatch(6).partition(5).unwrap_err();
    assert_eq!(e.kind, ErrorKind::Configuration);
    let e = GradientDescent::MiniBatch(0).partition(5).unwrap_err();
    assert_eq!(e.kind, ErrorKind::Configuration);
}

#[test]
fn weights_have_a_bias_column() {
    let w = initial_weights(2, 2, &vec![1, 2, 3, 4, 5, 6]).unwrap();
    assert_eq!(w.mat, vec![vec![1, 2, 3], vec![4, 5, 6]]);
    let w = initial_weights(1, 1, &vec![7, 8]).unwrap();
    assert_eq!(w.mat, vec![vec![7, 8]]);
}

#[test]
fn zero_sized_learner_fails() {
    let draws: Vec<i64> = vec![];
    assert_eq!(initial_weights(0, 3, &vec![0, 0, 0]).unwrap_err().kind, ErrorKind::Configuration);
    assert_eq!(initial_weights(4, 0, &draws).unwrap_err().kind, ErrorKind::Configuration);
}

#[test]
fn predict_input_width_is_checked() {
    let data = Tensor::new(vec![vec![1, 2, 3], vec![4, 5, 6]]).unwrap();
    assert!(check_input_width(&data, 3).is_ok());
    for width in [0usize, 1, 2, 4, 10] {
        assert_eq!(check_input_width(&data, width).unwrap_err().kind, ErrorKind::DimensionMismatch);
    }
}

#[test]
fn labels_must_match_predictions() {
    let p = Tensor::new(vec![vec![1], vec![2]]).unwrap();
    let a = Tensor::new(vec![vec![1], vec![2]]).unwrap();
    let b = Tensor::new(vec![vec![1, 2]]).unwrap();
    assert!(check_labels(&p, &a).is_ok());
    assert_eq!(check_labels(&p, &b).unwrap_err().kind, ErrorKind::DimensionMismatch);
}
