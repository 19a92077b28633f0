use encephalon::error::ErrorKind;
use encephalon::tensor::Tensor;

fn t(rows: Vec<Vec<i64>>) -> Tensor<i64> {
    Tensor::new(rows).unwrap()
}

#[test]
fn tensor_constructor() {
    let my_tensor: Vec<Vec<i64>> = vec![vec![1, 2, 3]];

    let mat_res = Tensor::new(my_tensor);

    assert!(mat_res.is_ok(), "Problem in tensor constructor.");
}

#[test]
fn tensor_transpose() {
    let my_tensor: Vec<Vec<i64>> = vec![vec![1, 2, 3], vec![4, 5, 6], vec![7, 8, 9]];

    let mat = Tensor::new(my_tensor).unwrap();

    let transpose: Vec<Vec<i64>> = vec![vec![1, 4, 7], vec![2, 5, 8], vec![3, 6, 9]];

    assert_eq!(mat.transpose().mat, transpose);
}

#[test]
fn tensor_display() {
    let my_tensor: Vec<Vec<i64>> = vec![vec![1, 2, 3], vec![4, 5, 6]];

    let mat = Tensor::new(my_tensor).unwrap();

    let mat_str = String::from("Tensor(2x3) [ [ 1 2 3 ] [ 4 5 6 ] ]");

    assert_eq!(mat_str, mat.to_string());
}

#[test]
fn tensor_add() {
    let mat_1 = Tensor::new(vec![vec![1, 2, 3]]).unwrap();
    let mat_2 = Tensor::new(vec![vec![4, 5, 6]]).unwrap();

    assert_eq!(mat_1.add(&mat_2).unwrap().mat, vec![vec![5, 7, 9]]);
}

#[test]
fn tensor_sub() {
    let mat_1 = Tensor::new(vec![vec![1, 2, 3]]).unwrap();
    let mat_2 = Tensor::new(vec![vec![4, 5, 6]]).unwrap();

    assert_eq!(mat_1.sub(&mat_2).unwrap().mat, vec![vec![-3, -3, -3]]);
}

#[test]
fn tensor_mult() {
    let mat_1 = Tensor::new(vec![vec![1, 2, 3], vec![1, 2, 3]]).unwrap();
    let mat_2 = Tensor::new(vec![vec![1, 2, 3], vec![1, 2, 3], vec![1, 2, 3]]).unwrap();

    assert_eq!(mat_1.mult(&mat_2).unwrap().mat, vec![vec![6, 12, 18], vec![6, 12, 18]]);
}

#[test]
fn constructor_rejects_empty_row_list() {
    let e = Tensor::<i64>::new(vec![]).unwrap_err();
    assert_eq!(e.kind, ErrorKind::Shape);
}

#[test]
fn constructor_rejects_empty_first_row() {
    let e = Tensor::<i64>::new(vec![vec![], vec![1]]).unwrap_err();
    assert_eq!(e.kind, ErrorKind::Shape);
}

#[test]
fn constructor_rejects_ragged_rows() {
    let e = Tensor::new(vec![vec![1, 2], vec![3]]).unwrap_err();
    assert_eq!(e.kind, ErrorKind::Shape);
    let e = Tensor::new(vec![vec![1], vec![2, 3]]).unwrap_err();
    assert_eq!(e.kind, ErrorKind::Shape);
}

#[test]
fn zeros_shape_and_errors() {
    let z = Tensor::zeros(2, 3).unwrap();
    assert_eq!(z.mat, vec![vec![0, 0, 0], vec![0, 0, 0]]);
    assert_eq!(Tensor::zeros(0, 3).unwrap_err().kind, ErrorKind::Shape);
    assert_eq!(Tensor::zeros(3, 0).unwrap_err().kind, ErrorKind::Shape);
}

#[test]
fn rows_and_cols_follow_one_convention() {
    let m = t(vec![vec![1, 2, 3], vec![4, 5, 6]]);
    assert_eq!(m.rows(), 2);
    assert_eq!(m.cols(), 3);
    let tr = m.transpose();
    assert_eq!(tr.rows(), 3);
    assert_eq!(tr.cols(), 2);
}

#[test]
fn transpose_twice_is_identity() {
    let m = t(vec![vec![1, 2, 3], vec![4, 5, 6]]);
    assert!(m.transpose().transpose() == m);
}

#[test]
fn add_commutes_and_sub_negates() {
    let a = t(vec![vec![1, -2], vec![7, 0]]);
    let b = t(vec![vec![5, 9], vec![-3, 4]]);
    assert!(a.add(&b).unwrap() == b.add(&a).unwrap());
    let ab = a.sub(&b).unwrap();
    let ba = b.sub(&a).unwrap();
    assert!(ab == ba.mult_scalar(-1).unwrap());
    assert_eq!(ab.mat, vec![vec![-4, -11], vec![10, -4]]);
}

#[test]
fn shape_mismatch_errors() {
    let a = t(vec![vec![1, 2, 3]]);
    let b = t(vec![vec![1, 2]]);
    assert_eq!(a.add(&b).unwrap_err().kind, ErrorKind::Shape);
    assert_eq!(a.sub(&b).unwrap_err().kind, ErrorKind::Shape);
    assert_eq!(a.mult_elemwise(&b).unwrap_err().kind, ErrorKind::Shape);
    assert_eq!(a.mult(&b).unwrap_err().kind, ErrorKind::Shape);
}

#[test]
fn multiply_is_associative_on_example() {
    let a = t(vec![vec![1, 2], vec![3, 4], vec![-1, 0]]);
    let b = t(vec![vec![2, 0, 1], vec![-1, 3, 5]]);
    let c = t(vec![vec![1], vec![4], vec![-2]]);
    let left = a.mult(&b).unwrap().mult(&c).unwrap();
    let right = a.mult(&b.mult(&c).unwrap()).unwrap();
    assert!(left == right);
    assert_eq!(left.mat, vec![vec![2], vec![4], vec![0]]);
}

#[test]
fn product_shape() {
    let a = t(vec![vec![1, 2, 3]]);
    let b = t(vec![vec![1], vec![2], vec![3]]);
    assert_eq!(a.mult(&b).unwrap().mat, vec![vec![14]]);
    assert_eq!(b.mult(&a).unwrap().mat, vec![vec![1, 2, 3], vec![2, 4, 6], vec![3, 6, 9]]);
}

#[test]
fn elementwise_and_scalar_products() {
    let a = t(vec![vec![1, 2], vec![3, 4]]);
    let b = t(vec![vec![5, 6], vec![7, 8]]);
    assert_eq!(a.mult_elemwise(&b).unwrap().mat, vec![vec![5, 12], vec![21, 32]]);
    assert_eq!(a.mult_scalar(3).unwrap().mat, vec![vec![3, 6], vec![9, 12]]);
}

#[test]
fn overflow_is_reported() {
    let big = t(vec![vec![i64::MAX, 1]]);
    let one = t(vec![vec![1, 1]]);
    assert_eq!(big.add(&one).unwrap_err().kind, ErrorKind::Overflow);
    assert_eq!(big.mult_scalar(2).unwrap_err().kind, ErrorKind::Overflow);
    let col = t(vec![vec![1], vec![1]]);
    assert_eq!(big.mult(&col).unwrap_err().kind, ErrorKind::Overflow);
    let min = t(vec![vec![i64::MIN]]);
    assert_eq!(min.mult_scalar(-1).unwrap_err().kind, ErrorKind::Overflow);
    assert_eq!(min.sub(&t(vec![vec![1]])).unwrap_err().kind, ErrorKind::Overflow);
}

#[test]
fn insert_cols_front_prepends_bias() {
    let m = t(vec![vec![3, 4], vec![5, 6]]);
    let p = m.insert_cols_front(vec![1]);
    assert_eq!(p.mat, vec![vec![1, 3, 4], vec![1, 5, 6]]);
    assert_eq!(p.cols(), 3);
    let q = m.insert_cols_front(vec![7, 8]);
    assert_eq!(q.mat, vec![vec![7, 8, 3, 4], vec![7, 8, 5, 6]]);
}

#[test]
fn clone_is_deep() {
    let m = t(vec![vec![1, 2]]);
    let mut c = m.clone();
    c.mat[0][0] = 9;
    assert_eq!(m.mat, vec![vec![1, 2]]);
    assert_eq!(c.mat, vec![vec![9, 2]]);
}

#[test]
fn select_rows_copies_a_range() {
    let m = t(vec![vec![1], vec![2], vec![3], vec![4]]);
    assert_eq!(m.select_rows(1, 3).mat, vec![vec![2], vec![3]]);
    assert_eq!(m.select_rows(3, 4).mat, vec![vec![4]]);
}

#[test]
fn equality_is_exact() {
    let a = t(vec![vec![1, 2], vec![3, 4]]);
    assert!(a == t(vec![vec![1, 2], vec![3, 4]]));
    assert!(a != t(vec![vec![1, 2], vec![3, 5]]));
    assert!(a != t(vec![vec![1, 2]]));
    assert!(a != t(vec![vec![1, 2, 3], vec![3, 4, 5]]));
}

#[test]
fn display_of_negative_and_large_values() {
    let m = t(vec![vec![-12, 0], vec![105, i64::MIN]]);
    assert_eq!(m.to_string(), "Tensor(2x2) [ [ -12 0 ] [ 105 -9223372036854775808 ] ]");
}
