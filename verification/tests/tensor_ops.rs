use lantern::dtype::Shape;
use lantern::errors::EngineError;
use lantern::storage::Storage;
use lantern::tensor::Tensor;
use lantern::tensor2d::matmul;
use lantern::tensor2d::Tensor2d;

fn cells2d<const R: usize, const C: usize>(t: &Tensor2d<R, C>) -> Vec<i64> {
    match &t.storage {
        Storage::Dense(d) => d.body.clone(),
        _ => panic!("expected dense cells"),
    }
}

#[test]
fn typed_add_is_elementwise() {
    let a: Tensor2d<2, 2> = Tensor2d::new_from_martix([[1, 2], [3, 4]]);
    let b: Tensor2d<2, 2> = Tensor2d::new_from_martix([[10, 20], [30, 40]]);
    assert_eq!(cells2d(&a.add(&b)), vec![11, 22, 33, 44]);
}

#[test]
fn typed_matmul_exact_product() {
    let lhs: Tensor2d<2, 2> = Tensor2d::new_from_martix([[1, 2], [3, 4]]);
    let rhs: Tensor2d<2, 3> = Tensor2d::new_from_martix([[1, 2, 3], [3, 4, 5]]);
    let out = matmul(&lhs, &rhs);
    assert_eq!(cells2d(&out), vec![7, 10, 13, 15, 22, 29]);
}

#[test]
fn transpose_swaps_rows_and_columns() {
    let a: Tensor2d<2, 3> = Tensor2d::new_from_martix([[1, 2, 3], [4, 5, 6]]);
    let t = a.transpose();
    assert_eq!(cells2d(&t), vec![1, 4, 2, 5, 3, 6]);
}

#[test]
fn sum_batch_sums_each_column() {
    let a: Tensor2d<3, 2> = Tensor2d::new_from_martix([[1, 2], [3, 4], [5, 6]]);
    let s = a.sum_batch();
    assert_eq!(cells2d(&s), vec![9, 12]);
}

#[test]
fn add_broadcast_adds_bias_to_every_row() {
    let a: Tensor2d<2, 3> = Tensor2d::new_from_martix([[0, 0, 0], [1, 1, 1]]);
    let bias: Tensor2d<1, 3> = Tensor2d::new_from_martix([[7, 8, 9]]);
    assert_eq!(cells2d(&a.add_broadcast(&bias)), vec![7, 8, 9, 8, 9, 10]);
}

#[test]
fn select_and_replace_follow_the_mask() {
    let a: Tensor2d<1, 4> = Tensor2d::new_from_martix([[-2, 0, 3, -5]]);
    let below = a.select_smaller_than(0);
    assert_eq!(below.count_true(), 2);
    let replaced = a.replace_scalar_where(&below, 0);
    assert_eq!(cells2d(&replaced), vec![0, 0, 3, 0]);

    let above = a.select_larger_than(0);
    assert_eq!(above.count_true(), 1);
    let kept = a.replace_scalar_where(&above, 100);
    assert_eq!(cells2d(&kept), vec![-2, 0, 100, -5]);
}

#[test]
fn constructors_fill_every_cell() {
    let z: Tensor2d<2, 3> = Tensor2d::new_zeros();
    assert_eq!(cells2d(&z), vec![0; 6]);
    let o: Tensor2d<2, 3> = Tensor2d::new_ones();
    assert_eq!(cells2d(&o), vec![1; 6]);
    let t: Tensor2d<2, 2> = Tensor2d::new_tures();
    assert_eq!(t.count_true(), 4);
    let f: Tensor2d<2, 2> = Tensor2d::new_falses();
    assert_eq!(f.count_true(), 0);
}

#[test]
fn new_from_vec_checks_the_length() {
    let ok: Result<Tensor2d<2, 2>, EngineError> = Tensor2d::new_from_vec(vec![1, 2, 3, 4]);
    assert_eq!(cells2d(&ok.unwrap()), vec![1, 2, 3, 4]);

    let bad: Result<Tensor2d<2, 2>, EngineError> = Tensor2d::new_from_vec(vec![1, 2, 3]);
    assert_eq!(
        bad.unwrap_err(),
        EngineError::ShapeMismatch { expected: Shape::D2(2, 2), found: Shape::D1(3) }
    );
}

#[test]
fn new_uniform_stays_inside_the_range() {
    let t: Tensor2d<4, 5> = Tensor2d::new_uniform(-3, 7);
    let body = cells2d(&t);
    assert_eq!(body.len(), 20);
    for v in body {
        assert!((-3..7).contains(&v));
    }
}

#[test]
fn top_index_per_batch_picks_first_greatest() {
    let a: Tensor2d<3, 3> = Tensor2d::new_from_martix([[1, 9, 2], [4, 4, 4], [-5, -7, -1]]);
    assert_eq!(a.top_index_per_batch(), vec![1, 0, 2]);
}

#[test]
fn shape_round_trip_is_lossless_when_shapes_agree() {
    let t: Tensor2d<2, 3> = Tensor2d::new_from_martix([[1, 2, 3], [4, 5, 6]]);
    let u = t.to_untyped();
    assert_eq!(u.shape, Shape::D2(2, 3));
    let back: Tensor2d<2, 3> = u.to_typed2d().unwrap();
    assert_eq!(cells2d(&back), vec![1, 2, 3, 4, 5, 6]);
}

#[test]
fn shape_round_trip_rejects_other_shapes() {
    let t: Tensor2d<2, 3> = Tensor2d::new_from_martix([[1, 2, 3], [4, 5, 6]]);
    let u = t.to_untyped();
    let back: Result<Tensor2d<3, 2>, EngineError> = u.to_typed2d();
    assert_eq!(
        back.unwrap_err(),
        EngineError::ShapeMismatch { expected: Shape::D2(3, 2), found: Shape::D2(2, 3) }
    );
}

#[test]
fn untyped_add_rejects_unequal_shapes() {
    let a = Tensor::new_from_vec(vec![1, 2], Shape::D2(1, 2)).unwrap();
    let b = Tensor::new_from_vec(vec![1, 2], Shape::D2(2, 1)).unwrap();
    assert_eq!(
        a.add(&b).unwrap_err(),
        EngineError::ShapeMismatch { expected: Shape::D2(1, 2), found: Shape::D2(2, 1) }
    );
}

#[test]
fn untyped_tensor_helpers() {
    let ones = Tensor::new_ones(Shape::D2(2, 2));
    match &ones.storage {
        Storage::Dense(d) => assert_eq!(d.body, vec![1, 1, 1, 1]),
        _ => panic!("expected dense cells"),
    }

    let summed = ones.add_batch();
    assert_eq!(summed.shape, Shape::D1(2));
    match &summed.storage {
        Storage::Dense(d) => assert_eq!(d.body, vec![2, 2]),
        _ => panic!("expected dense cells"),
    }

    let scaled = ones.mul_scalar(-4);
    match &scaled.storage {
        Storage::Dense(d) => assert_eq!(d.body, vec![-4, -4, -4, -4]),
        _ => panic!("expected dense cells"),
    }

    let bad = Tensor::new_from_vec(vec![1, 2, 3], Shape::D2(2, 2));
    assert_eq!(
        bad.unwrap_err(),
        EngineError::ShapeMismatch { expected: Shape::D2(2, 2), found: Shape::D1(3) }
    );
}

#[test]
fn wrapping_addition_on_overflow() {
    let a: Tensor2d<1, 1> = Tensor2d::new_from_martix([[i64::MAX]]);
    let b: Tensor2d<1, 1> = Tensor2d::new_from_martix([[1]]);
    assert_eq!(cells2d(&a.add(&b)), vec![i64::MIN]);
}

#[test]
fn override_value_replaces_contents() {
    let mut t: Tensor2d<1, 2> = Tensor2d::new_from_martix([[1, 2]]);
    let other: Tensor2d<1, 2> = Tensor2d::new_from_martix([[8, 9]]);
    t.override_value(other);
    assert_eq!(cells2d(&t), vec![8, 9]);
    match t.storage() {
        Storage::Dense(d) => assert_eq!(d.body, vec![8, 9]),
        _ => panic!("expected dense cells"),
    }

    let mut u = Tensor::new_from_vec(vec![1], Shape::D1(1)).unwrap();
    let v = Tensor::new_from_vec(vec![7], Shape::D1(1)).unwrap();
    u.override_value(v);
    match u.storage() {
        Storage::Dense(d) => assert_eq!(d.body, vec![7]),
        _ => panic!("expected dense cells"),
    }
}

#[test]
fn name_builders_rename_only() {
    let t: Tensor2d<1, 1> = Tensor2d::new_from_martix([[3]]).name("weights");
    assert_eq!(t.name, "weights");
    assert_eq!(cells2d(&t), vec![3]);

    let u = Tensor::new_from_vec(vec![3], Shape::D1(1)).unwrap().name("bias");
    assert_eq!(u.name, "bias");
}

#[test]
fn untyped_sub_is_elementwise() {
    let a = Tensor::new_from_vec(vec![10, 20], Shape::D1(2)).unwrap();
    let b = Tensor::new_from_vec(vec![1, 2], Shape::D1(2)).unwrap();
    let d = a.sub(&b).unwrap();
    match &d.storage {
        Storage::Dense(raw) => assert_eq!(raw.body, vec![9, 18]),
        _ => panic!("expected dense cells"),
    }
}

#[test]
fn mul_scalar_wraps_on_overflow() {
    let a = Tensor::new_from_vec(vec![i64::MAX], Shape::D1(1)).unwrap();
    let doubled = a.mul_scalar(2);
    match &doubled.storage {
        Storage::Dense(raw) => assert_eq!(raw.body, vec![-2]),
        _ => panic!("expected dense cells"),
    }
}

#[test]
fn elementwise_add_above_the_thread_threshold() {
    // enough cells that the kernel fans out across the thread pool
    let n: usize = 1_000_001;
    let a = Tensor::new_ones(Shape::D1(n));
    let summed = a.add(&a).unwrap();
    match &summed.storage {
        Storage::Dense(raw) => {
            assert_eq!(raw.body.len(), n);
            assert!(raw.body.iter().all(|&x| x == 2));
        },
        _ => panic!("expected dense cells"),
    }
}

#[test]
fn new_uniform_on_a_single_value_range_is_constant() {
    let t: Tensor2d<3, 3> = Tensor2d::new_uniform(5, 6);
    assert_eq!(cells2d(&t), vec![5; 9]);
}

#[test]
fn add_broadcast_with_zero_columns_is_empty() {
    let a: Tensor2d<2, 0> = Tensor2d::new_zeros();
    let bias: Tensor2d<1, 0> = Tensor2d::new_zeros();
    let out = a.add_broadcast(&bias);
    assert_eq!(cells2d(&out), Vec::<i64>::new());
}

#[test]
fn storage_info_names_the_flavour() {
    let t: Tensor2d<1, 1> = Tensor2d::new_from_martix([[1]]);
    assert_eq!(t.storage.info(), "RawData::Dense");
    let m: Tensor2d<1, 1> = Tensor2d::new_tures();
    assert_eq!(m.storage.info(), "RawData::DenseBool");
    assert_eq!(Tensor::new_empty().storage.info(), "RawData::None");
}

#[test]
fn type_label_renders_the_tag() {
    assert_eq!(Tensor2d::<2, 3>::type_label(), "Tensor2d<2, 3, i64>");
    assert_eq!(Tensor2d::<12, 305>::type_label(), "Tensor2d<12, 305, i64>");
}
