use lantern::autograd::Autograd;
use lantern::context::Context;
use lantern::datasets::selialize_minst;
use lantern::dtype::Shape;
use lantern::errors::EngineError;
use lantern::fn_edge::DummyFnEdge;
use lantern::fn_edge::FnEdge;
use lantern::fn_edge::FnEdgeID;
use lantern::graph::Graph;
use lantern::graph::IdAlloc;
use lantern::logger::Logger;
use lantern::machine_config::MachineConfig;
use lantern::nten::Nten;
use lantern::nten::NtenID;
use lantern::nten2d::Nten2d;
use lantern::optimizer::Optimizer;
use lantern::optimizer::Sgd;
use lantern::raw_bool::RawBool;
use lantern::storage::Storage;
use lantern::tensor::Tensor;
use lantern::tensor2d::Tensor2d;

#[test]
fn raw_bool_packs_bits() {
    let mut b = RawBool::new();
    assert_eq!(b.len, 0);
    for i in 0..20 {
        b.push(i % 3 == 0);
    }
    assert_eq!(b.len, 20);
    assert_eq!(b.body.len(), 3);
    for i in 0..20usize {
        assert_eq!(b.get(i), i % 3 == 0);
    }

    b.set_bit(1, true);
    assert!(b.get(1));
    b.set_bit(0, false);
    assert!(!b.get(0));
    // the neighbours are untouched
    assert!(b.get(1));
    assert_eq!(b.get(2), false);
    assert_eq!(b.get(3), true);
}

#[test]
fn raw_bool_from_vec_and_iter() {
    let flags = vec![true, false, true, true, false, false, true, false, true];
    let b = RawBool::new_from_vec(flags.clone());
    assert_eq!(b.len, flags.len());
    let mut it = b.iter();
    let mut seen = Vec::new();
    while let Some(flag) = it.next() {
        seen.push(flag);
    }
    assert_eq!(seen, flags);
}

#[test]
fn raw_bool_with_capacity_starts_empty() {
    let b = RawBool::with_capacity(64);
    assert_eq!(b.len, 0);
}

#[test]
fn shape_to_string_renders_decimal() {
    assert_eq!(Shape::D1(0).to_string(), "Shape::D1(0)");
    assert_eq!(Shape::D1(42).to_string(), "Shape::D1(42)");
    assert_eq!(Shape::D2(2, 3).to_string(), "Shape::D2(2, 3)");
    assert_eq!(Shape::D2(120, 7005).to_string(), "Shape::D2(120, 7005)");
}

#[test]
fn shape_element_count() {
    assert_eq!(Shape::D1(5).element_count(), Some(5));
    assert_eq!(Shape::D2(3, 4).element_count(), Some(12));
    assert_eq!(Shape::D2(usize::MAX, 2).element_count(), None);
}

#[test]
fn selialize_minst_flattens_row_major() {
    let mut image = [[0u8; 28]; 28];
    image[0][0] = 1;
    image[0][27] = 2;
    image[1][0] = 3;
    image[27][27] = 4;
    let out = selialize_minst(&vec![image, [[9u8; 28]; 28]]);
    assert_eq!(out.len(), 2);
    assert_eq!(out[0].len(), 784);
    assert_eq!(out[0][0], 1);
    assert_eq!(out[0][27], 2);
    assert_eq!(out[0][28], 3);
    assert_eq!(out[0][783], 4);
    assert!(out[1].iter().all(|&p| p == 9));
}

#[test]
fn context_read_errors() {
    let ctx = Context::new();
    assert_eq!(
        ctx.get_val(&NtenID(77)).unwrap_err(),
        EngineError::NotFound(NtenID(77))
    );
    assert_eq!(
        ctx.get_grad(&NtenID(77)).unwrap_err(),
        EngineError::NotFound(NtenID(77))
    );
    assert_eq!(
        ctx.get_tensor(&NtenID(77)).unwrap_err(),
        EngineError::NotFound(NtenID(77))
    );
}

#[test]
fn context_uninitialized_value_read() {
    let mut ctx = Context::new();
    let bare = Nten {
        id: NtenID(5),
        name: String::from("bare"),
        creator: FnEdgeID(0),
        shape: Shape::D2(1, 1),
        val: None,
        grad: None,
    };
    ctx.varstore.resister_input(bare);
    assert_eq!(
        ctx.get_val(&NtenID(5)).unwrap_err(),
        EngineError::Uninitialized(NtenID(5))
    );
}

#[test]
fn context_insert_val_synthesizes_runtime_nodes() {
    let mut ctx = Context::new();
    let t = Tensor::new_from_vec(vec![4, 5], Shape::D2(1, 2)).unwrap();
    ctx.insert_val(&NtenID(9), t);
    let read = ctx.get_val(&NtenID(9)).unwrap();
    match &read.storage {
        Storage::Dense(d) => assert_eq!(d.body, vec![4, 5]),
        _ => panic!("expected dense cells"),
    }
}

#[test]
fn add_assign_grad_initializes_then_sums() {
    let mut ctx = Context::new();
    let t = Tensor::new_from_vec(vec![0], Shape::D2(1, 1)).unwrap();
    ctx.insert_val(&NtenID(3), t);
    let delta = Tensor::new_from_vec(vec![5], Shape::D2(1, 1)).unwrap();
    ctx.add_assign_grad(&NtenID(3), &delta).unwrap();
    ctx.add_assign_grad(&NtenID(3), &delta).unwrap();
    let grad = ctx.get_grad(&NtenID(3)).unwrap();
    match &grad.storage {
        Storage::Dense(d) => assert_eq!(d.body, vec![10]),
        _ => panic!("expected dense cells"),
    }
}

#[test]
fn sentinel_edges_refuse_to_compute() {
    let mut ctx = Context::new();
    let edge = FnEdge::Dummy(DummyFnEdge::new(FnEdgeID(7)));
    assert_eq!(
        edge.forward(&mut ctx).unwrap_err(),
        EngineError::InvalidEdge(FnEdgeID(7))
    );
    assert_eq!(
        edge.backward(&mut ctx).unwrap_err(),
        EngineError::InvalidEdge(FnEdgeID(7))
    );
}

#[test]
fn forward_on_unregistered_input_is_not_found() {
    let mut g = Graph::new();
    let mut ag = Autograd::new();
    // the leaf is never registered into the store
    let a_val: Tensor2d<1, 1> = Tensor2d::new_from_martix([[1]]);
    let a = Nten2d::new_from_val(&mut g, a_val);
    let y = a.add(&mut g, &a);
    let err = ag.step_forward(&g, vec![y.to_untyped()]).unwrap_err();
    assert_eq!(err, EngineError::NotFound(a.id));
}

#[test]
fn id_allocator_keeps_subspaces_disjoint() {
    let mut alloc = IdAlloc::new();
    let e1 = alloc.allocate_node_id(false);
    let e2 = alloc.allocate_node_id(false);
    let p1 = alloc.allocate_node_id(true);
    let p2 = alloc.allocate_node_id(true);
    assert_eq!(e1, NtenID(1));
    assert_eq!(e2, NtenID(2));
    assert!(p1.0 >= 0x8000_0000);
    assert_eq!(p2.0, p1.0 + 1);
}

#[test]
fn sgd_updates_parameters_in_place() {
    let mut ag = Autograd::new();
    let val: Tensor2d<1, 2> = Tensor2d::new_from_vec(vec![10, -4]).unwrap();
    let mut nten = Nten2d::<1, 2> {
        id: NtenID(0x8000_0001),
        name: String::from("p"),
        creator: FnEdgeID(0),
        val: Some(val),
        grad: None,
    }
    .as_parameter(&mut ag.ctx.varstore);
    nten.grad = None;
    let grad = Tensor::new_from_vec(vec![3, 1], Shape::D2(1, 2)).unwrap();
    ag.ctx.add_assign_grad(&NtenID(0x8000_0001), &grad).unwrap();

    let mut opt = Sgd::new(2);
    opt.update(&mut ag.ctx).unwrap();

    let updated = ag.ctx.get_val(&NtenID(0x8000_0001)).unwrap();
    match &updated.storage {
        Storage::Dense(d) => assert_eq!(d.body, vec![4, -6]),
        _ => panic!("expected dense cells"),
    }
}

#[test]
fn sgd_fails_on_a_parameter_without_gradient() {
    let mut ag = Autograd::new();
    let val: Tensor2d<1, 1> = Tensor2d::new_from_vec(vec![5]).unwrap();
    let _p = Nten2d::<1, 1> {
        id: NtenID(0x8000_0002),
        name: String::from("p"),
        creator: FnEdgeID(0),
        val: Some(val),
        grad: None,
    }
    .as_parameter(&mut ag.ctx.varstore);

    let mut opt = Sgd::new(1);
    assert_eq!(
        opt.update(&mut ag.ctx).unwrap_err(),
        EngineError::Uninitialized(NtenID(0x8000_0002))
    );
    // the parameter's value is untouched by the failed update
    let kept = ag.ctx.get_val(&NtenID(0x8000_0002)).unwrap();
    match &kept.storage {
        Storage::Dense(d) => assert_eq!(d.body, vec![5]),
        _ => panic!("expected dense cells"),
    }
}

#[test]
fn logger_records_in_order() {
    let mut logger = Logger::new();
    logger.debug(String::from("one"));
    logger.warning(String::from("two"));
    logger.error(String::from("three"));
    logger.fatal_error(String::from("four"));
    assert_eq!(logger.entry_count(), 4);
}

#[test]
fn machine_config_defaults() {
    let cfg = MachineConfig::new();
    assert!(cfg.enable_multi_thread);
    assert_eq!(cfg.multi_thread_threshold, 1000000);
    assert!(cfg.thread_num.is_none());
}

#[test]
fn varstore_listing_logs_one_line_per_node() {
    let mut g = Graph::new();
    let mut ag = Autograd::new();
    let a_val: Tensor2d<1, 1> = Tensor2d::new_from_martix([[1]]);
    let _a = Nten2d::new_from_val(&mut g, a_val).as_input(&mut ag.ctx.varstore);
    let b_val: Tensor2d<2, 2> = Tensor2d::new_from_martix([[1, 2], [3, 4]]);
    let _b = Nten2d::new_from_val(&mut g, b_val).as_parameter(&mut ag.ctx.varstore);

    let mut logger = Logger::new();
    ag.ctx.varstore.print_all_contents_id(&mut logger);
    // one heading plus one line per node
    assert_eq!(logger.entry_count(), 3);
}

#[test]
fn nten2d_type_label_renders_the_tag() {
    assert_eq!(Nten2d::<4, 9>::type_label(), "Nten2d<4, 9, i64>");
}

#[test]
fn backward_without_any_tape_is_a_no_op() {
    let g = Graph::new();
    let mut ag = Autograd::new();
    let mut sink = Nten {
        id: NtenID(1),
        name: String::from("sink"),
        creator: FnEdgeID(0),
        shape: Shape::D2(1, 1),
        val: None,
        grad: Some(Tensor::new_ones(Shape::D2(1, 1))),
    };
    sink.val = Some(Tensor::new_ones(Shape::D2(1, 1)));
    ag.backward(&g, &sink).unwrap();
    assert_eq!(ag.tape_len(), 0);
}
