use lantern::autograd::Autograd;
use lantern::dtype::Shape;
use lantern::graph::Graph;
use lantern::nten2d::matmul;
use lantern::nten2d::Nten2d;
use lantern::storage::Storage;
use lantern::tensor::Tensor;
use lantern::tensor2d::Tensor2d;

fn cells(t: &Tensor) -> Vec<i64> {
    match &t.storage {
        Storage::Dense(d) => d.body.clone(),
        _ => panic!("expected dense cells"),
    }
}

#[test]
fn matmul_forward_and_gradients() {
    let mut g = Graph::new();
    let mut ag = Autograd::new();

    let input_val: Tensor2d<2, 2> = Tensor2d::new_from_martix([[1, 2], [3, 4]]);
    let input = Nten2d::new_from_val(&mut g, input_val)
        .name("input")
        .as_input(&mut ag.ctx.varstore);

    let parameter_val: Tensor2d<2, 3> = Tensor2d::new_from_martix([[1, 2, 3], [3, 4, 5]]);
    let parameter = Nten2d::new_from_val(&mut g, parameter_val)
        .name("parameter")
        .as_parameter(&mut ag.ctx.varstore);

    let out = matmul(&mut g, &input, &parameter);
    let mut results = ag.step_forward(&g, vec![out.to_untyped()]).unwrap();
    assert_eq!(results.len(), 1);
    assert_eq!(
        cells(results[0].val.as_ref().unwrap()),
        vec![7, 10, 13, 15, 22, 29]
    );

    let mut sink = results.remove(0);
    sink.grad = Some(Tensor::new_ones(Shape::D2(2, 3)));
    ag.backward(&g, &sink).unwrap();

    let dparam = ag.ctx.get_grad(&parameter.id).unwrap();
    assert_eq!(cells(&dparam), vec![4, 4, 4, 6, 6, 6]);
    let dinput = ag.ctx.get_grad(&input.id).unwrap();
    assert_eq!(cells(&dinput), vec![6, 12, 6, 12]);
}

#[test]
fn shared_operand_accumulates_both_contributions() {
    // y = a + a: the gradient of a must be the sum of two
    // contributions, not one copy
    let mut g = Graph::new();
    let mut ag = Autograd::new();

    let a_val: Tensor2d<1, 1> = Tensor2d::new_from_martix([[1]]);
    let a = Nten2d::new_from_val(&mut g, a_val).as_parameter(&mut ag.ctx.varstore);
    let y = a.add(&mut g, &a);

    let mut results = ag.step_forward(&g, vec![y.to_untyped()]).unwrap();
    assert_eq!(cells(results[0].val.as_ref().unwrap()), vec![2]);

    let mut sink = results.remove(0);
    sink.grad = Some(Tensor::new_from_vec(vec![1], Shape::D2(1, 1)).unwrap());
    ag.backward(&g, &sink).unwrap();

    let da = ag.ctx.get_grad(&a.id).unwrap();
    assert_eq!(cells(&da), vec![2]);
}

#[test]
fn repeated_forward_runs_nothing_new() {
    let mut g = Graph::new();
    let mut ag = Autograd::new();

    let a_val: Tensor2d<1, 2> = Tensor2d::new_from_martix([[5, 6]]);
    let b_val: Tensor2d<1, 2> = Tensor2d::new_from_martix([[7, 8]]);
    let a = Nten2d::new_from_val(&mut g, a_val).as_input(&mut ag.ctx.varstore);
    let b = Nten2d::new_from_val(&mut g, b_val).as_input(&mut ag.ctx.varstore);
    let y = a.add(&mut g, &b);

    let sink = y.to_untyped();
    let first = ag.step_forward(&g, vec![sink.clone()]).unwrap();
    assert_eq!(cells(first[0].val.as_ref().unwrap()), vec![12, 14]);
    let len_after_first = ag.tape_len();

    // same sinks again, no graph growth: zero additional executions
    let second = ag.step_forward(&g, vec![sink]).unwrap();
    assert_eq!(ag.tape_len(), len_after_first);
    assert_eq!(cells(second[0].val.as_ref().unwrap()), vec![12, 14]);
}

#[test]
fn diamond_dependency_executes_shared_ancestor_once() {
    // two paths from one shared ancestor meet in one sink
    let mut g = Graph::new();
    let mut ag = Autograd::new();

    let a_val: Tensor2d<1, 2> = Tensor2d::new_from_martix([[-3, 4]]);
    let a = Nten2d::new_from_val(&mut g, a_val).as_input(&mut ag.ctx.varstore);
    let left = a.relu(&mut g);
    let right = a.relu(&mut g);
    let y = left.add(&mut g, &right);

    let results = ag.step_forward(&g, vec![y.to_untyped()]).unwrap();
    assert_eq!(cells(results[0].val.as_ref().unwrap()), vec![0, 8]);

    // the tape holds the leaf, the two relus and the add exactly once
    assert_eq!(ag.tape_len(), 4);
}

#[test]
fn zero_grad_purges_ephemerals_and_clears_parameter_gradients() {
    let mut g = Graph::new();
    let mut ag = Autograd::new();

    let p_val: Tensor2d<1, 1> = Tensor2d::new_from_martix([[9]]);
    let p = Nten2d::new_from_val(&mut g, p_val).as_parameter(&mut ag.ctx.varstore);
    let x_val: Tensor2d<1, 1> = Tensor2d::new_from_martix([[2]]);
    let x = Nten2d::new_from_val(&mut g, x_val).as_input(&mut ag.ctx.varstore);
    let y = p.add(&mut g, &x);
    let y_id = y.id;

    let mut results = ag.step_forward(&g, vec![y.to_untyped()]).unwrap();
    let mut sink = results.remove(0);
    sink.grad = Some(Tensor::new_ones(Shape::D2(1, 1)));
    ag.backward(&g, &sink).unwrap();
    assert_eq!(cells(&ag.ctx.get_grad(&p.id).unwrap()), vec![1]);

    ag.zero_grad();

    // the parameter survives with its value, its gradient is cleared
    let kept = ag.ctx.get_val(&p.id).unwrap();
    assert_eq!(cells(&kept), vec![9]);
    assert!(ag.ctx.get_grad(&p.id).is_err());
    // the ephemeral input and the op output are gone
    assert!(ag.ctx.get_val(&x.id).is_err());
    assert!(ag.ctx.get_val(&y_id).is_err());
    // the tape is reset
    assert_eq!(ag.tape_len(), 0);
}

#[test]
fn relu_forward_masks_and_backward_zeroes_masked_entries() {
    let mut g = Graph::new();
    let mut ag = Autograd::new();

    let x_val: Tensor2d<2, 2> = Tensor2d::new_from_martix([[-1, 5], [0, -7]]);
    let x = Nten2d::new_from_val(&mut g, x_val).as_input(&mut ag.ctx.varstore);
    let y = x.relu(&mut g);

    let mut results = ag.step_forward(&g, vec![y.to_untyped()]).unwrap();
    assert_eq!(cells(results[0].val.as_ref().unwrap()), vec![0, 5, 0, 0]);

    let mut sink = results.remove(0);
    sink.grad = Some(Tensor::new_from_vec(vec![1, 2, 3, 4], Shape::D2(2, 2)).unwrap());
    ag.backward(&g, &sink).unwrap();

    // entries negative before the op pass nothing; zero passes
    let dx = ag.ctx.get_grad(&x.id).unwrap();
    assert_eq!(cells(&dx), vec![0, 2, 3, 0]);
}

#[test]
fn add_broadcast_bias_gradient_is_column_sum() {
    let mut g = Graph::new();
    let mut ag = Autograd::new();

    let w_val: Tensor2d<2, 3> = Tensor2d::new_from_martix([[1, 1, 1], [1, 1, 1]]);
    let w = Nten2d::new_from_val(&mut g, w_val).as_parameter(&mut ag.ctx.varstore);
    let b_val: Tensor2d<1, 3> = Tensor2d::new_from_martix([[10, 20, 30]]);
    let b = Nten2d::new_from_val(&mut g, b_val).as_parameter(&mut ag.ctx.varstore);
    let y = w.add_broadcast(&mut g, &b);

    let mut results = ag.step_forward(&g, vec![y.to_untyped()]).unwrap();
    assert_eq!(
        cells(results[0].val.as_ref().unwrap()),
        vec![11, 21, 31, 11, 21, 31]
    );

    let mut sink = results.remove(0);
    sink.grad = Some(Tensor::new_from_vec(vec![1, 2, 3, 4, 5, 6], Shape::D2(2, 3)).unwrap());
    ag.backward(&g, &sink).unwrap();

    // the weight takes the output gradient as it is; the bias takes
    // the column-wise sums over both rows
    assert_eq!(cells(&ag.ctx.get_grad(&w.id).unwrap()), vec![1, 2, 3, 4, 5, 6]);
    assert_eq!(cells(&ag.ctx.get_grad(&b.id).unwrap()), vec![5, 7, 9]);
}

#[test]
fn growing_the_graph_extends_the_tape_incrementally() {
    let mut g = Graph::new();
    let mut ag = Autograd::new();

    let a_val: Tensor2d<1, 1> = Tensor2d::new_from_martix([[3]]);
    let a = Nten2d::new_from_val(&mut g, a_val).as_input(&mut ag.ctx.varstore);
    let y = a.relu(&mut g);
    let z = y.relu(&mut g);
    let _ = ag.step_forward(&g, vec![y.to_untyped()]).unwrap();
    let len1 = ag.tape_len();

    // the second stage sits on top of the executed prefix
    let results = ag.step_forward(&g, vec![z.to_untyped()]).unwrap();
    assert_eq!(cells(results[0].val.as_ref().unwrap()), vec![3]);
    // only the one new edge was appended
    assert_eq!(ag.tape_len(), len1 + 1);
}
