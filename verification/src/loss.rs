//! Loss functions measure how good a prediction is against the target.

use vstd::prelude::*;
use crate::tensor::{lemma_sum_of_identity, lemma_sum_push, same_shape, sum_ok, Ops, Tensor};

verus! {

/// Squared-error loss: the sum over all cells of the squared difference
/// between prediction and target, and its gradient `2 * (prediction - actual)`.
#[derive(Debug, Copy, Clone, PartialEq)]
pub struct MeanSquared;

/// `diffs` subtracts `act` from `pred` cell for cell, `sqs` squares each
/// difference, and `total` sums the squares from the additive identity.
pub open spec fn squared_error_witness<
    T: Copy, A: Fn(T, T) -> T, S: Fn(T, T) -> T, M: Fn(T, T) -> T,
>(
    ops: Ops<T, A, S, M>, pred: Tensor<T>, act: Tensor<T>,
    diffs: Seq<T>, sqs: Seq<T>, total: T,
) -> bool {
    &&& diffs.len() == pred.data@.len()
    &&& sqs.len() == pred.data@.len()
    &&& forall|i: int| 0 <= i < diffs.len()
        ==> call_ensures(ops.sub_fn, (pred.data@[i], act.data@[i]), #[trigger] diffs[i])
    &&& forall|i: int| 0 <= i < sqs.len()
        ==> call_ensures(ops.mul_fn, (diffs[i], diffs[i]), #[trigger] sqs[i])
    &&& sum_ok(ops.add_fn, ops.zero, sqs, total)
}

/// `total` is the sum over all cells of the squared difference between
/// `pred` and `act`, under the supplied arithmetic.
pub open spec fn squared_error_ok<
    T: Copy, A: Fn(T, T) -> T, S: Fn(T, T) -> T, M: Fn(T, T) -> T,
>(
    ops: Ops<T, A, S, M>, pred: Tensor<T>, act: Tensor<T>, total: T,
) -> bool {
    exists|diffs: Seq<T>, sqs: Seq<T>|
        squared_error_witness(ops, pred, act, diffs, sqs, total)
}

/// `g` doubles the difference `p - a` through the supplied arithmetic.
pub open spec fn grad_cell_ok<
    T: Copy, A: Fn(T, T) -> T, S: Fn(T, T) -> T, M: Fn(T, T) -> T,
>(
    ops: Ops<T, A, S, M>, two: T, p: T, a: T, g: T,
) -> bool {
    exists|d: T|
        #[trigger] call_ensures(ops.sub_fn, (p, a), d)
        && call_ensures(ops.mul_fn, (two, d), g)
}

/// `g` is `2 * (pred - act)` cell for cell: the gradient of the
/// squared-error loss with respect to the prediction.
pub open spec fn loss_gradient_ok<
    T: Copy, A: Fn(T, T) -> T, S: Fn(T, T) -> T, M: Fn(T, T) -> T,
>(
    ops: Ops<T, A, S, M>, two: T, pred: Tensor<T>, act: Tensor<T>, g: Tensor<T>,
) -> bool {
    &&& g.wf()
    &&& same_shape(g, pred)
    &&& forall|i: int| 0 <= i < pred.data@.len()
        ==> grad_cell_ok(ops, two, pred.data@[i], act.data@[i], #[trigger] g.data@[i])
}

impl MeanSquared {
    /// The scalar error measure: the sum over all cells of the squared
    /// difference between prediction and target. Prediction and target
    /// must share a shape.
    pub fn loss<T: Copy, A: Fn(T, T) -> T, S: Fn(T, T) -> T, M: Fn(T, T) -> T>(
        &self, prediction: &Tensor<T>, actual: &Tensor<T>, ops: &Ops<T, A, S, M>,
    ) -> (r: T)
        requires
            prediction.wf(),
            actual.wf(),
            same_shape(*prediction, *actual),
            ops.total(),
        ensures
            squared_error_ok(*ops, *prediction, *actual, r),
    {
        let mut acc: T = ops.zero;
        let ghost mut diffs: Seq<T> = Seq::empty();
        let ghost mut sqs: Seq<T> = Seq::empty();
        let n: usize = prediction.data.len();
        let mut i: usize = 0;
        while i < n
            invariant
                i <= n,
                n == prediction.data@.len(),
                n == actual.data@.len(),
                ops.total(),
                diffs.len() == i,
                sqs.len() == i,
                forall|k: int| 0 <= k < i
                    ==> call_ensures(ops.sub_fn,
                        (prediction.data@[k], actual.data@[k]), #[trigger] diffs[k]),
                forall|k: int| 0 <= k < i
                    ==> call_ensures(ops.mul_fn, (diffs[k], diffs[k]), #[trigger] sqs[k]),
                sum_ok(ops.add_fn, ops.zero, sqs, acc),
            decreases n - i,
        {
            let d = (ops.sub_fn)(prediction.data[i], actual.data[i]);
            let sq = (ops.mul_fn)(d, d);
            let next_acc = (ops.add_fn)(acc, sq);
            proof {
                lemma_sum_push(ops.add_fn, ops.zero, sqs, acc, sq, next_acc);
                diffs = diffs.push(d);
                sqs = sqs.push(sq);
            }
            acc = next_acc;
            i += 1;
        }
        proof {
            assert(squared_error_witness(*ops, *prediction, *actual, diffs, sqs, acc));
        }
        acc
    }

    /// The gradient of the loss with respect to the prediction:
    /// `two * (prediction - actual)` cell for cell, with the same shape as
    /// the prediction. Pass the scalar that doubles under `ops.mul_fn`.
    pub fn gradient<T: Copy, A: Fn(T, T) -> T, S: Fn(T, T) -> T, M: Fn(T, T) -> T>(
        &self, prediction: &Tensor<T>, actual: &Tensor<T>, two: T, ops: &Ops<T, A, S, M>,
    ) -> (r: Tensor<T>)
        requires
            prediction.wf(),
            actual.wf(),
            same_shape(*prediction, *actual),
            ops.total(),
        ensures
            loss_gradient_ok(*ops, two, *prediction, *actual, r),
    {
        let mut data: Vec<T> = Vec::new();
        let n: usize = prediction.data.len();
        let mut i: usize = 0;
        while i < n
            invariant
                i <= n,
                n == prediction.data@.len(),
                n == actual.data@.len(),
                ops.total(),
                data@.len() == i,
                forall|k: int| 0 <= k < i
                    ==> grad_cell_ok(*ops, two, prediction.data@[k], actual.data@[k],
                        #[trigger] data@[k]),
            decreases n - i,
        {
            let d = (ops.sub_fn)(prediction.data[i], actual.data[i]);
            let v = (ops.mul_fn)(two, d);
            data.push(v);
            proof {
                assert(call_ensures(ops.sub_fn,
                    (prediction.data@[i as int], actual.data@[i as int]), d));
                assert(grad_cell_ok(*ops, two, prediction.data@[i as int],
                    actual.data@[i as int], data@[i as int]));
            }
            i += 1;
        }
        Tensor { data, width: prediction.width, height: prediction.height }
    }
}

/// With the prediction equal to the target, the squared-error loss is the
/// additive identity, whenever the closures subtract a value from itself
/// to the identity, square the identity to itself, and add the identity
/// without effect.
pub proof fn lemma_loss_of_exact_prediction<
    T: Copy, A: Fn(T, T) -> T, S: Fn(T, T) -> T, M: Fn(T, T) -> T,
>(
    ops: Ops<T, A, S, M>, pred: Tensor<T>, r: T,
)
    requires
        squared_error_ok(ops, pred, pred, r),
        forall|x: T, d: T| call_ensures(ops.sub_fn, (x, x), d) ==> d == ops.zero,
        forall|y: T| call_ensures(ops.mul_fn, (ops.zero, ops.zero), y) ==> y == ops.zero,
        forall|x: T, y: T| call_ensures(ops.add_fn, (x, ops.zero), y) ==> y == x,
    ensures
        r == ops.zero,
{
    let (diffs, sqs) = choose|diffs: Seq<T>, sqs: Seq<T>|
        squared_error_witness(ops, pred, pred, diffs, sqs, r);
    assert forall|i: int| 0 <= i < sqs.len() implies sqs[i] == ops.zero by {
        assert(call_ensures(ops.sub_fn, (pred.data@[i], pred.data@[i]), diffs[i]));
        assert(diffs[i] == ops.zero);
        assert(call_ensures(ops.mul_fn, (diffs[i], diffs[i]), sqs[i]));
    }
    lemma_sum_of_identity(ops.add_fn, ops.zero, ops.zero, sqs, r);
}

/// With the prediction equal to the target, the squared-error gradient is
/// the zero tensor of the prediction's shape, whenever the closures
/// subtract a value from itself to the identity and multiply the identity
/// to the identity.
pub proof fn lemma_gradient_of_exact_prediction<
    T: Copy, A: Fn(T, T) -> T, S: Fn(T, T) -> T, M: Fn(T, T) -> T,
>(
    ops: Ops<T, A, S, M>, two: T, pred: Tensor<T>, g: Tensor<T>,
)
    requires
        pred.wf(),
        loss_gradient_ok(ops, two, pred, pred, g),
        forall|x: T, d: T| call_ensures(ops.sub_fn, (x, x), d) ==> d == ops.zero,
        forall|y: T| call_ensures(ops.mul_fn, (two, ops.zero), y) ==> y == ops.zero,
    ensures
        same_shape(g, pred),
        forall|i: int| 0 <= i < g.data@.len() ==> g.data@[i] == ops.zero,
{
    assert forall|i: int| 0 <= i < g.data@.len() implies g.data@[i] == ops.zero by {
        assert(grad_cell_ok(ops, two, pred.data@[i], pred.data@[i], g.data@[i]));
        let d = choose|d: T|
            #[trigger] call_ensures(ops.sub_fn, (pred.data@[i], pred.data@[i]), d)
            && call_ensures(ops.mul_fn, (two, d), g.data@[i]);
        assert(d == ops.zero);
    }
}

} // verus!
