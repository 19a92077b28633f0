use vstd::prelude::*;

use crate::error::{EncephalonError, ErrorKind};
use crate::tensor::{Tensor, cols_of, same_shape, is_grid};

verus! {

/// The weight grid of a learner with `outputs` outputs and `inputs` inputs:
/// one row per output, a bias followed by one weight per input, filled row by
/// row from `draws`.
pub open spec fn weights_of<T>(inputs: nat, outputs: nat, draws: Seq<T>) -> Seq<Seq<T>> {
    Seq::new(outputs, |o: int| draws.subrange(o * (inputs + 1), (o + 1) * (inputs + 1)))
}

/// Initial weights of a learner, taken from injected values (for instance
/// uniform draws in `[0, 1)`). Both sizes must be positive.
pub fn initial_weights<T: Copy>(inputs: usize, outputs: usize, draws: &Vec<T>) -> (r: Result<
    Tensor<T>,
    EncephalonError,
>)
    requires
        draws@.len() == outputs * (inputs + 1),
    ensures
        r is Ok <==> inputs > 0 && outputs > 0,
        r matches Ok(t) ==> t.wf() && t@ == weights_of(inputs as nat, outputs as nat, draws@),
        r matches Err(e) ==> e.kind == ErrorKind::Configuration,
{
    if inputs == 0 || outputs == 0 {
        return Err(EncephalonError::new(ErrorKind::Configuration, "A learner cannot have zero inputs or outputs"));
    }
    let total = draws.len();
    proof {
        assert(inputs + 1 <= outputs * (inputs + 1)) by (nonlinear_arith)
            requires
                outputs >= 1,
        ;
    }
    let width = inputs + 1;
    let ghost want = weights_of(inputs as nat, outputs as nat, draws@);
    let mut mat: Vec<Vec<T>> = Vec::with_capacity(outputs);
    let mut o: usize = 0;
    while o < outputs
        invariant
            width == inputs + 1,
            draws@.len() == outputs * width,
            total == draws@.len(),
            want == weights_of(inputs as nat, outputs as nat, draws@),
            o <= outputs,
            mat@.len() == o,
            forall|k: int| 0 <= k < o ==> #[trigger] mat@[k]@ == want[k],
        decreases outputs - o,
    {
        proof {
            assert((o + 1) * width <= outputs * width) by (nonlinear_arith)
                requires
                    o < outputs,
                    width >= 1,
            ;
            assert((o + 1) * width == o * width + width) by (nonlinear_arith);
        }
        let base = o * width;
        let mut row: Vec<T> = Vec::with_capacity(width);
        let mut j: usize = 0;
        while j < width
            invariant
                base + width <= draws@.len(),
                total == draws@.len(),
                j <= width,
                row@ == draws@.subrange(base as int, base + j),
            decreases width - j,
        {
            row.push(draws[base + j]);
            j += 1;
            assert(row@ =~= draws@.subrange(base as int, base + j));
        }
        assert(row@ == want[o as int]);
        mat.push(row);
        o += 1;
    }
    let t = Tensor { mat };
    assert(t@ =~= want);
    assert(forall|k: int| 0 <= k < t@.len() ==> #[trigger] t@[k].len() == width) by {
        assert forall|k: int| 0 <= k < t@.len() implies #[trigger] t@[k].len() == width by {
            assert((k + 1) * width == k * width + width) by (nonlinear_arith);
            assert((k + 1) * width <= outputs * width) by (nonlinear_arith)
                requires
                    k < outputs,
                    width >= 1,
            ;
        }
    }
    assert(is_grid(t@));
    Ok(t)
}

/// Checks that data has exactly `input_size` columns.
pub fn check_input_width<T: Copy>(data: &Tensor<T>, input_size: usize) -> (r: Result<(), EncephalonError>)
    requires
        data.wf(),
    ensures
        r is Ok <==> cols_of(data@) == input_size,
        r matches Err(e) ==> e.kind == ErrorKind::DimensionMismatch,
{
    if data.cols() != input_size {
        return Err(EncephalonError::new(ErrorKind::DimensionMismatch, "Size of data provided does not match input size"));
    }
    Ok(())
}

/// Checks that predictions and labels have the same shape.
pub fn check_labels<T: Copy>(predicted: &Tensor<T>, actual: &Tensor<T>) -> (r: Result<(), EncephalonError>)
    requires
        predicted.wf(),
        actual.wf(),
    ensures
        r is Ok <==> same_shape(predicted@, actual@),
        r matches Err(e) ==> e.kind == ErrorKind::DimensionMismatch,
{
    if predicted.rows() != actual.rows() || predicted.cols() != actual.cols() {
        return Err(EncephalonError::new(ErrorKind::DimensionMismatch, "Predicted and Label Tensor dimensions do not match"));
    }
    Ok(())
}

} // verus!
