use vstd::prelude::*;

use crate::error::{EncephalonError, ErrorKind};

verus! {

/// How a training set is split into update groups within one epoch.
#[derive(Clone, Copy, Debug, PartialEq, Eq, Structural)]
pub enum GradientDescent {
    /// One update over the whole set.
    Batch,
    /// One update per row.
    Stochastic,
    /// Contiguous groups of the given size; the last may be shorter.
    MiniBatch(u32),
}

/// Number of groups of size `b` needed to cover `total` rows.
pub open spec fn batch_count(total: nat, b: nat) -> nat
    recommends
        b > 0,
{
    total / b + if total % b == 0 { 0nat } else { 1nat }
}

/// The half-open row ranges `(start, end)` that one epoch updates on, in order.
pub open spec fn batches_of(gd: GradientDescent, total: nat) -> Seq<(int, int)> {
    match gd {
        GradientDescent::Batch => seq![(0, total as int)],
        GradientDescent::Stochastic => Seq::new(total, |i: int| (i, i + 1)),
        GradientDescent::MiniBatch(b) => Seq::new(
            batch_count(total, b as nat),
            |k: int| (k * b, if (k + 1) * b <= total { (k + 1) * b } else { total as int }),
        ),
    }
}

/// Whether a mode can split `total` rows: a mini-batch must be positive and
/// no larger than the set, so that at least one full batch fits.
pub open spec fn accepts(gd: GradientDescent, total: nat) -> bool {
    match gd {
        GradientDescent::MiniBatch(b) => 0 < b <= total,
        _ => true,
    }
}

/// The row ranges as executable values.
pub open spec fn ranges_view(v: Seq<(usize, usize)>) -> Seq<(int, int)> {
    v.map_values(|p: (usize, usize)| (p.0 as int, p.1 as int))
}

impl GradientDescent {
    /// Splits `total` rows into the update groups of one epoch.
    pub fn partition(&self, total: usize) -> (r: Result<Vec<(usize, usize)>, EncephalonError>)
        ensures
            r is Ok <==> accepts(*self, total as nat),
            r matches Ok(v) ==> ranges_view(v@) == batches_of(*self, total as nat),
            r matches Err(e) ==> e.kind == ErrorKind::Configuration,
    {
        let mut out: Vec<(usize, usize)> = Vec::new();
        match *self {
            GradientDescent::Batch => {
                out.push((0, total));
                assert(ranges_view(out@) =~= batches_of(*self, total as nat));
            },
            GradientDescent::Stochastic => {
                let mut i: usize = 0;
                while i < total
                    invariant
                        i <= total,
                        out@.len() == i,
                        forall|t: int| 0 <= t < i ==> #[trigger] out@[t] == (t as usize, (t + 1) as usize),
                    decreases total - i,
                {
                    out.push((i, i + 1));
                    i += 1;
                }
                assert(ranges_view(out@) =~= batches_of(*self, total as nat));
            },
            GradientDescent::MiniBatch(b) => {
                if b == 0 || b as usize > total {
                    return Err(EncephalonError::new(ErrorKind::Configuration, "Cannot split inputs into that many batches"));
                }
                let size = b as usize;
                let mut start: usize = 0;
                let ghost mut k: int = 0;
                while start < total
                    invariant
                        size == b as int,
                        0 < size <= total,
                        0 <= k,
                        start == (if k * size <= total { k * size } else { total as int }),
                        start <= total,
                        out@.len() == k,
                        forall|t: int|
                            0 <= t < k ==> (#[trigger] out@[t]).0 as int == t * size && t * size < total
                                && out@[t].1 as int == (if (t + 1) * size <= total {
                                (t + 1) * size
                            } else {
                                total as int
                            }),
                        k > 0 ==> (k - 1) * size < total,
                    decreases total - start,
                {
                    let end = if total - start >= size { start + size } else { total };
                    proof {
                        assert((k + 1) * size == k * size + size) by (nonlinear_arith);
                    }
                    out.push((start, end));
                    proof {
                        k = k + 1;
                    }
                    start = end;
                }
                proof {
                    let q = total as int / size as int;
                    let r = total as int % size as int;
                    assert(total as int == q * size + r && 0 <= r < size) by (nonlinear_arith)
                        requires
                            size > 0,
                            q == total as int / size as int,
                            r == total as int % size as int,
                    ;
                    assert(total <= k * size);
                    assert(k >= 1) by (nonlinear_arith)
                        requires
                            k * size >= total,
                            total > 0,
                            k >= 0,
                    ;
                    assert(k == batch_count(total as nat, size as nat)) by (nonlinear_arith)
                        requires
                            size > 0,
                            k >= 1,
                            (k - 1) * size < total,
                            total <= k * size,
                            total as int == q * size + r,
                            0 <= r < size,
                            q == total as int / size as int,
                            r == total as int % size as int,
                            batch_count(total as nat, size as nat) == q + (if r == 0 { 0int } else { 1int }),
                    ;
                }
                assert(ranges_view(out@) =~= batches_of(*self, total as nat));
            },
        }
        Ok(out)
    }
}

} // verus!
