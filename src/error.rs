use vstd::prelude::*;
use vstd::string::StringExecFns;

verus! {

/// The kinds of failure that the library reports.
#[derive(Clone, Copy, Debug, PartialEq, Eq, Structural)]
pub enum ErrorKind {
    /// A malformed matrix, or operands whose shapes do not fit together.
    Shape,
    /// Data whose shape disagrees with what a learner was configured for.
    DimensionMismatch,
    /// Invalid construction or training parameters.
    Configuration,
    /// An integer result that does not fit in an `i64` element.
    Overflow,
}

/// A failure, with its kind and a human-readable message.
#[derive(Debug)]
pub struct EncephalonError {
    pub kind: ErrorKind,
    pub msg: String,
}

impl EncephalonError {
    /// A failure of the given kind, with a copy of `m` as its message.
    pub fn new(kind: ErrorKind, m: &str) -> (r: Self)
        ensures
            r.kind == kind,
            r.msg@ == m@,
    {
        EncephalonError { kind, msg: String::from_str(m) }
    }
}

} // verus!
