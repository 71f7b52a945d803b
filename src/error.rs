use vstd::prelude::*;
use crate::value::TypeKind;

verus! {

/// What a type check expected to find.
#[derive(Clone, Copy, Debug, PartialEq, Eq, Structural)]
pub enum Expectation {
    /// A future.
    Future,
    /// A tuple or a list of futures.
    TupleOrList,
}

/// One fact about why an operation of the virtual machine failed.
#[derive(Debug)]
pub enum VmErrorKind {
    /// A function was called with the wrong number of arguments.
    BadArgumentCount { actual: usize, expected: usize },
    /// The argument at the given position is invalid.
    BadArgument { index: usize },
    /// A value at the given position did not have the expected type.
    TypeMismatch { index: usize, expected: Expectation, actual: TypeKind },
    /// A value was popped from an empty stack.
    StackUnderflow,
    /// A computation failed with the given reason.
    Panic { reason: String },
}

/// A failure of an operation of the virtual machine, made of one or more
/// facts that are reported together.
#[derive(Debug)]
pub struct VmError {
    pub kinds: Vec<VmErrorKind>,
}

impl VmError {
    /// An error made of a single fact.
    pub fn single(kind: VmErrorKind) -> (r: VmError)
        ensures
            r.kinds@ == seq![kind],
    {
        VmError { kinds: vec![kind] }
    }

    /// An error made of two facts, in the given order.
    pub fn pair(first: VmErrorKind, second: VmErrorKind) -> (r: VmError)
        ensures
            r.kinds@ == seq![first, second],
    {
        let mut kinds: Vec<VmErrorKind> = Vec::new();
        kinds.push(first);
        kinds.push(second);
        proof {
            assert(kinds@ =~= seq![first, second]);
        }
        VmError { kinds }
    }
}

} // verus!
