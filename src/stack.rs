use vstd::prelude::*;
use crate::error::{VmError, VmErrorKind};
use crate::value::{FutureHandle, Value};

verus! {

/// The stack through which the virtual machine passes arguments to a
/// function and takes its result back.
pub struct Stack {
    values: Vec<Value>,
}

impl View for Stack {
    type V = Seq<Value>;

    closed spec fn view(&self) -> Seq<Value> {
        self.values@
    }
}

/// Whether `v` is a deferred join over `arg`.
pub open spec fn is_join_of(v: Value, arg: Value) -> bool {
    match v {
        Value::Future(FutureHandle::Join(b)) => *b == arg,
        _ => false,
    }
}

impl Stack {
    /// An empty stack.
    pub fn new() -> (r: Stack)
        ensures
            r@ == Seq::<Value>::empty(),
    {
        Stack { values: Vec::new() }
    }

    /// The number of values on the stack.
    pub fn len(&self) -> (r: usize)
        ensures
            r == self@.len(),
    {
        self.values.len()
    }

    /// Puts a value on top of the stack.
    pub fn push(&mut self, value: Value)
        ensures
            final(self)@ == old(self)@.push(value),
    {
        self.values.push(value);
    }

    /// Takes the value on top of the stack.
    pub fn pop(&mut self) -> (r: Result<Value, VmError>)
        ensures
            old(self)@.len() == 0 ==> r is Err && r->Err_0.kinds@ == seq![VmErrorKind::StackUnderflow]
                && final(self)@ == old(self)@,
            old(self)@.len() > 0 ==> r == Ok::<Value, VmError>(old(self)@.last())
                && final(self)@ == old(self)@.drop_last(),
    {
        match self.values.pop() {
            Some(v) => Ok(v),
            None => Err(VmError::single(VmErrorKind::StackUnderflow)),
        }
    }
}

/// The join function as the virtual machine calls it, with `args` arguments
/// on the stack.
///
/// It takes exactly one argument, the collection of futures, and pushes in
/// its place a future that performs the join when it is driven. It does no
/// part of the join itself. With any other number of arguments it fails
/// without touching the stack.
pub fn raw_join(stack: &mut Stack, args: usize) -> (r: Result<(), VmError>)
    ensures
        args != 1 ==> r is Err && r->Err_0.kinds@ == seq![VmErrorKind::BadArgumentCount { actual: args, expected: 1 }]
            && final(stack)@ == old(stack)@,
        args == 1 && old(stack)@.len() == 0 ==> r is Err && r->Err_0.kinds@ == seq![VmErrorKind::StackUnderflow]
            && final(stack)@ == old(stack)@,
        args == 1 && old(stack)@.len() > 0 ==> r is Ok
            && final(stack)@.len() == old(stack)@.len()
            && final(stack)@.drop_last() == old(stack)@.drop_last()
            && is_join_of(final(stack)@.last(), old(stack)@.last()),
{
    if args != 1 {
        return Err(VmError::single(VmErrorKind::BadArgumentCount { actual: args, expected: 1 }));
    }
    let value = match stack.pop() {
        Ok(v) => v,
        Err(e) => {
            return Err(e);
        },
    };
    stack.push(Value::Future(FutureHandle::Join(Box::new(value))));
    Ok(())
}

} // verus!
