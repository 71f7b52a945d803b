use vstd::prelude::*;

verus! {

/// A handle to a pending computation.
pub enum FutureHandle {
    /// A computation that the host runs, known by its id.
    Task(u64),
    /// A deferred join over the held collection of futures.
    Join(Box<Value>),
}

/// A dynamically typed value of the virtual machine.
pub enum Value {
    /// The empty tuple.
    Empty,
    Integer(i64),
    Tuple(Vec<Value>),
    List(Vec<Value>),
    Future(FutureHandle),
    /// A value of a type that the join does not inspect, known by its type id.
    Other(u64),
}

/// The observed type of a value.
#[derive(Clone, Copy, Debug, PartialEq, Eq, Structural)]
pub enum TypeKind {
    Empty,
    Integer,
    Tuple,
    List,
    Future,
    Other,
}

/// The type that a value is observed to have.
pub open spec fn type_of(v: Value) -> TypeKind {
    match v {
        Value::Empty => TypeKind::Empty,
        Value::Integer(_) => TypeKind::Integer,
        Value::Tuple(_) => TypeKind::Tuple,
        Value::List(_) => TypeKind::List,
        Value::Future(_) => TypeKind::Future,
        Value::Other(_) => TypeKind::Other,
    }
}

impl Value {
    /// The observed type of this value.
    pub fn type_kind(&self) -> (r: TypeKind)
        ensures
            r == type_of(*self),
    {
        match self {
            Value::Empty => TypeKind::Empty,
            Value::Integer(_) => TypeKind::Integer,
            Value::Tuple(_) => TypeKind::Tuple,
            Value::List(_) => TypeKind::List,
            Value::Future(_) => TypeKind::Future,
            Value::Other(_) => TypeKind::Other,
        }
    }

    /// Whether this value has the capability of a future.
    pub fn is_future(&self) -> (r: bool)
        ensures
            r == (*self is Future),
    {
        match self {
            Value::Future(_) => true,
            _ => false,
        }
    }
}

} // verus!
