use vstd::prelude::*;
use crate::error::{Expectation, VmError, VmErrorKind};
use crate::value::{type_of, FutureHandle, TypeKind, Value};

verus! {

/// The container shape that a join reproduces in its result.
#[derive(Clone, Copy, Debug, PartialEq, Eq, Structural)]
pub enum Shape {
    Empty,
    Tuple,
    List,
}

/// The shape of a value that can be joined, if it has one.
pub open spec fn shape_of(v: Value) -> Option<Shape> {
    match v {
        Value::Empty => Some(Shape::Empty),
        Value::Tuple(_) => Some(Shape::Tuple),
        Value::List(_) => Some(Shape::List),
        _ => None,
    }
}

/// The elements of a tuple or a list; nothing for any other value.
pub open spec fn elements(v: Value) -> Seq<Value> {
    match v {
        Value::Tuple(es) => es@,
        Value::List(es) => es@,
        _ => Seq::empty(),
    }
}

/// Whether `r` is a container of the given shape holding exactly `vals`.
pub open spec fn has_shape(r: Value, shape: Shape, vals: Seq<Value>) -> bool {
    match shape {
        Shape::Empty => r is Empty && vals.len() == 0,
        Shape::Tuple => r is Tuple && r->Tuple_0@ == vals,
        Shape::List => r is List && r->List_0@ == vals,
    }
}

/// Whether every element has the capability of a future.
pub open spec fn all_futures(s: Seq<Value>) -> bool {
    forall|i: int| 0 <= i < s.len() ==> (#[trigger] s[i]) is Future
}

/// Whether `k` is the position of the first element that is not a future.
pub open spec fn is_first_non_future(s: Seq<Value>, k: int) -> bool {
    &&& 0 <= k < s.len()
    &&& !(s[k] is Future)
    &&& all_futures(s.take(k))
}

/// The facts reported when the element at position `k` is not a future: the
/// single argument of the join is bad, and the element has the wrong type.
pub open spec fn element_error(s: Seq<Value>, k: int) -> Seq<VmErrorKind> {
    seq![
        VmErrorKind::BadArgument { index: 0 },
        VmErrorKind::TypeMismatch { index: k as usize, expected: Expectation::Future, actual: type_of(s[k]) },
    ]
}

/// The facts reported when the argument is neither a tuple nor a list.
pub open spec fn shape_error(v: Value) -> Seq<VmErrorKind> {
    seq![
        VmErrorKind::BadArgument { index: 0 },
        VmErrorKind::TypeMismatch { index: 0, expected: Expectation::TupleOrList, actual: type_of(v) },
    ]
}

/// Whether every slot of a result buffer has been written.
pub open spec fn all_filled(s: Seq<Option<Value>>) -> bool {
    forall|i: int| 0 <= i < s.len() ==> (#[trigger] s[i]) is Some
}

/// The values held by a result buffer.
pub open spec fn unwrap_all(s: Seq<Option<Value>>) -> Seq<Value> {
    Seq::new(s.len(), |i: int| s[i]->Some_0)
}

/// A result buffer of `n` slots, none of them written.
pub open spec fn empty_slots(n: nat) -> Seq<Option<Value>> {
    Seq::new(n, |i: int| None)
}

/// The number of slots not yet written.
pub open spec fn count_open(s: Seq<Option<Value>>) -> nat
    decreases s.len(),
{
    if s.len() == 0 {
        0
    } else {
        count_open(s.drop_last()) + if s.last() is None { 1nat } else { 0nat }
    }
}

proof fn lemma_count_open_write(s: Seq<Option<Value>>, i: int, v: Value)
    requires
        0 <= i < s.len(),
        s[i] is None,
    ensures
        count_open(s) >= 1,
        count_open(s.update(i, Some(v))) == count_open(s) - 1,
    decreases s.len(),
{
    let t = s.update(i, Some(v));
    if i == s.len() - 1 {
        assert(t.drop_last() =~= s.drop_last());
    } else {
        assert(t.drop_last() =~= s.drop_last().update(i, Some(v)));
        lemma_count_open_write(s.drop_last(), i, v);
    }
}

proof fn lemma_count_open_zero(s: Seq<Option<Value>>)
    ensures
        (count_open(s) == 0) == all_filled(s),
    decreases s.len(),
{
    if s.len() > 0 {
        lemma_count_open_zero(s.drop_last());
        if all_filled(s) {
            assert forall|i: int| 0 <= i < s.drop_last().len() implies (#[trigger] s.drop_last()[i]) is Some by {
                assert(s[i] is Some);
            }
        }
        if count_open(s) == 0 {
            assert forall|i: int| 0 <= i < s.len() implies (#[trigger] s[i]) is Some by {
                if i < s.len() - 1 {
                    assert(s.drop_last()[i] is Some);
                }
            }
        }
    }
}

proof fn lemma_count_open_empty(n: nat)
    ensures
        count_open(empty_slots(n)) == n,
    decreases n,
{
    if n > 0 {
        assert(empty_slots(n).drop_last() =~= empty_slots((n - 1) as nat));
        lemma_count_open_empty((n - 1) as nat);
    }
}

/// A pending computation together with its position in the joined collection.
pub struct IndexedTask {
    pub index: usize,
    pub handle: FutureHandle,
}

/// The state of a join whose tasks are running: one result slot per task,
/// each written once, when the task at that position completes.
pub struct JoinEngine {
    shape: Shape,
    slots: Vec<Option<Value>>,
    remaining: usize,
}

/// How a join begins.
pub enum Start {
    /// The result is known without running anything.
    Ready(Value),
    /// The tasks to run, and the engine that collects their results.
    Running(JoinEngine, Vec<IndexedTask>),
}

/// What a join does after one of its tasks has completed.
pub enum Step {
    /// Other tasks are still running.
    Pending(JoinEngine),
    /// Every task has completed; the joined result.
    Done(Value),
    /// A task failed; the join is over and the remaining tasks are dropped.
    Failed(VmError),
}

impl JoinEngine {
    /// The shape that the result will have.
    pub closed spec fn spec_shape(&self) -> Shape {
        self.shape
    }

    /// The result slots, by position.
    pub closed spec fn spec_slots(&self) -> Seq<Option<Value>> {
        self.slots@
    }

    /// The engine is collecting results and at least one is still missing.
    pub closed spec fn wf(&self) -> bool {
        &&& self.remaining as nat == count_open(self.slots@)
        &&& self.remaining > 0
        &&& !(self.shape is Empty)
    }

    /// The number of tasks of the join.
    pub fn len(&self) -> (r: usize)
        ensures
            r == self.spec_slots().len(),
    {
        self.slots.len()
    }

    /// Whether the task at `index` belongs to this join and has not completed.
    pub fn is_open(&self, index: usize) -> (r: bool)
        ensures
            r == (index < self.spec_slots().len() && self.spec_slots()[index as int] is None),
    {
        index < self.slots.len() && self.slots[index].is_none()
    }

    /// Records that the task at `index` has completed with `outcome`.
    ///
    /// A failure ends the join with that failure. A value is written to the
    /// slot at `index`; once every slot holds a value the join is done, and
    /// its result holds the values by position, in the join's shape.
    pub fn complete(self, index: usize, outcome: Result<Value, VmError>) -> (r: Step)
        requires
            self.wf(),
            index < self.spec_slots().len(),
            self.spec_slots()[index as int] is None,
        ensures
            outcome is Err ==> r == Step::Failed(outcome->Err_0),
            outcome is Ok ==> {
                let slots = self.spec_slots().update(index as int, Some(outcome->Ok_0));
                if all_filled(slots) {
                    r is Done && has_shape(r->Done_0, self.spec_shape(), unwrap_all(slots))
                } else {
                    &&& r is Pending
                    &&& r->Pending_0.wf()
                    &&& r->Pending_0.spec_shape() == self.spec_shape()
                    &&& r->Pending_0.spec_slots() == slots
                }
            },
    {
        match outcome {
            Err(e) => Step::Failed(e),
            Ok(v) => {
                let JoinEngine { shape, mut slots, remaining } = self;
                proof {
                    lemma_count_open_write(slots@, index as int, v);
                }
                slots.set(index, Some(v));
                let remaining = remaining - 1;
                proof {
                    lemma_count_open_zero(slots@);
                }
                if remaining == 0 {
                    Step::Done(assemble(shape, slots))
                } else {
                    Step::Pending(JoinEngine { shape, slots, remaining })
                }
            },
        }
    }
}

/// Moves the values out of a fully written result buffer into a container
/// of the given shape.
fn assemble(shape: Shape, slots: Vec<Option<Value>>) -> (r: Value)
    requires
        all_filled(slots@),
        !(shape is Empty),
    ensures
        has_shape(r, shape, unwrap_all(slots@)),
{
    let ghost all = slots@;
    let mut slots = slots;
    let mut rev: Vec<Value> = Vec::new();
    while slots.len() > 0
        invariant
            slots@ == all.take(slots@.len() as int),
            slots@.len() + rev@.len() == all.len(),
            all_filled(all),
            forall|j: int| 0 <= j < rev@.len() ==> #[trigger] rev@[j] == all[all.len() - 1 - j]->Some_0,
        decreases slots@.len(),
    {
        let last = slots.pop().unwrap();
        proof {
            assert(all[slots@.len() as int] is Some);
        }
        rev.push(last.unwrap());
        proof {
            assert(slots@ =~= all.take(slots@.len() as int));
        }
    }
    let mut vals: Vec<Value> = Vec::new();
    while rev.len() > 0
        invariant
            rev@.len() + vals@.len() == all.len(),
            forall|j: int| 0 <= j < rev@.len() ==> #[trigger] rev@[j] == all[all.len() - 1 - j]->Some_0,
            forall|j: int| 0 <= j < vals@.len() ==> #[trigger] vals@[j] == all[j]->Some_0,
        decreases rev@.len(),
    {
        let v = rev.pop().unwrap();
        vals.push(v);
    }
    proof {
        assert(vals@ =~= unwrap_all(all));
    }
    match shape {
        Shape::Tuple => Value::Tuple(vals),
        _ => Value::List(vals),
    }
}

/// The position of the first element that is not a future, if any.
pub fn first_non_future(es: &Vec<Value>) -> (r: Option<usize>)
    ensures
        r is None ==> all_futures(es@),
        r is Some ==> is_first_non_future(es@, r->Some_0 as int),
{
    let mut i: usize = 0;
    while i < es.len()
        invariant
            i <= es@.len(),
            all_futures(es@.take(i as int)),
        decreases es@.len() - i,
    {
        if !es[i].is_future() {
            return Some(i);
        }
        proof {
            assert(es@.take(i + 1) =~= es@.take(i as int).push(es@[i as int]));
        }
        i = i + 1;
    }
    proof {
        assert(es@.take(i as int) =~= es@);
    }
    None
}

/// Turns the elements of a collection, all of them futures, into tasks that
/// remember their positions. The tasks come last position first.
fn into_tasks(es: Vec<Value>) -> (r: Vec<IndexedTask>)
    requires
        all_futures(es@),
    ensures
        r@.len() == es@.len(),
        forall|j: int| 0 <= j < r@.len() ==> (#[trigger] r@[j]).index == es@.len() - 1 - j
            && Value::Future(r@[j].handle) == es@[es@.len() - 1 - j],
{
    let ghost all = es@;
    let mut es = es;
    let mut tasks: Vec<IndexedTask> = Vec::new();
    while es.len() > 0
        invariant
            es@ == all.take(es@.len() as int),
            es@.len() + tasks@.len() == all.len(),
            all_futures(all),
            forall|j: int| 0 <= j < tasks@.len() ==> (#[trigger] tasks@[j]).index == all.len() - 1 - j
                && Value::Future(tasks@[j].handle) == all[all.len() - 1 - j],
        decreases es@.len(),
    {
        let v = es.pop().unwrap();
        proof {
            assert(es@ =~= all.take(es@.len() as int));
            assert(all[es@.len() as int] is Future);
        }
        match v {
            Value::Future(handle) => {
                tasks.push(IndexedTask { index: es.len(), handle });
            },
            // not reached: every element is a future
            _ => {},
        }
    }
    tasks
}

/// Begins a join over a collection of futures.
///
/// The empty tuple, and a tuple or list without elements, are joined at once.
/// A tuple or list whose elements are all futures gives one task per element
/// and an engine with one open slot per element. Any other argument, or an
/// element that is not a future, is an error; nothing is run then.
pub fn start(value: Value) -> (r: Result<Start, VmError>)
    ensures
        shape_of(value) is None ==> r is Err && r->Err_0.kinds@ == shape_error(value),
        value is Empty ==> r is Ok && r->Ok_0 is Ready && r->Ok_0->Ready_0 is Empty,
        (value is Tuple || value is List) ==> {
            let es = elements(value);
            let shape = shape_of(value)->Some_0;
            if !all_futures(es) {
                r is Err && exists|k: int| #[trigger] is_first_non_future(es, k)
                    && r->Err_0.kinds@ == element_error(es, k)
            } else if es.len() == 0 {
                r is Ok && r->Ok_0 is Ready && has_shape(r->Ok_0->Ready_0, shape, es)
            } else {
                &&& r is Ok
                &&& r->Ok_0 is Running
                &&& r->Ok_0->Running_0.wf()
                &&& r->Ok_0->Running_0.spec_shape() == shape
                &&& r->Ok_0->Running_0.spec_slots() == empty_slots(es.len())
                &&& r->Ok_0->Running_1@.len() == es.len()
                &&& forall|j: int| 0 <= j < es.len() ==>
                    (#[trigger] r->Ok_0->Running_1@[j]).index == es.len() - 1 - j
                    && Value::Future(r->Ok_0->Running_1@[j].handle) == es[es.len() - 1 - j]
            }
        },
{
    let (shape, es) = match value {
        Value::Empty => {
            return Ok(Start::Ready(Value::Empty));
        },
        Value::Tuple(es) => (Shape::Tuple, es),
        Value::List(es) => (Shape::List, es),
        other => {
            let actual = other.type_kind();
            return Err(
                VmError::pair(
                    VmErrorKind::BadArgument { index: 0 },
                    VmErrorKind::TypeMismatch { index: 0, expected: Expectation::TupleOrList, actual },
                ),
            );
        },
    };
    match first_non_future(&es) {
        Some(k) => {
            let actual = es[k].type_kind();
            Err(
                VmError::pair(
                    VmErrorKind::BadArgument { index: 0 },
                    VmErrorKind::TypeMismatch { index: k, expected: Expectation::Future, actual },
                ),
            )
        },
        None => {
            let n = es.len();
            if n == 0 {
                return Ok(Start::Ready(if shape == Shape::Tuple { Value::Tuple(es) } else { Value::List(es) }));
            }
            let tasks = into_tasks(es);
            let mut slots: Vec<Option<Value>> = Vec::new();
            let mut i: usize = 0;
            while i < n
                invariant
                    i <= n,
                    slots@ == empty_slots(i as nat),
                decreases n - i,
            {
                slots.push(None);
                proof {
                    assert(slots@ =~= empty_slots((i + 1) as nat));
                }
                i = i + 1;
            }
            proof {
                lemma_count_open_empty(n as nat);
            }
            Ok(Start::Running(JoinEngine { shape, slots, remaining: n }, tasks))
        },
    }
}

/// Whether `order` lists every position below `n` exactly once: an order in
/// which the `n` tasks of a join may complete.
pub open spec fn is_schedule(order: Seq<int>, n: nat) -> bool {
    &&& order.len() == n
    &&& order.no_duplicates()
    &&& forall|m: int| 0 <= m < order.len() ==> 0 <= #[trigger] order[m] < n
    &&& forall|j: int| 0 <= j < n ==> #[trigger] order.contains(j)
}

/// The result buffer after the tasks at the positions in `order` have
/// completed one after another, each with its value from `vals`.
pub open spec fn fill(slots: Seq<Option<Value>>, order: Seq<int>, vals: Seq<Value>) -> Seq<Option<Value>>
    decreases order.len(),
{
    if order.len() == 0 {
        slots
    } else {
        fill(slots, order.drop_last(), vals).update(order.last(), Some(vals[order.last()]))
    }
}

proof fn lemma_fill_prefix(vals: Seq<Value>, order: Seq<int>, k: int)
    requires
        is_schedule(order, vals.len()),
        0 <= k <= order.len(),
    ensures
        fill(empty_slots(vals.len()), order.take(k), vals).len() == vals.len(),
        forall|j: int| 0 <= j < vals.len() ==> #[trigger] fill(empty_slots(vals.len()), order.take(k), vals)[j]
            == if order.take(k).contains(j) { Some(vals[j]) } else { None },
    decreases k,
{
    let n = vals.len();
    if k == 0 {
        assert(order.take(0) =~= Seq::<int>::empty());
    } else {
        lemma_fill_prefix(vals, order, k - 1);
        let t = order.take(k);
        assert(t.drop_last() =~= order.take(k - 1));
        assert forall|j: int| 0 <= j < n implies #[trigger] fill(empty_slots(n), t, vals)[j]
            == if t.contains(j) { Some(vals[j]) } else { None } by {
            if j == order[k - 1] {
                assert(t[k - 1] == j);
            } else {
                if t.contains(j) {
                    let m = choose|m: int| 0 <= m < t.len() && #[trigger] t[m] == j;
                    assert(order.take(k - 1)[m] == j);
                }
                if order.take(k - 1).contains(j) {
                    let m = choose|m: int| 0 <= m < k - 1 && #[trigger] order.take(k - 1)[m] == j;
                    assert(t[m] == j);
                }
            }
        }
    }
}

/// Results are placed by position, never by completion order: when the
/// tasks of a join complete one by one in any order, each with its value
/// from `vals`, every completion finds its slot open, no earlier completion
/// fills the buffer, and the last one leaves it holding exactly `vals`.
pub proof fn lemma_join_ignores_completion_order(vals: Seq<Value>, order: Seq<int>)
    requires
        is_schedule(order, vals.len()),
    ensures
        forall|k: int| 0 <= k < order.len() ==>
            (#[trigger] fill(empty_slots(vals.len()), order.take(k), vals))[order[k]] is None
            && !all_filled(fill(empty_slots(vals.len()), order.take(k), vals)),
        forall|k: int| 0 < k <= order.len() ==>
            #[trigger] fill(empty_slots(vals.len()), order.take(k), vals)
            == fill(empty_slots(vals.len()), order.take(k - 1), vals).update(order[k - 1], Some(vals[order[k - 1]])),
        all_filled(fill(empty_slots(vals.len()), order, vals)),
        unwrap_all(fill(empty_slots(vals.len()), order, vals)) == vals,
{
    let n = vals.len();
    assert forall|k: int| 0 <= k < order.len() implies
        (#[trigger] fill(empty_slots(n), order.take(k), vals))[order[k]] is None
        && !all_filled(fill(empty_slots(n), order.take(k), vals)) by {
        lemma_fill_prefix(vals, order, k);
        if order.take(k).contains(order[k]) {
            let m = choose|m: int| 0 <= m < k && #[trigger] order.take(k)[m] == order[k];
            assert(order[m] == order[k]);
        }
    }
    assert forall|k: int| 0 < k <= order.len() implies
        #[trigger] fill(empty_slots(n), order.take(k), vals)
        == fill(empty_slots(n), order.take(k - 1), vals).update(order[k - 1], Some(vals[order[k - 1]])) by {
        assert(order.take(k).drop_last() =~= order.take(k - 1));
    }
    lemma_fill_prefix(vals, order, n as int);
    assert(order.take(n as int) =~= order);
    let full = fill(empty_slots(n), order, vals);
    assert forall|j: int| 0 <= j < full.len() implies (#[trigger] full[j]) is Some && full[j]->Some_0 == vals[j] by {
        assert(order.contains(j));
    }
    assert(unwrap_all(full) =~= vals);
}

/// A join hands back its result in the container shape of its argument: a
/// result built in the argument's shape is a tuple exactly when the argument
/// was one, a list exactly when it was one, and the empty tuple exactly when
/// it was the empty tuple.
pub proof fn lemma_join_keeps_shape(input: Value, result: Value, vals: Seq<Value>)
    requires
        shape_of(input) is Some,
        has_shape(result, shape_of(input)->Some_0, vals),
    ensures
        shape_of(result) == shape_of(input),
        (result is Tuple) == (input is Tuple),
        (result is List) == (input is List),
        (result is Empty) == (input is Empty),
{
}

} // verus!
