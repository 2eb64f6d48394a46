//! The states of machines that read texts against patterns, and what they stand for.
use super::pattern::{
    halted, halted_push, halted_verdict, matches_text, repeats, repeats_by_verdict, splits, starts,
    verdict, Pattern,
};
use crate::sub_text::{byte_len, substr_chars};
use vstd::prelude::*;

verus! {

/// How far a machine has come.
#[derive(Debug)]
pub enum State {
    /// Nothing to remember.
    Init,
    /// Given up.
    Halt,
    /// At a place in the pattern.
    Index(usize),
    /// Two machines on the same text.
    Pair(Box<MachineInner>, Box<MachineInner>),
    /// The machines that read the last of a row of texts, for each place where it may start.
    Heap(Vec<MachineInner>),
    /// A machine that reads the whole text as the first part, and the machines that read the
    /// second part, for each place where it may start.
    Concat(Box<MachineInner>, Vec<MachineInner>),
}

/// A machine and the place where it started to read.
#[derive(Debug)]
pub struct MachineInner {
    pub state: State,
    pub start: usize,
}

/// Whether the machine on the pattern `p` that has read `w` has a machine that started at
/// `k` among its machines for parts.
#[verifier::opaque]
pub open spec fn live(p: Pattern, w: Seq<char>, k: int) -> bool {
    match p {
        Pattern::Concat(p1, p2) => splits(*p1, w, k) && (k == w.len() || !halted(*p2, w.skip(k))),
        Pattern::Repeat(q) => starts(*q, w, k) && (w.len() == 1 || !halted(*q, w.skip(k))),
        Pattern::Repeat1(q) => if w.len() == 0 {
            k == 0
        } else {
            starts(*q, w, k) && !halted(*q, w.skip(k))
        },
        _ => false,
    }
}

/// Whether a machine that started at `start` can be the one that started at `k`, if the
/// places are marked.
pub open spec fn marked(start: usize, marks: Option<Seq<usize>>, k: int) -> bool {
    match marks {
        Some(marks) => start == marks[k],
        None => true,
    }
}

/// Whether a machine that started at `start` started at the place `k` or before, if the
/// places are marked.
pub open spec fn marked_before(start: usize, marks: Option<Seq<usize>>, k: int) -> bool {
    match marks {
        Some(marks) => start <= marks[k],
        None => true,
    }
}

/// Whether the state `s` is one in which a machine on the pattern `p` can be that has
/// read `w`.
#[verifier::opaque]
pub open spec fn stands_for(s: State, p: Pattern, w: Seq<char>) -> bool
    decreases p, 0int,
{
    &&& s is Halt <==> halted(p, w)
    &&& match (p, s) {
        (_, State::Halt) => true,
        (Pattern::All, State::Init) => true,
        (Pattern::Empty, State::Init) => w.len() == 0,
        (Pattern::Length(_), State::Index(i)) => i == w.len(),
        (Pattern::Str(t), State::Index(i)) => w.is_prefix_of(substr_chars(t)) && i == byte_len(w),
        (Pattern::One(_), State::Index(i)) => i == w.len(),
        (Pattern::Non(_), State::Index(i)) => i == w.len(),
        (Pattern::Concat(p1, p2), State::Concat(m1, heap)) => {
            &&& stands_for(m1.state, *p1, w)
            &&& heap_for(heap@, *p2, p, w, None)
        },
        (Pattern::And(p1, p2), State::Pair(m1, m2)) => {
            &&& stands_for(m1.state, *p1, w)
            &&& stands_for(m2.state, *p2, w)
        },
        (Pattern::Or(p1, p2), State::Pair(m1, m2)) => {
            &&& stands_for(m1.state, *p1, w)
            &&& stands_for(m2.state, *p2, w)
        },
        (Pattern::Repeat(_), State::Init) => w.len() == 0,
        (Pattern::Repeat(q), State::Heap(heap)) => w.len() > 0 && heap_for(
            heap@,
            *q,
            p,
            w,
            None,
        ),
        (Pattern::Repeat1(q), State::Heap(heap)) => heap_for(heap@, *q, p, w, None),
        _ => false,
    }
}

/// Whether `m` is one of the machines for parts, each on the pattern `q`, of the machine on
/// the pattern `p` that has read `w`.
#[verifier::opaque]
pub open spec fn sourced(
    m: MachineInner,
    q: Pattern,
    p: Pattern,
    w: Seq<char>,
    marks: Option<Seq<usize>>,
) -> bool
    decreases q, 1int,
{
    exists|k: int| #[trigger]
        live(p, w, k) && stands_for(m.state, q, w.skip(k)) && marked(m.start, marks, k)
}

/// Whether there is a machine among `heap` for the part that starts at `k`.
#[verifier::opaque]
pub open spec fn covered(
    heap: Seq<MachineInner>,
    q: Pattern,
    w: Seq<char>,
    k: int,
    marks: Option<Seq<usize>>,
) -> bool
    decreases q, 1int,
{
    exists|i: int|
        0 <= i < heap.len() && stands_for((#[trigger] heap[i]).state, q, w.skip(k))
            && marked_before(heap[i].start, marks, k)
}

/// Whether `heap` holds the machines for parts, each on the pattern `q`, of the machine on the
/// pattern `p` that has read `w`. Of machines in the same state the first one to start is
/// there.
#[verifier::opaque]
pub open spec fn heap_for(
    heap: Seq<MachineInner>,
    q: Pattern,
    p: Pattern,
    w: Seq<char>,
    marks: Option<Seq<usize>>,
) -> bool
    decreases q, 2int,
{
    &&& forall|i: int| 0 <= i < heap.len() ==> sourced(#[trigger] heap[i], q, p, w, marks)
    &&& forall|k: int| #[trigger] live(p, w, k) ==> covered(heap, q, w, k, marks)
}

/// Whether a machine on the pattern `p` can be in the state `s`, with at most `limit`
/// characters read.
pub open spec fn possible(s: State, p: Pattern, limit: int) -> bool {
    exists|w: Seq<char>| w.len() <= limit && #[trigger] stands_for(s, p, w)
}

/// Whether two states are the same, but for the places where machines started to read.
pub open spec fn same_state(a: State, b: State) -> bool
    decreases a,
{
    match (a, b) {
        (State::Init, State::Init) => true,
        (State::Halt, State::Halt) => true,
        (State::Index(i), State::Index(j)) => i == j,
        (State::Pair(a1, a2), State::Pair(b1, b2)) => same_state(a1.state, b1.state) && same_state(
            a2.state,
            b2.state,
        ),
        (State::Heap(xs), State::Heap(ys)) => {
            &&& xs@.len() == ys@.len()
            &&& forall|i: int|
                0 <= i < xs@.len() ==> same_state((#[trigger] xs@[i]).state, ys@[i].state)
        },
        (State::Concat(a1, xs), State::Concat(b1, ys)) => {
            &&& same_state(a1.state, b1.state)
            &&& xs@.len() == ys@.len()
            &&& forall|i: int|
                0 <= i < xs@.len() ==> same_state((#[trigger] xs@[i]).state, ys@[i].state)
        },
        _ => false,
    }
}

/// What a state is in which a machine on the pattern `p` can be that has read `w`.
pub(crate) proof fn opened(s: State, p: Pattern, w: Seq<char>)
    ensures
        stands_for(s, p, w) <==> {
            &&& s is Halt <==> halted(p, w)
            &&& match (p, s) {
                (_, State::Halt) => true,
                (Pattern::All, State::Init) => true,
                (Pattern::Empty, State::Init) => w.len() == 0,
                (Pattern::Length(_), State::Index(i)) => i == w.len(),
                (Pattern::Str(t), State::Index(i)) => w.is_prefix_of(substr_chars(t)) && i
                    == byte_len(w),
                (Pattern::One(_), State::Index(i)) => i == w.len(),
                (Pattern::Non(_), State::Index(i)) => i == w.len(),
                (Pattern::Concat(p1, p2), State::Concat(m1, heap)) => {
                    &&& stands_for(m1.state, *p1, w)
                    &&& heap_for(heap@, *p2, p, w, None)
                },
                (Pattern::And(p1, p2), State::Pair(m1, m2)) => {
                    &&& stands_for(m1.state, *p1, w)
                    &&& stands_for(m2.state, *p2, w)
                },
                (Pattern::Or(p1, p2), State::Pair(m1, m2)) => {
                    &&& stands_for(m1.state, *p1, w)
                    &&& stands_for(m2.state, *p2, w)
                },
                (Pattern::Repeat(_), State::Init) => w.len() == 0,
                (Pattern::Repeat(q), State::Heap(heap)) => w.len() > 0 && heap_for(
                    heap@,
                    *q,
                    p,
                    w,
                    None,
                ),
                (Pattern::Repeat1(q), State::Heap(heap)) => heap_for(heap@, *q, p, w, None),
                _ => false,
            }
        },
{
    reveal(stands_for);
    reveal(heap_for);
}

/// A machine that started at `k` and may be among the machines for parts is one of them.
pub(crate) proof fn sourced_by(
    m: MachineInner,
    q: Pattern,
    p: Pattern,
    w: Seq<char>,
    marks: Option<Seq<usize>>,
    k: int,
)
    requires
        live(p, w, k),
        stands_for(m.state, q, w.skip(k)),
        marked(m.start, marks, k),
    ensures
        sourced(m, q, p, w, marks),
{
    reveal(sourced);
    reveal(stands_for);
}

/// A machine among `heap` for the part that starts at `k` is found there.
pub(crate) proof fn covered_by(
    heap: Seq<MachineInner>,
    q: Pattern,
    w: Seq<char>,
    k: int,
    marks: Option<Seq<usize>>,
    i: int,
)
    requires
        0 <= i < heap.len(),
        stands_for(heap[i].state, q, w.skip(k)),
        marked_before(heap[i].start, marks, k),
    ensures
        covered(heap, q, w, k, marks),
{
    reveal(covered);
    reveal(stands_for);
    assert(stands_for(heap[i].state, q, w.skip(k)));
}

/// A heap that holds the machines that are to be there, and no others.
pub(crate) proof fn heap_holds(
    heap: Seq<MachineInner>,
    q: Pattern,
    p: Pattern,
    w: Seq<char>,
    marks: Option<Seq<usize>>,
)
    requires
        forall|i: int| 0 <= i < heap.len() ==> sourced(#[trigger] heap[i], q, p, w, marks),
        forall|k: int| #[trigger] live(p, w, k) ==> covered(heap, q, w, k, marks),
    ensures
        heap_for(heap, q, p, w, marks),
{
    reveal(heap_for);
    reveal(sourced);
    reveal(covered);
}

/// The place where a machine of a heap started.
pub(crate) proof fn heap_source(
    heap: Seq<MachineInner>,
    q: Pattern,
    p: Pattern,
    w: Seq<char>,
    marks: Option<Seq<usize>>,
    i: int,
) -> (k: int)
    requires
        heap_for(heap, q, p, w, marks),
        0 <= i < heap.len(),
    ensures
        live(p, w, k),
        0 <= k <= w.len(),
        stands_for(heap[i].state, q, w.skip(k)),
        marked(heap[i].start, marks, k),
{
    reveal(heap_for);
    reveal(sourced);
    reveal(stands_for);
    reveal(live);
    assert(sourced(heap[i], q, p, w, marks));
    choose|k: int| #[trigger]
        live(p, w, k) && stands_for(heap[i].state, q, w.skip(k)) && marked(
            heap[i].start,
            marks,
            k,
        )
}

/// The machine of a heap for the part that starts at a place.
pub(crate) proof fn heap_cover(
    heap: Seq<MachineInner>,
    q: Pattern,
    p: Pattern,
    w: Seq<char>,
    marks: Option<Seq<usize>>,
    k: int,
) -> (i: int)
    requires
        heap_for(heap, q, p, w, marks),
        live(p, w, k),
    ensures
        0 <= i < heap.len(),
        stands_for(heap[i].state, q, w.skip(k)),
        marked_before(heap[i].start, marks, k),
{
    reveal(heap_for);
    reveal(covered);
    reveal(stands_for);
    assert(covered(heap, q, w, k, marks));
    choose|i: int|
        0 <= i < heap.len() && stands_for((#[trigger] heap[i]).state, q, w.skip(k))
            && marked_before(heap[i].start, marks, k)
}

/// Heaps whose machines are in the same states hold the same machines.
pub(crate) proof fn same_heap(
    xs: Seq<MachineInner>,
    ys: Seq<MachineInner>,
    q: Pattern,
    p: Pattern,
    w: Seq<char>,
)
    requires
        xs.len() == ys.len(),
        forall|i: int| 0 <= i < xs.len() ==> same_state((#[trigger] xs[i]).state, ys[i].state),
        heap_for(xs, q, p, w, None),
    ensures
        heap_for(ys, q, p, w, None),
    decreases q, 1int,
{
    assert forall|i: int| 0 <= i < ys.len() implies sourced(#[trigger] ys[i], q, p, w, None) by {
        let k = heap_source(xs, q, p, w, None, i);
        same_stands(xs[i].state, ys[i].state, q, w.skip(k));
        sourced_by(ys[i], q, p, w, None, k);
    }
    assert forall|k: int| #[trigger] live(p, w, k) implies covered(ys, q, w, k, None) by {
        let i = heap_cover(xs, q, p, w, None, k);
        same_stands(xs[i].state, ys[i].state, q, w.skip(k));
        covered_by(ys, q, w, k, None, i);
    }
    heap_holds(ys, q, p, w, None);
}

/// Machines in the same state stand for the same texts.
pub(crate) proof fn same_stands(a: State, b: State, p: Pattern, w: Seq<char>)
    requires
        same_state(a, b),
        stands_for(a, p, w),
    ensures
        stands_for(b, p, w),
    decreases p, 0int,
{
    opened(a, p, w);
    opened(b, p, w);
    match (p, a, b) {
        (Pattern::Concat(p1, p2), State::Concat(a1, xs), State::Concat(b1, ys)) => {
            same_stands(a1.state, b1.state, *p1, w);
            same_heap(xs@, ys@, *p2, p, w);
        },
        (Pattern::And(p1, p2), State::Pair(a1, a2), State::Pair(b1, b2)) => {
            same_stands(a1.state, b1.state, *p1, w);
            same_stands(a2.state, b2.state, *p2, w);
        },
        (Pattern::Or(p1, p2), State::Pair(a1, a2), State::Pair(b1, b2)) => {
            same_stands(a1.state, b1.state, *p1, w);
            same_stands(a2.state, b2.state, *p2, w);
        },
        (Pattern::Repeat(q), State::Heap(xs), State::Heap(ys)) => {
            same_heap(xs@, ys@, *q, p, w);
        },
        (Pattern::Repeat1(q), State::Heap(xs), State::Heap(ys)) => {
            same_heap(xs@, ys@, *q, p, w);
        },
        _ => {},
    }
}

/// A machine with machines for parts has given up if none of them goes on.
pub(crate) proof fn halted_by_live(p: Pattern, v: Seq<char>)
    ensures
        match p {
            Pattern::Concat(p1, _) => halted(p, v) <==> {
                &&& v.len() > 0
                &&& halted(*p1, v)
                &&& forall|k: int| !#[trigger] live(p, v, k)
            },
            Pattern::Repeat(_) => halted(p, v) <==> v.len() > 1 && forall|k: int|
                !#[trigger] live(p, v, k),
            Pattern::Repeat1(_) => halted(p, v) <==> v.len() > 0 && forall|k: int|
                !#[trigger] live(p, v, k),
            _ => true,
        },
{
    reveal(halted);
    reveal(live);
    match p {
        Pattern::Concat(p1, p2) => {
            if forall|k: int| !#[trigger] live(p, v, k) {
                assert forall|k: int| #[trigger] splits(*p1, v, k) implies k < v.len() && halted(
                    *p2,
                    v.skip(k),
                ) by {
                    assert(!live(p, v, k));
                }
            } else {
                let k = choose|k: int| #[trigger] live(p, v, k);
                assert(splits(*p1, v, k));
            }
        },
        Pattern::Repeat(q) | Pattern::Repeat1(q) => {
            if forall|k: int| !#[trigger] live(p, v, k) {
                assert forall|k: int| #[trigger] starts(*q, v, k) implies halted(
                    *q,
                    v.skip(k),
                ) by {
                    assert(!live(p, v, k));
                }
            } else if v.len() > 1 || v.len() == 1 && p is Repeat1 {
                let k = choose|k: int| #[trigger] live(p, v, k);
                assert(starts(*q, v, k));
            }
        },
        _ => {},
    }
}

/// How one of two things is ordered to the other.
#[derive(Debug, Clone, Copy, PartialEq, Eq, Structural)]
pub enum Order {
    Before,
    Same,
    After,
}

impl Order {
    /// The order of the second thing to the first.
    pub open spec fn turned(self) -> Order {
        match self {
            Order::Before => Order::After,
            Order::Same => Order::Same,
            Order::After => Order::Before,
        }
    }
}

/// The order of two numbers.
pub open spec fn order_of_numbers(a: int, b: int) -> Order {
    if a < b {
        Order::Before
    } else if a == b {
        Order::Same
    } else {
        Order::After
    }
}

/// The order of two numbers.
fn number_order(a: usize, b: usize) -> (r: Order)
    ensures
        r == order_of_numbers(a as int, b as int),
{
    if a < b {
        Order::Before
    } else if a == b {
        Order::Same
    } else {
        Order::After
    }
}

/// The place of a state among the kinds of states.
pub open spec fn kind_of_state(s: State) -> int {
    match s {
        State::Init => 0,
        State::Halt => 1,
        State::Index(_) => 2,
        State::Pair(..) => 3,
        State::Heap(_) => 4,
        State::Concat(..) => 5,
    }
}

/// The place of a state among the kinds of states.
fn state_kind(s: &State) -> (r: usize)
    ensures
        r == kind_of_state(*s),
{
    match s {
        State::Init => 0,
        State::Halt => 1,
        State::Index(_) => 2,
        State::Pair(..) => 3,
        State::Heap(_) => 4,
        State::Concat(..) => 5,
    }
}

/// The order of two states: by kind, then part by part. The places where machines started
/// to read do not count.
pub open spec fn order_of_states(a: State, b: State) -> Order
    decreases a, 0int,
{
    match (a, b) {
        (State::Index(i), State::Index(j)) => order_of_numbers(i as int, j as int),
        (State::Pair(a1, a2), State::Pair(b1, b2)) => match order_of_states(a1.state, b1.state) {
            Order::Same => order_of_states(a2.state, b2.state),
            first => first,
        },
        (State::Heap(xs), State::Heap(ys)) => order_of_rows(xs@, ys@, 0),
        (State::Concat(a1, xs), State::Concat(b1, ys)) => match order_of_states(
            a1.state,
            b1.state,
        ) {
            Order::Same => order_of_rows(xs@, ys@, 0),
            first => first,
        },
        _ => order_of_numbers(kind_of_state(a), kind_of_state(b)),
    }
}

/// The order of two rows of machines from the place `i` on: that of the first states that
/// differ, or else the shorter row first.
pub open spec fn order_of_rows(xs: Seq<MachineInner>, ys: Seq<MachineInner>, i: nat) -> Order
    decreases xs, xs.len() - i,
{
    if i < xs.len() && i < ys.len() {
        match order_of_states(xs[i as int].state, ys[i as int].state) {
            Order::Same => order_of_rows(xs, ys, i + 1),
            first => first,
        }
    } else {
        order_of_numbers(xs.len() as int, ys.len() as int)
    }
}

/// The order of two states: by kind, then part by part. The places where machines started
/// to read do not count.
fn state_order(a: &State, b: &State) -> (r: Order)
    ensures
        r == order_of_states(*a, *b),
    decreases a,
{
    match (a, b) {
        (State::Index(i), State::Index(j)) => number_order(*i, *j),
        (State::Pair(a1, a2), State::Pair(b1, b2)) => {
            let first = state_order(&a1.state, &b1.state);
            if first == Order::Same {
                state_order(&a2.state, &b2.state)
            } else {
                first
            }
        },
        (State::Heap(xs), State::Heap(ys)) => heap_order(xs, ys),
        (State::Concat(a1, xs), State::Concat(b1, ys)) => {
            let first = state_order(&a1.state, &b1.state);
            if first == Order::Same {
                heap_order(xs, ys)
            } else {
                first
            }
        },
        _ => number_order(state_kind(a), state_kind(b)),
    }
}

/// The order of two rows of machines: that of the first states that differ, or else the
/// shorter row first.
fn heap_order(xs: &Vec<MachineInner>, ys: &Vec<MachineInner>) -> (r: Order)
    ensures
        r == order_of_rows(xs@, ys@, 0),
    decreases xs,
{
    let mut i: usize = 0;
    while i < xs.len() && i < ys.len()
        invariant
            i <= xs@.len(),
            i <= ys@.len(),
            order_of_rows(xs@, ys@, 0) == order_of_rows(xs@, ys@, i as nat),
        decreases xs@.len() - i,
    {
        assert(decreases_to!(xs => xs@[i as int]));
        let order = state_order(&xs[i].state, &ys[i].state);
        if order != Order::Same {
            return order;
        }
        i = i + 1;
    }
    number_order(xs.len(), ys.len())
}

/// Two states come at the same place in the order exactly if they are the same.
pub proof fn order_tells_same(a: State, b: State)
    ensures
        order_of_states(a, b) == Order::Same <==> same_state(a, b),
    decreases a, 0int,
{
    match (a, b) {
        (State::Pair(a1, a2), State::Pair(b1, b2)) => {
            order_tells_same(a1.state, b1.state);
            order_tells_same(a2.state, b2.state);
        },
        (State::Heap(xs), State::Heap(ys)) => {
            order_tells_same_row(xs@, ys@, 0);
        },
        (State::Concat(a1, xs), State::Concat(b1, ys)) => {
            order_tells_same(a1.state, b1.state);
            order_tells_same_row(xs@, ys@, 0);
        },
        _ => {},
    }
}

/// Two rows come at the same place in the order exactly if they have the same states.
proof fn order_tells_same_row(xs: Seq<MachineInner>, ys: Seq<MachineInner>, i: nat)
    requires
        i <= xs.len(),
        i <= ys.len(),
    ensures
        order_of_rows(xs, ys, i) == Order::Same <==> {
            &&& xs.len() == ys.len()
            &&& forall|k: int|
                i <= k < xs.len() ==> same_state((#[trigger] xs[k]).state, ys[k].state)
        },
    decreases xs, xs.len() - i,
{
    if i < xs.len() && i < ys.len() {
        order_tells_same(xs[i as int].state, ys[i as int].state);
        order_tells_same_row(xs, ys, i + 1);
    }
}

/// The order of two states is that of the second to the first turned around.
pub proof fn order_turned(a: State, b: State)
    ensures
        order_of_states(b, a) == order_of_states(a, b).turned(),
    decreases a, 0int,
{
    match (a, b) {
        (State::Pair(a1, a2), State::Pair(b1, b2)) => {
            order_turned(a1.state, b1.state);
            order_turned(a2.state, b2.state);
        },
        (State::Heap(xs), State::Heap(ys)) => {
            order_turned_row(xs@, ys@, 0);
        },
        (State::Concat(a1, xs), State::Concat(b1, ys)) => {
            order_turned(a1.state, b1.state);
            order_turned_row(xs@, ys@, 0);
        },
        _ => {},
    }
}

/// The order of two rows is that of the second to the first turned around.
proof fn order_turned_row(xs: Seq<MachineInner>, ys: Seq<MachineInner>, i: nat)
    ensures
        order_of_rows(ys, xs, i) == order_of_rows(xs, ys, i).turned(),
    decreases xs, xs.len() - i,
{
    if i < xs.len() && i < ys.len() {
        order_turned(xs[i as int].state, ys[i as int].state);
        order_turned_row(xs, ys, i + 1);
    }
}

/// The order of the first of three things to the last, if neither the first comes after the
/// second nor the second after the last.
pub open spec fn chained(first: Order, second: Order) -> Order {
    if first == Order::Same {
        second
    } else {
        first
    }
}

/// A state that comes before or with a second one, which comes before or with a third one,
/// comes before or with the third one.
pub proof fn order_chained(a: State, b: State, c: State)
    requires
        order_of_states(a, b) != Order::After,
        order_of_states(b, c) != Order::After,
    ensures
        order_of_states(a, c) == chained(order_of_states(a, b), order_of_states(b, c)),
    decreases a, 0int,
{
    match (a, b, c) {
        (State::Pair(a1, a2), State::Pair(b1, b2), State::Pair(c1, c2)) => {
            order_chained(a1.state, b1.state, c1.state);
            if order_of_states(a1.state, b1.state) == Order::Same && order_of_states(
                b1.state,
                c1.state,
            ) == Order::Same {
                order_chained(a2.state, b2.state, c2.state);
            }
        },
        (State::Heap(xs), State::Heap(ys), State::Heap(zs)) => {
            order_chained_row(xs@, ys@, zs@, 0);
        },
        (State::Concat(a1, xs), State::Concat(b1, ys), State::Concat(c1, zs)) => {
            order_chained(a1.state, b1.state, c1.state);
            if order_of_states(a1.state, b1.state) == Order::Same && order_of_states(
                b1.state,
                c1.state,
            ) == Order::Same {
                order_chained_row(xs@, ys@, zs@, 0);
            }
        },
        _ => {},
    }
}

/// A row that comes before or with a second one, which comes before or with a third one, comes
/// before or with the third one.
proof fn order_chained_row(
    xs: Seq<MachineInner>,
    ys: Seq<MachineInner>,
    zs: Seq<MachineInner>,
    i: nat,
)
    requires
        i <= xs.len(),
        i <= ys.len(),
        i <= zs.len(),
        order_of_rows(xs, ys, i) != Order::After,
        order_of_rows(ys, zs, i) != Order::After,
    ensures
        order_of_rows(xs, zs, i) == chained(order_of_rows(xs, ys, i), order_of_rows(ys, zs, i)),
    decreases xs, xs.len() - i,
{
    if i < xs.len() && i < ys.len() && i < zs.len() {
        let k = i as int;
        order_chained(xs[k].state, ys[k].state, zs[k].state);
        if order_of_states(xs[k].state, ys[k].state) == Order::Same && order_of_states(
            ys[k].state,
            zs[k].state,
        ) == Order::Same {
            order_chained_row(xs, ys, zs, i + 1);
        }
    }
}

/// Whether the states of machines are in order, with no two the same.
#[verifier::opaque]
pub open spec fn in_order(heap: Seq<MachineInner>) -> bool {
    forall|i: int, j: int|
        0 <= i < j < heap.len() ==> order_of_states(
            #[trigger] heap[i].state,
            #[trigger] heap[j].state,
        ) == Order::Before
}

/// One machine is in order.
pub(crate) proof fn few_in_order(heap: Seq<MachineInner>)
    requires
        heap.len() <= 1,
    ensures
        in_order(heap),
{
    reveal(in_order);
}

/// No two machines that are in order are in the same state.
pub proof fn in_order_differ(heap: Seq<MachineInner>, i: int, j: int)
    requires
        in_order(heap),
        0 <= i < heap.len(),
        0 <= j < heap.len(),
        i != j,
    ensures
        !same_state(heap[i].state, heap[j].state),
{
    reveal(in_order);
    order_tells_same(heap[i].state, heap[j].state);
    if j < i {
        order_turned(heap[j].state, heap[i].state);
    }
}

/// Whether the machines for parts that a machine has, and those that they have in turn, are in
/// order, with no two in the same state.
#[verifier::opaque]
pub open spec fn tidy(s: State) -> bool
    decreases s,
{
    match s {
        State::Pair(m1, m2) => tidy(m1.state) && tidy(m2.state),
        State::Heap(heap) => in_order(heap@) && forall|i: int|
            0 <= i < heap@.len() ==> tidy((#[trigger] heap@[i]).state),
        State::Concat(m, heap) => tidy(m.state) && in_order(heap@) && forall|i: int|
            0 <= i < heap@.len() ==> tidy((#[trigger] heap@[i]).state),
        _ => true,
    }
}

/// Whether the machines for parts that machines have are in order.
pub open spec fn all_tidy(heap: Seq<MachineInner>) -> bool {
    forall|i: int| 0 <= i < heap.len() ==> tidy((#[trigger] heap[i]).state)
}

/// What it is for a machine that its machines for parts are in order.
pub(crate) proof fn tidy_opened(s: State)
    ensures
        tidy(s) <==> match s {
            State::Pair(m1, m2) => tidy(m1.state) && tidy(m2.state),
            State::Heap(heap) => in_order(heap@) && all_tidy(heap@),
            State::Concat(m, heap) => tidy(m.state) && in_order(heap@) && all_tidy(heap@),
            _ => true,
        },
{
    reveal(tidy);
}

/// Whether there is a machine among `heap` in the same state as `m` that started no later.
pub open spec fn kept(heap: Seq<MachineInner>, m: MachineInner) -> bool {
    exists|i: int|
        0 <= i < heap.len() && same_state(m.state, (#[trigger] heap[i]).state) && heap[i].start
            <= m.start
}

/// A state is the same as itself.
pub(crate) proof fn same_state_reflexive(s: State)
    ensures
        same_state(s, s),
    decreases s,
{
    match s {
        State::Pair(a1, a2) => {
            same_state_reflexive(a1.state);
            same_state_reflexive(a2.state);
        },
        State::Heap(xs) => {
            assert forall|i: int| 0 <= i < xs@.len() implies same_state(
                (#[trigger] xs@[i]).state,
                xs@[i].state,
            ) by {
                same_state_reflexive(xs@[i].state);
            }
        },
        State::Concat(a1, xs) => {
            same_state_reflexive(a1.state);
            assert forall|i: int| 0 <= i < xs@.len() implies same_state(
                (#[trigger] xs@[i]).state,
                xs@[i].state,
            ) by {
                same_state_reflexive(xs@[i].state);
            }
        },
        _ => {},
    }
}

/// The order in which two states are compared for sameness does not matter.
pub(crate) proof fn same_state_symmetric(a: State, b: State)
    requires
        same_state(a, b),
    ensures
        same_state(b, a),
    decreases a,
{
    match (a, b) {
        (State::Pair(a1, a2), State::Pair(b1, b2)) => {
            same_state_symmetric(a1.state, b1.state);
            same_state_symmetric(a2.state, b2.state);
        },
        (State::Heap(xs), State::Heap(ys)) => {
            assert forall|i: int| 0 <= i < ys@.len() implies same_state(
                (#[trigger] ys@[i]).state,
                xs@[i].state,
            ) by {
                same_state_symmetric(xs@[i].state, ys@[i].state);
            }
        },
        (State::Concat(a1, xs), State::Concat(b1, ys)) => {
            same_state_symmetric(a1.state, b1.state);
            assert forall|i: int| 0 <= i < ys@.len() implies same_state(
                (#[trigger] ys@[i]).state,
                xs@[i].state,
            ) by {
                same_state_symmetric(xs@[i].state, ys@[i].state);
            }
        },
        _ => {},
    }
}

/// Machines that are in order stay so with one more, put where it does not come after others,
/// or put in place of one in the same state.
proof fn put_in_order(heap: Seq<MachineInner>, i: int, m: MachineInner)
    requires
        in_order(heap),
        is_place(heap, m.state, i),
    ensures
        i < heap.len() && order_of_states(heap[i].state, m.state) == Order::Same ==> in_order(
            heap.update(i, m),
        ),
        i == heap.len() || order_of_states(heap[i].state, m.state) == Order::After ==> in_order(
            heap.insert(i, m),
        ),
{
    reveal(in_order);
    if i < heap.len() {
        order_turned(heap[i].state, m.state);
        assert forall|j: int| i < j < heap.len() implies order_of_states(
            m.state,
            (#[trigger] heap[j]).state,
        ) == Order::Before by {
            order_chained(m.state, heap[i].state, heap[j].state);
        }
    }
    let more = heap.insert(i, m);
    assert forall|j: int, k: int| 0 <= j < k < more.len() && (i == heap.len() || order_of_states(
        heap[i].state,
        m.state,
    ) == Order::After) implies order_of_states(
        #[trigger] more[j].state,
        #[trigger] more[k].state,
    ) == Order::Before by {
        let a = if j > i {
            j - 1
        } else {
            j
        };
        let b = if k > i {
            k - 1
        } else {
            k
        };
        if j != i {
            assert(more[j] == heap[a]);
        }
        if k != i {
            assert(more[k] == heap[b]);
        }
    }
}

/// Whether `i` is the place of the state `s` in the order of the states of machines: those
/// before it come before `s`, and the one there, if there is one, does not.
pub open spec fn is_place(heap: Seq<MachineInner>, s: State, i: int) -> bool {
    &&& 0 <= i <= heap.len()
    &&& forall|j: int|
        0 <= j < i ==> order_of_states((#[trigger] heap[j]).state, s) == Order::Before
    &&& i < heap.len() ==> order_of_states(heap[i].state, s) != Order::Before
}

/// The place of a state in the order of the states of machines, and whether the machine there
/// is in the same state.
fn place_of(heap: &Vec<MachineInner>, s: &State) -> (r: (usize, bool))
    ensures
        is_place(heap@, *s, r.0 as int),
        r.1 <==> r.0 < heap@.len() && same_state(heap@[r.0 as int].state, *s),
{
    let mut i: usize = 0;
    while i < heap.len()
        invariant
            i <= heap@.len(),
            forall|j: int|
                0 <= j < i ==> order_of_states((#[trigger] heap@[j]).state, *s) == Order::Before,
        decreases heap@.len() - i,
    {
        let order = state_order(&heap[i].state, s);
        if order != Order::Before {
            proof {
                order_tells_same(heap@[i as int].state, *s);
            }
            return (i, order == Order::Same);
        }
        i = i + 1;
    }
    (i, false)
}

/// Whether `after` are the machines of `before` and `m`, in order, where of machines in the same
/// state the one that started first stays.
pub open spec fn is_kept(
    before: Seq<MachineInner>,
    after: Seq<MachineInner>,
    m: MachineInner,
) -> bool {
    &&& in_order(after)
    &&& kept(after, m)
    &&& forall|i: int| 0 <= i < before.len() ==> kept(after, #[trigger] before[i])
    &&& forall|j: int|
        0 <= j < after.len() ==> #[trigger] after[j] == m || before.contains(after[j])
}

/// A machine put in place of one in the same state that started no earlier.
proof fn put_in_place(heap: Seq<MachineInner>, i: int, m: MachineInner)
    requires
        in_order(heap),
        is_place(heap, m.state, i),
        i < heap.len(),
        same_state(heap[i].state, m.state),
        m.start <= heap[i].start,
    ensures
        is_kept(heap, heap.update(i, m), m),
{
    put_in_order(heap, i, m);
    order_tells_same(heap[i].state, m.state);
    same_state_reflexive(m.state);
    let more = heap.update(i, m);
    assert(more[i] == m);
    assert forall|j: int| 0 <= j < heap.len() implies kept(more, #[trigger] heap[j]) by {
        same_state_reflexive(heap[j].state);
        if j != i {
            assert(more[j] == heap[j]);
        }
    }
    assert forall|j: int| 0 <= j < more.len() implies #[trigger] more[j] == m || heap.contains(
        more[j],
    ) by {
        if j != i {
            assert(more[j] == heap[j]);
        }
    }
}

/// A machine left out where there is one in the same state that started no later.
proof fn put_nowhere(heap: Seq<MachineInner>, i: int, m: MachineInner)
    requires
        in_order(heap),
        0 <= i < heap.len(),
        same_state(heap[i].state, m.state),
        heap[i].start <= m.start,
    ensures
        is_kept(heap, heap, m),
{
    same_state_symmetric(heap[i].state, m.state);
    assert forall|j: int| 0 <= j < heap.len() implies kept(heap, #[trigger] heap[j]) by {
        same_state_reflexive(heap[j].state);
    }
}

/// A machine put among machines that are in other states.
proof fn put_between(heap: Seq<MachineInner>, i: int, m: MachineInner)
    requires
        in_order(heap),
        is_place(heap, m.state, i),
        i < heap.len() ==> !same_state(heap[i].state, m.state),
    ensures
        is_kept(heap, heap.insert(i, m), m),
{
    if i < heap.len() {
        order_tells_same(heap[i].state, m.state);
    }
    put_in_order(heap, i, m);
    same_state_reflexive(m.state);
    let more = heap.insert(i, m);
    assert(more[i] == m);
    assert forall|j: int| 0 <= j < heap.len() implies kept(more, #[trigger] heap[j]) by {
        same_state_reflexive(heap[j].state);
        if j < i {
            assert(more[j] == heap[j]);
        } else {
            assert(more[j + 1] == heap[j]);
        }
    }
    assert forall|j: int| 0 <= j < more.len() implies #[trigger] more[j] == m || heap.contains(
        more[j],
    ) by {
        if j < i {
            assert(more[j] == heap[j]);
        } else if j > i {
            assert(more[j] == heap[j - 1]);
        }
    }
}

/// Puts a machine among others in the order of their states. Of two machines in the same
/// state the one that started first stays.
pub(crate) fn keep(heap: &mut Vec<MachineInner>, m: MachineInner)
    requires
        in_order(old(heap)@),
    ensures
        is_kept(old(heap)@, final(heap)@, m),
{
    let ghost before = heap@;
    let (i, same) = place_of(heap, &m.state);
    if same {
        if m.start < heap[i].start {
            proof {
                put_in_place(before, i as int, m);
            }
            heap.set(i, m);
        } else {
            proof {
                put_nowhere(before, i as int, m);
            }
        }
    } else {
        proof {
            put_between(before, i as int, m);
        }
        heap.insert(i, m);
    }
}

/// What the machines of a heap tell of the parts, each on the pattern `q`, that they read.
pub open spec fn heap_verdict(q: Pattern, p: Pattern, w: Seq<char>) -> Option<bool> {
    if exists|k: int| #[trigger] live(p, w, k) && verdict(q, w.skip(k)) == Some(true) {
        Some(true)
    } else if exists|k: int| #[trigger] live(p, w, k) && verdict(q, w.skip(k)) is Some {
        Some(false)
    } else {
        None
    }
}

/// The machines of a heap are in states in which machines can be.
pub(crate) proof fn heap_possible(
    heap: Seq<MachineInner>,
    q: Pattern,
    p: Pattern,
    w: Seq<char>,
    limit: int,
)
    requires
        heap_for(heap, q, p, w, None),
        w.len() <= limit,
    ensures
        forall|i: int| 0 <= i < heap.len() ==> possible((#[trigger] heap[i]).state, q, limit),
{
    assert forall|i: int| 0 <= i < heap.len() implies possible(
        (#[trigger] heap[i]).state,
        q,
        limit,
    ) by {
        let k = heap_source(heap, q, p, w, None, i);
        assert(stands_for(heap[i].state, q, w.skip(k)));
    }
}

/// What a heap has to tell of the parts is told by one of its machines.
pub(crate) proof fn heap_tells(
    heap: Seq<MachineInner>,
    told: Seq<Option<bool>>,
    q: Pattern,
    p: Pattern,
    w: Seq<char>,
)
    requires
        heap_for(heap, q, p, w, None),
        told.len() == heap.len(),
        forall|i: int, u: Seq<char>|
            0 <= i < heap.len() && #[trigger] stands_for(heap[i].state, q, u) ==> told[i]
                == verdict(q, u),
    ensures
        (exists|i: int| 0 <= i < told.len() && #[trigger] told[i] == Some(true)) <==> heap_verdict(
            q,
            p,
            w,
        ) == Some(true),
        (exists|i: int| 0 <= i < told.len() && (#[trigger] told[i]) is Some) <==> heap_verdict(
            q,
            p,
            w,
        ) is Some,
{
    if exists|i: int| 0 <= i < told.len() && #[trigger] told[i] == Some(true) {
        let i = choose|i: int| 0 <= i < told.len() && #[trigger] told[i] == Some(true);
        let k = heap_source(heap, q, p, w, None, i);
        assert(live(p, w, k));
    }
    if exists|i: int| 0 <= i < told.len() && (#[trigger] told[i]) is Some {
        let i = choose|i: int| 0 <= i < told.len() && (#[trigger] told[i]) is Some;
        let k = heap_source(heap, q, p, w, None, i);
        assert(live(p, w, k));
    }
    if exists|k: int| #[trigger] live(p, w, k) && verdict(q, w.skip(k)) == Some(true) {
        let k = choose|k: int| #[trigger] live(p, w, k) && verdict(q, w.skip(k)) == Some(true);
        let i = heap_cover(heap, q, p, w, None, k);
        assert(told[i] == Some(true));
    }
    if exists|k: int| #[trigger] live(p, w, k) && verdict(q, w.skip(k)) is Some {
        let k = choose|k: int| #[trigger] live(p, w, k) && verdict(q, w.skip(k)) is Some;
        let i = heap_cover(heap, q, p, w, None, k);
        assert(told[i] is Some);
    }
}

/// The verdict of a machine with a heap, by what its heap tells.
pub(crate) proof fn verdict_by_heap(p: Pattern, w: Seq<char>)
    ensures
        match p {
            Pattern::Concat(p1, p2) => verdict(p, w) == match heap_verdict(*p2, p, w) {
                Some(b) => Some(b),
                None => if verdict(*p1, w) is Some {
                    Some(false)
                } else {
                    None
                },
            },
            Pattern::Repeat(q) => w.len() > 0 ==> verdict(p, w) == heap_verdict(*q, p, w),
            Pattern::Repeat1(q) => verdict(p, w) == heap_verdict(*q, p, w),
            _ => true,
        },
{
    reveal(verdict);
    reveal(live);
    match p {
        Pattern::Concat(p1, p2) => {
            assert forall|k: int| #[trigger]
                splits(*p1, w, k) && verdict(*p2, w.skip(k)) is Some implies live(p, w, k) by {
                if halted(*p2, w.skip(k)) {
                    halted_verdict(*p2, w.skip(k));
                }
            }
        },
        Pattern::Repeat(q) | Pattern::Repeat1(q) => {
            assert forall|k: int| #[trigger]
                starts(*q, w, k) && verdict(*q, w.skip(k)) is Some implies live(p, w, k) by {
                if halted(*q, w.skip(k)) {
                    halted_verdict(*q, w.skip(k));
                }
            }
            if w.len() == 0 {
                assert(live(Pattern::Repeat1(q), w, 0));
                assert(w.skip(0) =~= w);
            }
        },
        _ => {},
    }
}

/// Whether the machines in the state `s` for the second part of what a machine on the pattern
/// `p` reads that has read `w` started at the places that are marked.
pub open spec fn labelled(s: State, p: Pattern, w: Seq<char>, marks: Seq<usize>) -> bool {
    &&& marks.len() == w.len() + 1
    &&& match (p, s) {
        (Pattern::Concat(_, p2), State::Concat(_, heap)) => heap_for(
            heap@,
            *p2,
            p,
            w,
            Some(marks),
        ),
        _ => true,
    }
}

/// The heap of a machine that has read nothing: a machine that has read nothing, where there
/// is to be one.
pub(crate) proof fn started_heap(
    heap: Seq<MachineInner>,
    q: Pattern,
    p: Pattern,
    marks: Option<Seq<usize>>,
)
    requires
        match p {
            Pattern::Concat(p1, p2) => {
                &&& q == *p2
                &&& heap.len() == if matches_text(*p1, Seq::empty()) {
                    1int
                } else {
                    0
                }
            },
            Pattern::Repeat1(p1) => q == *p1 && heap.len() == 1,
            _ => false,
        },
        heap.len() == 1 ==> stands_for(heap[0].state, q, Seq::empty()),
        heap.len() == 1 ==> marked(heap[0].start, marks, 0),
    ensures
        heap_for(heap, q, p, Seq::empty(), marks),
{
    reveal(live);
    reveal(repeats);
    let w = Seq::<char>::empty();
    assert(w.skip(0) =~= w);
    assert(w.take(0) =~= w);
    if heap.len() == 1 {
        assert(live(p, w, 0));
        sourced_by(heap[0], q, p, w, marks, 0);
        covered_by(heap, q, w, 0, marks, 0);
    }
    assert forall|k: int| #[trigger] live(p, w, k) implies covered(heap, q, w, k, marks) by {
        assert(k == 0);
    }
    heap_holds(heap, q, p, w, marks);
}

/// Whether a machine in the state `b` is what a machine in the state `a` on the pattern `q`
/// becomes when it reads `c`.
pub open spec fn reads(a: State, b: State, q: Pattern, c: char) -> bool {
    forall|u: Seq<char>| #[trigger] stands_for(a, q, u) ==> stands_for(b, q, u.push(c))
}

/// Whether `b` is what one of the machines of `heap` becomes that goes on when it reads `c`.
pub open spec fn came_from(b: MachineInner, heap: Seq<MachineInner>, q: Pattern, c: char) -> bool {
    exists|i: int|
        0 <= i < heap.len() && reads((#[trigger] heap[i]).state, b.state, q, c) && heap[i].start
            == b.start && !(b.state is Halt)
}

/// Whether `a` gives up when it reads `c`, or becomes one of the machines of `heap`, or one
/// in the same state as one of them that started no later.
pub open spec fn went_to(a: MachineInner, heap: Seq<MachineInner>, q: Pattern, c: char) -> bool {
    ||| forall|u: Seq<char>| #[trigger] stands_for(a.state, q, u) ==> halted(q, u.push(c))
    ||| exists|j: int|
        0 <= j < heap.len() && reads(a.state, (#[trigger] heap[j]).state, q, c) && heap[j].start
            <= a.start
}

/// A machine that went to one of the machines of `before` went to one of `after`, where these
/// are kept.
pub(crate) proof fn went_on(
    a: MachineInner,
    before: Seq<MachineInner>,
    after: Seq<MachineInner>,
    q: Pattern,
    c: char,
)
    requires
        went_to(a, before, q, c),
        forall|j: int| 0 <= j < before.len() ==> kept(after, #[trigger] before[j]),
    ensures
        went_to(a, after, q, c),
{
    if exists|j: int|
        0 <= j < before.len() && reads(a.state, (#[trigger] before[j]).state, q, c)
            && before[j].start <= a.start {
        let j = choose|j: int|
            0 <= j < before.len() && reads(a.state, (#[trigger] before[j]).state, q, c)
                && before[j].start <= a.start;
        assert(kept(after, before[j]));
        let i = choose|i: int|
            0 <= i < after.len() && same_state(before[j].state, (#[trigger] after[i]).state)
                && after[i].start <= before[j].start;
        assert(reads(a.state, after[i].state, q, c)) by {
            assert forall|u: Seq<char>| #[trigger] stands_for(a.state, q, u) implies stands_for(
                after[i].state,
                q,
                u.push(c),
            ) by {
                same_stands(before[j].state, after[i].state, q, u.push(c));
            }
        }
    }
}

/// The machine for the part that starts at `k`, once it has read one more character.
pub(crate) proof fn part_goes_on(
    heap: Seq<MachineInner>,
    next: Seq<MachineInner>,
    q: Pattern,
    p: Pattern,
    w: Seq<char>,
    c: char,
    marks: Option<Seq<usize>>,
    more: Option<Seq<usize>>,
    k: int,
)
    requires
        heap_for(heap, q, p, w, marks),
        forall|i: int| 0 <= i < heap.len() ==> went_to(#[trigger] heap[i], next, q, c),
        live(p, w, k),
        0 <= k <= w.len(),
        !halted(q, w.push(c).skip(k)),
        marks is Some <==> more is Some,
        marks is Some ==> marks->0[k] == more->0[k],
    ensures
        covered(next, q, w.push(c), k, more),
{
    let v = w.push(c);
    assert(v.skip(k) =~= w.skip(k).push(c));
    let i = heap_cover(heap, q, p, w, marks, k);
    assert(went_to(heap[i], next, q, c));
    assert(stands_for(heap[i].state, q, w.skip(k)));
    let j = choose|j: int|
        0 <= j < next.len() && reads(heap[i].state, (#[trigger] next[j]).state, q, c)
            && next[j].start <= heap[i].start;
    assert(stands_for(next[j].state, q, v.skip(k)));
    covered_by(next, q, v, k, more, j);
}

/// Where a machine that has read one more character started.
pub(crate) proof fn part_came_from(
    heap: Seq<MachineInner>,
    b: MachineInner,
    q: Pattern,
    p: Pattern,
    w: Seq<char>,
    c: char,
    marks: Option<Seq<usize>>,
) -> (k: int)
    requires
        heap_for(heap, q, p, w, marks),
        came_from(b, heap, q, c),
    ensures
        live(p, w, k),
        0 <= k <= w.len(),
        stands_for(b.state, q, w.push(c).skip(k)),
        !halted(q, w.push(c).skip(k)),
        marked(b.start, marks, k),
{
    let i = choose|i: int|
        0 <= i < heap.len() && reads((#[trigger] heap[i]).state, b.state, q, c) && heap[i].start
            == b.start && !(b.state is Halt);
    let k = heap_source(heap, q, p, w, marks, i);
    assert(w.push(c).skip(k) =~= w.skip(k).push(c));
    assert(stands_for(b.state, q, w.skip(k).push(c)));
    opened(b.state, q, w.skip(k).push(c));
    k
}

/// A heap of machines for the second part, once the machine has read one more character.
pub(crate) proof fn concat_step(
    heap: Seq<MachineInner>,
    next: Seq<MachineInner>,
    fresh: Option<MachineInner>,
    p: Pattern,
    w: Seq<char>,
    c: char,
    marks: Option<Seq<usize>>,
    more: Option<Seq<usize>>,
)
    requires
        p is Concat,
        heap_for(heap, *p->Concat_1, p, w, marks),
        forall|i: int| 0 <= i < heap.len() ==> went_to(#[trigger] heap[i], next, *p->Concat_1, c),
        forall|j: int|
            0 <= j < next.len() ==> came_from(#[trigger] next[j], heap, *p->Concat_1, c) || fresh
                == Some(next[j]),
        fresh is Some <==> matches_text(*p->Concat_0, w.push(c)),
        fresh matches Some(m) ==> {
            &&& stands_for(m.state, *p->Concat_1, Seq::empty())
            &&& kept(next, m)
            &&& marked(m.start, more, w.push(c).len() as int)
        },
        marks is Some <==> more is Some,
        marks is Some ==> forall|k: int|
            0 <= k <= w.len() ==> #[trigger] marks->0[k] == more->0[k],
    ensures
        heap_for(next, *p->Concat_1, p, w.push(c), more),
{
    let p1 = *p->Concat_0;
    let q = *p->Concat_1;
    let v = w.push(c);
    let n = v.len() as int;
    assert(v.skip(n) =~= Seq::empty());
    assert(v.take(n) =~= v);
    assert forall|j: int| 0 <= j < next.len() implies sourced(
        #[trigger] next[j],
        q,
        p,
        v,
        more,
    ) by {
        if came_from(next[j], heap, q, c) {
            let k = part_came_from(heap, next[j], q, p, w, c, marks);
            assert(v.take(k) =~= w.take(k));
            assert(live(p, v, k)) by {
                reveal(live);
            }
            sourced_by(next[j], q, p, v, more, k);
        } else {
            assert(live(p, v, n)) by {
                reveal(live);
            }
            sourced_by(next[j], q, p, v, more, n);
        }
    }
    assert forall|k: int| #[trigger] live(p, v, k) implies covered(next, q, v, k, more) by {
        assert(splits(p1, v, k) && (k == n || !halted(q, v.skip(k)))) by {
            reveal(live);
        }
        if k == n {
            let m = fresh->0;
            let i = choose|i: int|
                0 <= i < next.len() && same_state(m.state, (#[trigger] next[i]).state)
                    && next[i].start <= m.start;
            same_stands(m.state, next[i].state, q, v.skip(k));
            covered_by(next, q, v, k, more, i);
        } else {
            assert(v.take(k) =~= w.take(k));
            assert(v.skip(k) =~= w.skip(k).push(c));
            if k < w.len() && halted(q, w.skip(k)) {
                halted_push(q, w.skip(k), c);
            }
            assert(live(p, w, k)) by {
                reveal(live);
            }
            part_goes_on(heap, next, q, p, w, c, marks, more, k);
        }
    }
    heap_holds(next, q, p, v, more);
}

/// A machine with a machine for the first part and a heap for the second has given up once it
/// has read a character if neither goes on.
pub(crate) proof fn concat_halts(
    m1: MachineInner,
    heap: Seq<MachineInner>,
    p: Pattern,
    v: Seq<char>,
)
    requires
        p is Concat,
        v.len() > 0,
        stands_for(m1.state, *p->Concat_0, v),
        heap_for(heap, *p->Concat_1, p, v, None),
    ensures
        halted(p, v) <==> m1.state is Halt && heap.len() == 0,
{
    let q = *p->Concat_1;
    halted_by_live(p, v);
    opened(m1.state, *p->Concat_0, v);
    if heap.len() > 0 {
        let k = heap_source(heap, q, p, v, None, 0);
    } else {
        assert forall|k: int| !#[trigger] live(p, v, k) by {
            if live(p, v, k) {
                let i = heap_cover(heap, q, p, v, None, k);
            }
        }
    }
}

/// A heap for the last of a row of texts, once the machine has read one more character.
/// Before it is read, a machine is added to `heap` if what is read so far is such a row.
pub(crate) proof fn repeat_step(
    heap: Seq<MachineInner>,
    all: Seq<MachineInner>,
    next: Seq<MachineInner>,
    q: Pattern,
    p: Pattern,
    w: Seq<char>,
    c: char,
)
    requires
        p == Pattern::Repeat(Box::new(q)) && w.len() > 0 || p == Pattern::Repeat1(Box::new(q)),
        heap_for(heap, q, p, w, None),
        all == heap || (all.len() == heap.len() + 1 && all.drop_last() == heap && stands_for(
            all.last().state,
            q,
            Seq::empty(),
        ) && repeats(q, w)),
        w.len() > 0 && repeats(q, w) ==> all != heap,
        forall|i: int| 0 <= i < all.len() ==> went_to(#[trigger] all[i], next, q, c),
        forall|j: int| 0 <= j < next.len() ==> came_from(#[trigger] next[j], all, q, c),
    ensures
        heap_for(next, q, p, w.push(c), None),
        halted(p, w.push(c)) <==> next.len() == 0,
{
    let v = w.push(c);
    let n = w.len() as int;
    assert(v.skip(n) =~= Seq::<char>::empty().push(c));
    assert(v.take(n) =~= w);
    assert(w.take(n) =~= w);
    assert(forall|i: int| 0 <= i < heap.len() ==> heap[i] == all[i]);
    assert forall|j: int| 0 <= j < next.len() implies sourced(
        #[trigger] next[j],
        q,
        p,
        v,
        None,
    ) by {
        let i = choose|i: int|
            0 <= i < all.len() && reads((#[trigger] all[i]).state, next[j].state, q, c)
                && all[i].start == next[j].start && !(next[j].state is Halt);
        if i < heap.len() {
            assert(heap[i] == all[i]);
            assert(came_from(next[j], heap, q, c));
            let k = part_came_from(heap, next[j], q, p, w, c, None);
            assert(v.take(k) =~= w.take(k));
            assert(live(p, v, k)) by {
                reveal(live);
                reveal(repeats);
            }
            sourced_by(next[j], q, p, v, None, k);
        } else {
            assert(stands_for(next[j].state, q, Seq::<char>::empty().push(c)));
            opened(next[j].state, q, v.skip(n));
            assert(live(p, v, n)) by {
                reveal(live);
            }
            sourced_by(next[j], q, p, v, None, n);
        }
    }
    assert forall|k: int| #[trigger] live(p, v, k) implies covered(next, q, v, k, None) by {
        assert(starts(q, v, k) && !halted(q, v.skip(k))) by {
            reveal(live);
        }
        if k < n || n == 0 {
            assert(v.take(k) =~= w.take(k));
            assert(v.skip(k) =~= w.skip(k).push(c));
            if halted(q, w.skip(k)) {
                halted_push(q, w.skip(k), c);
            }
            assert(live(p, w, k)) by {
                reveal(live);
            }
            assert forall|i: int| 0 <= i < heap.len() implies went_to(
                #[trigger] heap[i],
                next,
                q,
                c,
            ) by {
                assert(heap[i] == all[i]);
            }
            part_goes_on(heap, next, q, p, w, c, None, None, k);
        } else {
            let m = all.last();
            assert(went_to(m, next, q, c));
            assert(stands_for(m.state, q, Seq::empty()));
            let j = choose|j: int|
                0 <= j < next.len() && reads(m.state, (#[trigger] next[j]).state, q, c)
                    && next[j].start <= m.start;
            assert(stands_for(next[j].state, q, v.skip(k)));
            covered_by(next, q, v, k, None, j);
        }
    }
    heap_holds(next, q, p, v, None);
    halted_by_live(p, v);
    if next.len() > 0 {
        let k = heap_source(next, q, p, v, None, 0);
    } else {
        assert forall|k: int| !#[trigger] live(p, v, k) by {
            if live(p, v, k) {
                let i = heap_cover(next, q, p, v, None, k);
            }
        }
    }
}

/// Whether `all` is `heap`, with a machine on the pattern `q` that has read nothing added if
/// `grows`.
pub open spec fn grown(
    heap: Seq<MachineInner>,
    all: Seq<MachineInner>,
    q: Pattern,
    grows: bool,
) -> bool {
    if grows {
        all.len() == heap.len() + 1 && all.drop_last() == heap && stands_for(
            all.last().state,
            q,
            Seq::empty(),
        )
    } else {
        all == heap
    }
}

/// The machines for the last of a row of texts, once they have read a character.
pub(crate) proof fn row_step(
    heap: Seq<MachineInner>,
    all: Seq<MachineInner>,
    next: Seq<MachineInner>,
    q: Pattern,
    p: Pattern,
    w: Seq<char>,
    c: char,
)
    requires
        p == Pattern::Repeat(Box::new(q)) && w.len() > 0 || p == Pattern::Repeat1(Box::new(q)),
        heap_for(heap, q, p, w, None),
        grown(heap, all, q, heap_verdict(q, p, w) == Some(true)),
        forall|i: int| 0 <= i < all.len() ==> went_to(#[trigger] all[i], next, q, c),
        forall|j: int| 0 <= j < next.len() ==> came_from(#[trigger] next[j], all, q, c),
    ensures
        heap_for(next, q, p, w.push(c), None),
        halted(p, w.push(c)) <==> next.len() == 0,
{
    verdict_by_heap(p, w);
    repeats_by_verdict(q, w);
    assert(w.len() > 0 ==> (verdict(p, w) == Some(true) <==> repeats(q, w))) by {
        reveal(verdict);
    }
    assert(w.len() == 0 ==> repeats(q, w)) by {
        reveal(repeats);
    }
    repeat_step(heap, all, next, q, p, w, c);
}

} // verus!
