//! A machine that reads a text character by character against a pattern.
use super::pattern::{
    halted, halted_push, halted_verdict, matches_text, repeats, splits, verdict,
    verdict_says_match, Pattern,
};
use super::state::{
    all_tidy, came_from, concat_halts, concat_step, covered, covered_by, few_in_order, grown,
    heap_cover, heap_for, heap_holds, heap_possible, heap_source, heap_tells, heap_verdict,
    in_order, in_order_differ, keep, labelled, live, opened, possible, reads, row_step, same_state,
    sourced_by, stands_for, started_heap, tidy, tidy_opened, verdict_by_heap, went_on, went_to,
    MachineInner, State,
};
use crate::big_int::{int_from, int_less, int_same};
use crate::sub_text::{
    byte_len, byte_len_grows, byte_len_push, char_len, chars_before_end, chars_before_take,
    substr_chars, substr_len, substr_range, substr_str,
};
use arcstr::Substr;
use vstd::prelude::*;
use vstd::set_lib::{lemma_int_range, lemma_len_subset, set_int_range};

verus! {

/// What two tell together: the better of what they tell.
fn better(a: Option<bool>, b: Option<bool>) -> (r: Option<bool>)
    ensures
        r == Some(true) <==> a == Some(true) || b == Some(true),
        r is Some <==> a is Some || b is Some,
{
    match (a, b) {
        (Some(true), _) => a,
        (None, _) => b,
        (_, None) => a,
        (_, b) => b,
    }
}

/// The best that the machines of a heap tell.
fn heap_accepts(heap: &Vec<MachineInner>, q: &Pattern, Ghost(p): Ghost<Pattern>) -> (r: Option<
    bool,
>)
    requires
        forall|i: int|
            0 <= i < heap@.len() ==> possible(
                (#[trigger] heap@[i]).state,
                *q,
                usize::MAX as int,
            ),
    ensures
        forall|w: Seq<char>| #[trigger]
            heap_for(heap@, *q, p, w, None) ==> r == heap_verdict(*q, p, w),
    decreases q, 1int,
{
    let mut best: Option<bool> = None;
    let ghost mut told: Seq<Option<bool>> = Seq::empty();
    let mut i: usize = 0;
    while i < heap.len()
        invariant
            i <= heap@.len(),
            told.len() == i,
            forall|j: int|
                0 <= j < heap@.len() ==> possible(
                    (#[trigger] heap@[j]).state,
                    *q,
                    usize::MAX as int,
                ),
            forall|j: int, u: Seq<char>|
                0 <= j < i && #[trigger] stands_for(heap@[j].state, *q, u) ==> told[j] == verdict(
                    *q,
                    u,
                ),
            (exists|j: int| 0 <= j < told.len() && #[trigger] told[j] == Some(true)) <==> best
                == Some(true),
            (exists|j: int| 0 <= j < told.len() && (#[trigger] told[j]) is Some) <==> best is Some,
        decreases heap@.len() - i,
    {
        let next = heap[i].accepts(q);
        let ghost before = told;
        proof {
            told = told.push(next);
            assert(told[i as int] == next);
            assert(forall|j: int| 0 <= j < i ==> told[j] == before[j]);
        }
        best = better(best, next);
        i = i + 1;
    }
    assert forall|w: Seq<char>| #[trigger] heap_for(heap@, *q, p, w, None) implies best
        == heap_verdict(*q, p, w) by {
        heap_tells(heap@, told, *q, p, w);
    }
    best
}

/// What the machine in a state without machines in it that has read `w` tells.
proof fn leaf_verdict(s: State, p: Pattern, w: Seq<char>)
    requires
        stands_for(s, p, w),
    ensures
        match (p, s) {
            (_, State::Halt) => verdict(p, w) is None,
            (Pattern::All, State::Init) => verdict(p, w) == Some(true),
            (Pattern::Empty, State::Init) => verdict(p, w) == Some(true),
            (Pattern::Length(n), State::Index(i)) => verdict(p, w) == Some(
                crate::big_int::int_value(n) == i,
            ),
            (Pattern::Str(t), State::Index(i)) => verdict(p, w) == Some(
                byte_len(substr_chars(t)) == i,
            ),
            (Pattern::One(_), State::Index(i)) => verdict(p, w) == Some(i == 1),
            (Pattern::Non(_), State::Index(i)) => verdict(p, w) == Some(i == 1),
            (Pattern::Repeat(_), State::Init) => verdict(p, w) == Some(true),
            _ => true,
        },
{
    opened(s, p, w);
    if s is Halt {
        halted_verdict(p, w);
    } else {
        reveal(halted);
        reveal(verdict);
        if let Pattern::Str(text) = p {
            let t = substr_chars(text);
            assert(t.take(t.len() as int) =~= t);
            assert(w =~= t.take(w.len() as int));
            if w.len() < t.len() {
                byte_len_grows(t, w.len() as int, t.len() as int);
            }
        }
    }
}

/// What a machine in a state without machines in it becomes when it reads `c`.
pub open spec fn leaf_next(s: State, next: State, p: Pattern, c: char) -> bool {
    match (p, s) {
        (_, State::Halt) => next is Halt,
        (Pattern::All, State::Init) => next is Init,
        (Pattern::Empty, State::Init) => next is Halt,
        (Pattern::Length(n), State::Index(i)) => if i < crate::big_int::int_value(n) {
            next == State::Index((i + 1) as usize)
        } else {
            next is Halt
        },
        (Pattern::One(class), State::Index(i)) => if i == 0 && class.has(c) {
            next == State::Index(1)
        } else {
            next is Halt
        },
        (Pattern::Non(class), State::Index(i)) => if i == 0 && !class.has(c) {
            next == State::Index(1)
        } else {
            next is Halt
        },
        _ => false,
    }
}

/// The state that a machine comes to is that of a machine that has read one more character.
proof fn leaf_step(s: State, next: State, p: Pattern, w: Seq<char>, c: char)
    requires
        stands_for(s, p, w),
        leaf_next(s, next, p, c),
        s matches State::Index(i) ==> i < usize::MAX,
    ensures
        stands_for(next, p, w.push(c)),
{
    opened(s, p, w);
    opened(next, p, w.push(c));
    if s is Halt {
        halted_push(p, w, c);
    } else {
        reveal(halted);
        reveal(verdict);
    }
}

/// The place in a text after the character `ch`, if that stands at the place `i`, where the
/// text `some` ends with which it starts.
fn next_index(text: &Substr, i: usize, ch: char, Ghost(some): Ghost<Seq<char>>) -> (r: Option<
    usize,
>)
    requires
        some.is_prefix_of(substr_chars(*text)),
        byte_len(some) == i,
    ensures
        forall|w: Seq<char>| #[trigger]
            w.is_prefix_of(substr_chars(*text)) && byte_len(w) == i ==> match r {
                Some(j) => w.push(ch).is_prefix_of(substr_chars(*text)) && byte_len(w.push(ch))
                    == j,
                None => !w.push(ch).is_prefix_of(substr_chars(*text)),
            },
{
    let ghost t = substr_chars(*text);
    let ghost n = some.len() as int;
    proof {
        assert(some =~= t.take(n));
        chars_before_take(t, n);
        chars_before_end(t);
        if n < t.len() {
            byte_len_grows(t, n, t.len() as int);
        }
        assert(t.take(t.len() as int) =~= t);
        assert forall|w: Seq<char>| #[trigger] w.is_prefix_of(t) && byte_len(w) == i implies w
            == some by {
            let k = w.len() as int;
            assert(w =~= t.take(k));
            if k < n {
                byte_len_grows(t, k, n);
            } else if n < k {
                byte_len_grows(t, n, k);
            }
        }
    }
    let rest = substr_range(text, i, substr_len(text));
    let rest_text = substr_str(&rest);
    assert(rest_text@ =~= t.skip(n));
    if !rest_text.is_empty() && rest_text.get_char(0) == ch {
        proof {
            assert(some.push(ch) =~= t.take(n + 1));
            byte_len_push(some, ch);
            if n + 1 < t.len() {
                byte_len_grows(t, n + 1, t.len() as int);
            }
        }
        Some(i + char_len(ch))
    } else {
        assert(some.push(ch)[n] == ch);
        None
    }
}

/// The state that a machine on a text comes to is that of one that has read one more
/// character.
proof fn text_step(s: State, next: State, p: Pattern, w: Seq<char>, c: char)
    requires
        p is Str,
        stands_for(s, p, w),
        s is Index,
        match next {
            State::Index(j) => w.push(c).is_prefix_of(substr_chars(p->Str_0)) && byte_len(
                w.push(c),
            ) == j,
            State::Halt => !w.push(c).is_prefix_of(substr_chars(p->Str_0)),
            _ => false,
        },
    ensures
        stands_for(next, p, w.push(c)),
{
    opened(s, p, w);
    opened(next, p, w.push(c));
    reveal(halted);
    reveal(verdict);
}

impl MachineInner {
    /// A machine on the pattern `pattern` that has read nothing.
    pub(crate) fn start(pattern: &Pattern, start: usize) -> (r: MachineInner)
        ensures
            r.start == start,
            stands_for(r.state, *pattern, Seq::empty()),
            labelled(r.state, *pattern, Seq::empty(), seq![start]),
            tidy(r.state),
        decreases pattern,
    {
        let ghost w = Seq::<char>::empty();
        let state = match pattern {
            Pattern::Nil => State::Halt,
            Pattern::All => State::Init,
            Pattern::Empty => State::Init,
            Pattern::Length(_) => State::Index(0),
            Pattern::Str(_) => State::Index(0),
            Pattern::One(_) => State::Index(0),
            Pattern::Non(_) => State::Index(0),
            Pattern::Concat(p1, p2) => {
                let prefix = MachineInner::start(p1, start);
                let mut suffixes: Vec<MachineInner> = Vec::new();
                let accepts = prefix.accepts(p1);
                if accepts == Some(true) {
                    suffixes.push(MachineInner::start(p2, start));
                }
                proof {
                    verdict_says_match(**p1, w);
                    started_heap(suffixes@, **p2, *pattern, Some(seq![start]));
                    started_heap(suffixes@, **p2, *pattern, None);
                    few_in_order(suffixes@);
                }
                State::Concat(Box::new(prefix), suffixes)
            },
            Pattern::And(p1, p2) => State::Pair(
                Box::new(MachineInner::start(p1, start)),
                Box::new(MachineInner::start(p2, start)),
            ),
            Pattern::Or(p1, p2) => State::Pair(
                Box::new(MachineInner::start(p1, start)),
                Box::new(MachineInner::start(p2, start)),
            ),
            Pattern::Repeat(_) => State::Init,
            Pattern::Repeat1(p) => {
                let mut heap: Vec<MachineInner> = Vec::new();
                heap.push(MachineInner::start(p, start));
                proof {
                    started_heap(heap@, **p, *pattern, None);
                    few_in_order(heap@);
                }
                State::Heap(heap)
            },
        };
        proof {
            opened(state, *pattern, w);
            reveal(halted);
            reveal(verdict);
            tidy_opened(state);
        }
        MachineInner { state, start }
    }

    /// What the machine tells of what it has read: that it matches, that it does not as it
    /// stands, or that nothing that starts with it does.
    pub(crate) fn accepts(&self, pattern: &Pattern) -> (r: Option<bool>)
        requires
            possible(self.state, *pattern, usize::MAX as int),
        ensures
            forall|w: Seq<char>| #[trigger]
                stands_for(self.state, *pattern, w) ==> r == verdict(*pattern, w),
        decreases pattern, 0int,
    {
        let ghost some = choose|w: Seq<char>|
            w.len() <= usize::MAX && #[trigger] stands_for(self.state, *pattern, w);
        proof {
            opened(self.state, *pattern, some);
            assert forall|w: Seq<char>| #[trigger]
                stands_for(self.state, *pattern, w) && !(self.state is Pair || self.state is Heap
                    || self.state is Concat) implies verdict(*pattern, w) == verdict(
                *pattern,
                some,
            ) by {
                leaf_verdict(self.state, *pattern, w);
                leaf_verdict(self.state, *pattern, some);
            }
            leaf_verdict(self.state, *pattern, some);
        }
        match (pattern, &self.state) {
            (_, State::Halt) => None,
            (Pattern::All, State::Init) => Some(true),
            (Pattern::Empty, State::Init) => Some(true),
            (Pattern::Length(n), State::Index(i)) => Some(int_same(n, &int_from(*i))),
            (Pattern::Str(s), State::Index(i)) => Some(substr_len(s) == *i),
            (Pattern::One(_), State::Index(i)) => Some(*i == 1),
            (Pattern::Non(_), State::Index(i)) => Some(*i == 1),
            (Pattern::Concat(p1, p2), State::Concat(m1, heap)) => {
                proof {
                    heap_possible(heap@, **p2, *pattern, some, usize::MAX as int);
                }
                let second = heap_accepts(heap, p2, Ghost(*pattern));
                let first = m1.accepts(p1);
                let r = match second {
                    Some(b) => Some(b),
                    None => match first {
                        Some(_) => Some(false),
                        None => None,
                    },
                };
                assert forall|w: Seq<char>| #[trigger] stands_for(
                    self.state,
                    *pattern,
                    w,
                ) implies r == verdict(*pattern, w) by {
                    opened(self.state, *pattern, w);
                    verdict_by_heap(*pattern, w);
                }
                r
            },
            (Pattern::And(p1, p2), State::Pair(m1, m2)) => {
                let r = match (m1.accepts(p1), m2.accepts(p2)) {
                    (Some(a1), Some(a2)) => Some(a1 && a2),
                    _ => None,
                };
                assert forall|w: Seq<char>| #[trigger] stands_for(
                    self.state,
                    *pattern,
                    w,
                ) implies r == verdict(*pattern, w) by {
                    opened(self.state, *pattern, w);
                    reveal(verdict);
                }
                r
            },
            (Pattern::Or(p1, p2), State::Pair(m1, m2)) => {
                let r = match (m1.accepts(p1), m2.accepts(p2)) {
                    (Some(a1), Some(a2)) => Some(a1 || a2),
                    (None, a) => a,
                    (a, None) => a,
                };
                assert forall|w: Seq<char>| #[trigger] stands_for(
                    self.state,
                    *pattern,
                    w,
                ) implies r == verdict(*pattern, w) by {
                    opened(self.state, *pattern, w);
                    reveal(verdict);
                }
                r
            },
            (Pattern::Repeat(_), State::Init) => Some(true),
            (Pattern::Repeat(p), State::Heap(heap)) => {
                proof {
                    heap_possible(heap@, **p, *pattern, some, usize::MAX as int);
                }
                let r = heap_accepts(heap, p, Ghost(*pattern));
                assert forall|w: Seq<char>| #[trigger] stands_for(
                    self.state,
                    *pattern,
                    w,
                ) implies r == verdict(*pattern, w) by {
                    opened(self.state, *pattern, w);
                    verdict_by_heap(*pattern, w);
                }
                r
            },
            (Pattern::Repeat1(p), State::Heap(heap)) => {
                proof {
                    heap_possible(heap@, **p, *pattern, some, usize::MAX as int);
                }
                let r = heap_accepts(heap, p, Ghost(*pattern));
                assert forall|w: Seq<char>| #[trigger] stands_for(
                    self.state,
                    *pattern,
                    w,
                ) implies r == verdict(*pattern, w) by {
                    opened(self.state, *pattern, w);
                    verdict_by_heap(*pattern, w);
                }
                r
            },
            _ => None,
        }
    }

    /// Whether the machine has given up.
    fn has_halted(&self) -> (r: bool)
        ensures
            r == (self.state is Halt),
    {
        match &self.state {
            State::Halt => true,
            _ => false,
        }
    }
}

/// Lets the machines of a heap read a character. Those that give up are left out, and of
/// those that come to the same state the first one to start stays.
fn advance_heap(
    heap: Vec<MachineInner>,
    q: &Pattern,
    pos: usize,
    len: usize,
    ch: char,
) -> (r: Vec<MachineInner>)
    requires
        pos + len <= usize::MAX,
        forall|i: int|
            0 <= i < heap@.len() ==> possible((#[trigger] heap@[i]).state, *q, usize::MAX - 1),
    ensures
        forall|i: int| 0 <= i < heap@.len() ==> went_to(#[trigger] heap@[i], r@, *q, ch),
        forall|j: int| 0 <= j < r@.len() ==> came_from(#[trigger] r@[j], heap@, *q, ch),
        in_order(r@),
        all_tidy(heap@) ==> all_tidy(r@),
    decreases q, 2int,
{
    let ghost all = heap@;
    let mut heap = heap;
    let mut r: Vec<MachineInner> = Vec::new();
    proof {
        few_in_order(r@);
    }
    loop
        invariant
            pos + len <= usize::MAX,
            in_order(r@),
            all_tidy(all) ==> all_tidy(r@),
            heap@.len() <= all.len(),
            heap@ =~= all.take(heap@.len() as int),
            forall|i: int|
                0 <= i < all.len() ==> possible((#[trigger] all[i]).state, *q, usize::MAX - 1),
            forall|i: int| heap@.len() <= i < all.len() ==> went_to(#[trigger] all[i], r@, *q, ch),
            forall|j: int| 0 <= j < r@.len() ==> came_from(#[trigger] r@[j], all, *q, ch),
        ensures
            heap@.len() == 0,
        decreases heap@.len(),
    {
        let ghost before = r@;
        match heap.pop() {
            None => {
                break;
            },
            Some(m) => {
                let ghost n = heap@.len() as int;
                assert(m == all[n]);
                let next = m.advance(q, pos, len, ch);
                assert(reads(all[n].state, next.state, *q, ch));
                match &next.state {
                    State::Halt => {
                        assert forall|u: Seq<char>| #[trigger] stands_for(
                            all[n].state,
                            *q,
                            u,
                        ) implies halted(*q, u.push(ch)) by {
                            opened(next.state, *q, u.push(ch));
                        }
                    },
                    _ => {
                        let ghost added = next;
                        keep(&mut r, next);
                        proof {
                            if all_tidy(all) {
                                assert(tidy(all[n].state));
                                assert forall|j: int| 0 <= j < r@.len() implies tidy(
                                    (#[trigger] r@[j]).state,
                                ) by {
                                    if r@[j] != added {
                                        let i = before.index_of(r@[j]);
                                        assert(tidy(before[i].state));
                                    }
                                }
                            }
                            assert(came_from(added, all, *q, ch));
                            assert forall|i: int| n <= i < all.len() implies went_to(
                                #[trigger] all[i],
                                r@,
                                *q,
                                ch,
                            ) by {
                                if i == n {
                                    let one = seq![added];
                                    assert(one[0] == added);
                                    assert(went_to(all[i], one, *q, ch));
                                    went_on(all[i], one, r@, *q, ch);
                                } else {
                                    went_on(all[i], before, r@, *q, ch);
                                }
                            }
                            assert forall|j: int| 0 <= j < r@.len() implies came_from(
                                #[trigger] r@[j],
                                all,
                                *q,
                                ch,
                            ) by {
                                if r@[j] != added {
                                    let i = before.index_of(r@[j]);
                                    assert(came_from(before[i], all, *q, ch));
                                }
                            }
                        }
                    },
                }
            },
        }
    }
    r
}

/// Adds a machine where another text of a row may start: if what is read so far is such a
/// row.
fn grow_row(
    heap: Vec<MachineInner>,
    q: &Pattern,
    Ghost(p): Ghost<Pattern>,
    Ghost(some): Ghost<Seq<char>>,
    pos: usize,
) -> (r: (Vec<MachineInner>, Ghost<Option<bool>>))
    requires
        heap_for(heap@, *q, p, some, None),
        some.len() < usize::MAX,
    ensures
        grown(heap@, r.0@, *q, r.1@ == Some(true)),
        forall|w: Seq<char>| #[trigger]
            heap_for(heap@, *q, p, w, None) ==> r.1@ == heap_verdict(*q, p, w),
        forall|i: int|
            0 <= i < r.0@.len() ==> possible((#[trigger] r.0@[i]).state, *q, usize::MAX - 1),
        all_tidy(heap@) ==> all_tidy(r.0@),
    decreases q, 2int,
{
    let ghost before = heap@;
    let mut heap = heap;
    proof {
        heap_possible(before, *q, p, some, usize::MAX - 1);
        heap_possible(before, *q, p, some, usize::MAX as int);
    }
    let accepts = heap_accepts(&heap, q, Ghost(p));
    if accepts == Some(true) {
        let m = MachineInner::start(q, pos);
        assert(stands_for(m.state, *q, Seq::empty()));
        assert(possible(m.state, *q, usize::MAX - 1));
        heap.push(m);
        assert(heap@.drop_last() =~= before);
    }
    assert forall|i: int| 0 <= i < heap@.len() implies possible(
        (#[trigger] heap@[i]).state,
        *q,
        usize::MAX - 1,
    ) by {
        if i < before.len() {
            assert(heap@[i] == before[i]);
        }
    }
    assert forall|i: int| 0 <= i < heap@.len() && all_tidy(before) implies tidy(
        (#[trigger] heap@[i]).state,
    ) by {
        if i < before.len() {
            assert(tidy(before[i].state));
        }
    }
    (heap, Ghost(accepts))
}

/// Lets the machines for the last of a row of texts read a character. If what is read so far
/// is such a row, another text may start here.
fn advance_row(
    heap: Vec<MachineInner>,
    q: &Pattern,
    Ghost(p): Ghost<Pattern>,
    Ghost(some): Ghost<Seq<char>>,
    pos: usize,
    len: usize,
    ch: char,
) -> (r: State)
    requires
        pos + len <= usize::MAX,
        p == Pattern::Repeat(Box::new(*q)) || p == Pattern::Repeat1(Box::new(*q)),
        heap_for(heap@, *q, p, some, None),
        some.len() < usize::MAX,
    ensures
        forall|w: Seq<char>|
            (p is Repeat ==> w.len() > 0) && #[trigger] heap_for(heap@, *q, p, w, None)
                ==> stands_for(r, p, w.push(ch)),
        all_tidy(heap@) ==> tidy(r),
    decreases q, 3int,
{
    let ghost before = heap@;
    let (heap, Ghost(accepts)) = grow_row(heap, q, Ghost(p), Ghost(some), pos);
    let ghost all = heap@;
    let next = advance_heap(heap, q, pos, len, ch);
    assert forall|w: Seq<char>|
        (p is Repeat ==> w.len() > 0) && #[trigger] heap_for(before, *q, p, w, None) implies {
        &&& heap_for(next@, *q, p, w.push(ch), None)
        &&& halted(p, w.push(ch)) <==> next@.len() == 0
    } by {
        row_step(before, all, next@, *q, p, w, ch);
    }
    let r = if next.len() == 0 {
        State::Halt
    } else {
        State::Heap(next)
    };
    assert forall|w: Seq<char>|
        (p is Repeat ==> w.len() > 0) && #[trigger] heap_for(
            before,
            *q,
            p,
            w,
            None,
        ) implies stands_for(r, p, w.push(ch)) by {
        opened(r, p, w.push(ch));
    }
    proof {
        tidy_opened(r);
    }
    r
}

/// Lets a machine for the first part and the machines for the second part read a character.
/// If what is read is such a first part, a second part may start after it.
fn advance_concat(
    m1: MachineInner,
    heap: Vec<MachineInner>,
    p1: &Pattern,
    p2: &Pattern,
    Ghost(p): Ghost<Pattern>,
    Ghost(some): Ghost<Seq<char>>,
    pos: usize,
    len: usize,
    ch: char,
) -> (r: State)
    requires
        pos + len <= usize::MAX,
        p == Pattern::Concat(Box::new(*p1), Box::new(*p2)),
        stands_for(m1.state, *p1, some),
        heap_for(heap@, *p2, p, some, None),
        some.len() < usize::MAX,
    ensures
        forall|w: Seq<char>| #[trigger]
            stands_for(m1.state, *p1, w) && heap_for(heap@, *p2, p, w, None) ==> stands_for(
                r,
                p,
                w.push(ch),
            ),
        forall|w: Seq<char>, marks: Seq<usize>|
            stands_for(m1.state, *p1, w) && marks.len() == w.len() + 1 && #[trigger] heap_for(
                heap@,
                *p2,
                p,
                w,
                Some(marks),
            ) ==> labelled(r, p, w.push(ch), marks.push((pos + len) as usize)),
        tidy(m1.state) && all_tidy(heap@) ==> tidy(r),
    decreases p, 0int,
{
    let ghost first = m1.state;
    let ghost before = heap@;
    assert(decreases_to!(p => *p->Concat_0));
    assert(decreases_to!(p => *p->Concat_1));
    proof {
        heap_possible(before, *p2, p, some, usize::MAX - 1);
    }
    let m1 = m1.advance(p1, pos, len, ch);
    let mut heap = advance_heap(heap, p2, pos, len, ch);
    let ghost moved = heap@;
    assert(stands_for(m1.state, *p1, some.push(ch)));
    let accepts = m1.accepts(p1);
    let ghost mut fresh: Option<MachineInner> = None;
    if accepts == Some(true) {
        let m = MachineInner::start(p2, pos + len);
        proof {
            fresh = Some(m);
        }
        keep(&mut heap, m);
    }
    assert forall|j: int| 0 <= j < heap@.len() && all_tidy(moved) implies tidy(
        (#[trigger] heap@[j]).state,
    ) by {
        if fresh != Some(heap@[j]) {
            let i = moved.index_of(heap@[j]);
            assert(tidy(moved[i].state));
        }
    }
    proof {
        assert forall|i: int| 0 <= i < before.len() implies went_to(
            #[trigger] before[i],
            heap@,
            *p2,
            ch,
        ) by {
            if fresh is Some {
                went_on(before[i], moved, heap@, *p2, ch);
            }
        }
        assert forall|j: int| 0 <= j < heap@.len() implies came_from(
            #[trigger] heap@[j],
            before,
            *p2,
            ch,
        ) || fresh == Some(heap@[j]) by {
            if fresh != Some(heap@[j]) {
                let i = moved.index_of(heap@[j]);
                assert(came_from(moved[i], before, *p2, ch));
            }
        }
        assert forall|w: Seq<char>| #[trigger]
            stands_for(first, *p1, w) && heap_for(before, *p2, p, w, None) implies {
            &&& stands_for(m1.state, *p1, w.push(ch))
            &&& heap_for(heap@, *p2, p, w.push(ch), None)
            &&& halted(p, w.push(ch)) <==> m1.state is Halt && heap@.len() == 0
        } by {
            verdict_says_match(*p1, w.push(ch));
            concat_step(before, heap@, fresh, p, w, ch, None, None);
            concat_halts(m1, heap@, p, w.push(ch));
        }
        assert forall|w: Seq<char>, marks: Seq<usize>|
            stands_for(first, *p1, w) && marks.len() == w.len() + 1 && #[trigger] heap_for(
                before,
                *p2,
                p,
                w,
                Some(marks),
            ) implies heap_for(
            heap@,
            *p2,
            p,
            w.push(ch),
            Some(marks.push((pos + len) as usize)),
        ) by {
            let more = marks.push((pos + len) as usize);
            verdict_says_match(*p1, w.push(ch));
            concat_step(before, heap@, fresh, p, w, ch, Some(marks), Some(more));
        }
    }
    let r = if heap.len() == 0 && m1.has_halted() {
        State::Halt
    } else {
        State::Concat(Box::new(m1), heap)
    };
    assert forall|w: Seq<char>| #[trigger]
        stands_for(first, *p1, w) && heap_for(before, *p2, p, w, None) implies stands_for(
        r,
        p,
        w.push(ch),
    ) by {
        opened(r, p, w.push(ch));
    }
    proof {
        tidy_opened(r);
    }
    r
}

impl MachineInner {
    /// The machine once it has read a character, which stands at `pos` and takes `len` bytes.
    pub(crate) fn advance(self, pattern: &Pattern, pos: usize, len: usize, ch: char) -> (r:
        MachineInner)
        requires
            possible(self.state, *pattern, usize::MAX - 1),
            pos + len <= usize::MAX,
        ensures
            r.start == self.start,
            forall|w: Seq<char>| #[trigger]
                stands_for(self.state, *pattern, w) ==> stands_for(r.state, *pattern, w.push(ch)),
            forall|w: Seq<char>, marks: Seq<usize>|
                stands_for(self.state, *pattern, w) && #[trigger] labelled(
                    self.state,
                    *pattern,
                    w,
                    marks,
                ) ==> labelled(
                    r.state,
                    *pattern,
                    w.push(ch),
                    marks.push((pos + len) as usize),
                ),
            tidy(self.state) ==> tidy(r.state),
        decreases pattern, 1int,
    {
        let ghost from = self.state;
        let ghost some = choose|w: Seq<char>|
            w.len() <= usize::MAX - 1 && #[trigger] stands_for(self.state, *pattern, w);
        proof {
            opened(from, *pattern, some);
            tidy_opened(from);
        }
        let start = self.start;
        let state = match (pattern, self.state) {
            (_, State::Halt) => State::Halt,
            (Pattern::All, State::Init) => State::Init,
            (Pattern::Empty, State::Init) => State::Halt,
            (Pattern::Length(n), State::Index(i)) => if int_less(&int_from(i), n) {
                State::Index(i + 1)
            } else {
                State::Halt
            },
            (Pattern::Str(s), State::Index(i)) => {
                let next = next_index(s, i, ch, Ghost(some));
                let state = match next {
                    Some(j) => State::Index(j),
                    None => State::Halt,
                };
                assert forall|w: Seq<char>| #[trigger] stands_for(
                    from,
                    *pattern,
                    w,
                ) implies stands_for(state, *pattern, w.push(ch)) by {
                    opened(from, *pattern, w);
                    text_step(from, state, *pattern, w, ch);
                }
                proof {
                    tidy_opened(state);
                }
                return MachineInner { state, start };
            },
            (Pattern::One(class), State::Index(i)) => if i == 0 && class.contains(ch) {
                State::Index(1)
            } else {
                State::Halt
            },
            (Pattern::Non(class), State::Index(i)) => if i == 0 && !class.contains(ch) {
                State::Index(1)
            } else {
                State::Halt
            },
            (Pattern::Concat(p1, p2), State::Concat(m1, heap)) => {
                let state = advance_concat(
                    *m1,
                    heap,
                    p1,
                    p2,
                    Ghost(*pattern),
                    Ghost(some),
                    pos,
                    len,
                    ch,
                );
                assert forall|w: Seq<char>| #[trigger] stands_for(
                    from,
                    *pattern,
                    w,
                ) implies stands_for(state, *pattern, w.push(ch)) by {
                    opened(from, *pattern, w);
                }
                assert forall|w: Seq<char>, marks: Seq<usize>|
                    stands_for(from, *pattern, w) && #[trigger] labelled(
                        from,
                        *pattern,
                        w,
                        marks,
                    ) implies labelled(
                    state,
                    *pattern,
                    w.push(ch),
                    marks.push((pos + len) as usize),
                ) by {
                    opened(from, *pattern, w);
                }
                proof {
                    tidy_opened(state);
                }
                return MachineInner { state, start };
            },
            (Pattern::And(p1, p2), State::Pair(m1, m2)) => {
                let m1 = (*m1).advance(p1, pos, len, ch);
                let m2 = (*m2).advance(p2, pos, len, ch);
                let state = if m1.has_halted() || m2.has_halted() {
                    State::Halt
                } else {
                    State::Pair(Box::new(m1), Box::new(m2))
                };
                assert forall|w: Seq<char>| #[trigger] stands_for(
                    from,
                    *pattern,
                    w,
                ) implies stands_for(state, *pattern, w.push(ch)) by {
                    opened(from, *pattern, w);
                    opened(m1.state, **p1, w.push(ch));
                    opened(m2.state, **p2, w.push(ch));
                    opened(state, *pattern, w.push(ch));
                    reveal(halted);
                }
                proof {
                    tidy_opened(state);
                }
                return MachineInner { state, start };
            },
            (Pattern::Or(p1, p2), State::Pair(m1, m2)) => {
                let m1 = (*m1).advance(p1, pos, len, ch);
                let m2 = (*m2).advance(p2, pos, len, ch);
                let state = if m1.has_halted() && m2.has_halted() {
                    State::Halt
                } else {
                    State::Pair(Box::new(m1), Box::new(m2))
                };
                assert forall|w: Seq<char>| #[trigger] stands_for(
                    from,
                    *pattern,
                    w,
                ) implies stands_for(state, *pattern, w.push(ch)) by {
                    opened(from, *pattern, w);
                    opened(m1.state, **p1, w.push(ch));
                    opened(m2.state, **p2, w.push(ch));
                    opened(state, *pattern, w.push(ch));
                    reveal(halted);
                }
                proof {
                    tidy_opened(state);
                }
                return MachineInner { state, start };
            },
            (Pattern::Repeat(p), State::Init) => {
                let m = MachineInner::start(p, pos).advance(p, pos, len, ch);
                let mut heap: Vec<MachineInner> = Vec::new();
                heap.push(m);
                let state = State::Heap(heap);
                proof {
                    few_in_order(heap@);
                }
                assert forall|w: Seq<char>| #[trigger] stands_for(
                    from,
                    *pattern,
                    w,
                ) implies stands_for(state, *pattern, w.push(ch)) by {
                    opened(from, *pattern, w);
                    assert(w =~= Seq::empty());
                    first_row(heap@, **p, *pattern, ch);
                    opened(state, *pattern, w.push(ch));
                }
                proof {
                    tidy_opened(state);
                }
                return MachineInner { state, start };
            },
            (Pattern::Repeat(p), State::Heap(heap)) => {
                let state = advance_row(heap, p, Ghost(*pattern), Ghost(some), pos, len, ch);
                assert forall|w: Seq<char>| #[trigger] stands_for(
                    from,
                    *pattern,
                    w,
                ) implies stands_for(state, *pattern, w.push(ch)) by {
                    opened(from, *pattern, w);
                }
                proof {
                    tidy_opened(state);
                }
                return MachineInner { state, start };
            },
            (Pattern::Repeat1(p), State::Heap(heap)) => {
                let state = advance_row(heap, p, Ghost(*pattern), Ghost(some), pos, len, ch);
                assert forall|w: Seq<char>| #[trigger] stands_for(
                    from,
                    *pattern,
                    w,
                ) implies stands_for(state, *pattern, w.push(ch)) by {
                    opened(from, *pattern, w);
                }
                proof {
                    tidy_opened(state);
                }
                return MachineInner { state, start };
            },
            (_, state) => state,
        };
        assert forall|w: Seq<char>| #[trigger] stands_for(from, *pattern, w) implies stands_for(
            state,
            *pattern,
            w.push(ch),
        ) by {
            opened(from, *pattern, w);
            leaf_step(from, state, *pattern, w, ch);
        }
        proof {
            tidy_opened(state);
        }
        MachineInner { state, start }
    }
}

/// The machine for the first of a row of texts, once it has read the first character.
proof fn first_row(heap: Seq<MachineInner>, q: Pattern, p: Pattern, c: char)
    requires
        p == Pattern::Repeat(Box::new(q)),
        heap.len() == 1,
        stands_for(heap[0].state, q, Seq::empty().push(c)),
    ensures
        heap_for(heap, q, p, Seq::empty().push(c), None),
        !halted(p, Seq::empty().push(c)),
{
    let v = Seq::<char>::empty().push(c);
    assert(v.skip(0) =~= v);
    assert(live(p, v, 0)) by {
        reveal(live);
        reveal(repeats);
    }
    sourced_by(heap[0], q, p, v, None, 0);
    covered_by(heap, q, v, 0, None, 0);
    assert forall|k: int| #[trigger] live(p, v, k) implies covered(heap, q, v, k, None) by {
        assert(k == 0) by {
            reveal(live);
        }
    }
    heap_holds(heap, q, p, v, None);
    reveal(halted);
}

/// A machine that reads a text against a pattern. Each place between two characters of the
/// text has a mark: the first one is zero, and the others are the ends of the characters before
/// them, as they are told when these are read.
pub struct Machine {
    pub pattern: Box<Pattern>,
    pub inner: MachineInner,
    pub text: Ghost<Seq<char>>,
    pub marks: Ghost<Seq<usize>>,
}

/// Whether `k` is a place where a text can be split so that both parts match.
pub open spec fn accepting_split(p: Pattern, w: Seq<char>, k: int) -> bool {
    p is Concat && splits(*p->Concat_0, w, k) && matches_text(*p->Concat_1, w.skip(k))
}

/// Whether `r` is the least mark of the places in question, or `none` if there are no such
/// places.
pub open spec fn is_least_mark(
    places: spec_fn(int) -> bool,
    marks: Seq<usize>,
    none: Option<usize>,
    r: Option<usize>,
) -> bool {
    if exists|k: int| #[trigger] places(k) {
        &&& r is Some
        &&& exists|k: int| #[trigger] places(k) && marks[k] == r->0
        &&& forall|k: int| #[trigger] places(k) ==> r->0 <= marks[k]
    } else {
        r == none
    }
}

impl Machine {
    /// Whether the machine is in a state in which it can be that has read its text.
    pub open spec fn wf(self) -> bool {
        &&& stands_for(self.inner.state, *self.pattern, self.text@)
        &&& labelled(self.inner.state, *self.pattern, self.text@, self.marks@)
        &&& self.text@.len() <= usize::MAX
        &&& tidy(self.inner.state)
    }

    /// A machine that has read nothing.
    pub fn start(pattern: Box<Pattern>) -> (r: Machine)
        ensures
            r.wf(),
            r.pattern == pattern,
            r.text@ == Seq::<char>::empty(),
            r.marks@ == seq![0usize],
    {
        let inner = MachineInner::start(&pattern, 0);
        let ghost marks = seq![0usize];
        Machine { pattern, inner, text: Ghost(Seq::empty()), marks: Ghost(marks) }
    }

    /// What the machine tells of what it has read: that it matches, that it does not as it
    /// stands, or that nothing that starts with it does.
    pub fn accepts(&self) -> (r: Option<bool>)
        requires
            self.wf(),
        ensures
            r == verdict(*self.pattern, self.text@),
    {
        self.inner.accepts(&self.pattern)
    }

    /// Reads a character, which stands at `pos` and takes `len` bytes.
    pub fn advance(&mut self, pos: usize, len: usize, ch: char)
        requires
            old(self).wf(),
            old(self).text@.len() < usize::MAX,
            pos + len <= usize::MAX,
        ensures
            final(self).wf(),
            final(self).pattern == old(self).pattern,
            final(self).text@ == old(self).text@.push(ch),
            final(self).marks@ == old(self).marks@.push((pos + len) as usize),
    {
        let mut inner = MachineInner { state: State::Halt, start: 0 };
        std::mem::swap(&mut inner, &mut self.inner);
        self.inner = inner.advance(&self.pattern, pos, len, ch);
        self.text = Ghost(self.text@.push(ch));
        self.marks = Ghost(self.marks@.push((pos + len) as usize));
    }

    /// The mark of the first place where what is read can be split so that the first part
    /// matches the first part of the pattern and the second part the second.
    pub fn leftmost_accepting_split(&self) -> (r: Option<usize>)
        requires
            self.wf(),
        ensures
            is_least_mark(
                |k: int| accepting_split(*self.pattern, self.text@, k),
                self.marks@,
                None,
                r,
            ),
    {
        let ghost p = *self.pattern;
        let ghost w = self.text@;
        let ghost places = |k: int| accepting_split(p, w, k);
        match (&*self.pattern, &self.inner.state) {
            (Pattern::Concat(_, p2), State::Concat(_, heap)) => {
                proof {
                    opened(self.inner.state, p, w);
                    heap_possible(heap@, **p2, p, w, usize::MAX as int);
                }
                let mut least: Option<usize> = None;
                let mut i: usize = 0;
                while i < heap.len()
                    invariant
                        i <= heap@.len(),
                        p is Concat,
                        **p2 == *p->Concat_1,
                        places == |k: int| accepting_split(p, w, k),
                        heap_for(heap@, **p2, p, w, Some(self.marks@)),
                        forall|j: int|
                            0 <= j < heap@.len() ==> possible(
                                (#[trigger] heap@[j]).state,
                                **p2,
                                usize::MAX as int,
                            ),
                        least matches Some(x) ==> exists|k: int| #[trigger]
                            places(k) && self.marks@[k] == x,
                        forall|j: int, u: Seq<char>|
                            0 <= j < i && #[trigger] stands_for(heap@[j].state, **p2, u)
                                && verdict(**p2, u) == Some(true) ==> least is Some && least->0
                                <= heap@[j].start,
                    decreases heap@.len() - i,
                {
                    let accepts = heap[i].accepts(p2);
                    if accepts == Some(true) {
                        proof {
                            let k = heap_source(
                                heap@,
                                **p2,
                                p,
                                w,
                                Some(self.marks@),
                                i as int,
                            );
                            verdict_says_match(**p2, w.skip(k));
                            assert(splits(*p->Concat_0, w, k)) by {
                                reveal(live);
                            }
                            assert(places(k));
                        }
                        least = match least {
                            None => Some(heap[i].start),
                            Some(x) => if heap[i].start < x {
                                Some(heap[i].start)
                            } else {
                                Some(x)
                            },
                        };
                    }
                    i = i + 1;
                }
                assert forall|k: int| #[trigger] places(k) implies least is Some && least->0
                    <= self.marks@[k] by {
                    verdict_says_match(**p2, w.skip(k));
                    if halted(**p2, w.skip(k)) {
                        halted_verdict(**p2, w.skip(k));
                    }
                    assert(live(p, w, k)) by {
                        reveal(live);
                    }
                    let j = heap_cover(heap@, **p2, p, w, Some(self.marks@), k);
                    assert(stands_for(heap@[j].state, **p2, w.skip(k)));
                }
                least
            },
            _ => {
                assert forall|k: int| !#[trigger] places(k) by {
                    if places(k) {
                        opened(self.inner.state, p, w);
                        halted_verdict(p, w);
                        reveal(matches_text);
                        assert(w.take(k) == w.take(k));
                    }
                }
                None
            },
        }
    }

    /// The mark of the first place where a second part that can still match may start, or
    /// `pos` if there is none yet. There is no such place if the machine has given up.
    pub fn leftmost_feasible_split(&self, pos: usize) -> (r: Option<usize>)
        requires
            self.wf(),
        ensures
            if *self.pattern is Concat && !halted(*self.pattern, self.text@) {
                is_least_mark(
                    |k: int| live(*self.pattern, self.text@, k),
                    self.marks@,
                    Some(pos),
                    r,
                )
            } else {
                r is None
            },
    {
        let ghost p = *self.pattern;
        let ghost w = self.text@;
        let ghost places = |k: int| live(p, w, k);
        proof {
            opened(self.inner.state, p, w);
        }
        match &self.inner.state {
            State::Concat(_, heap) => {
                let ghost q = *p->Concat_1;
                let mut least: Option<usize> = None;
                let mut i: usize = 0;
                while i < heap.len()
                    invariant
                        i <= heap@.len(),
                        places == |k: int| live(p, w, k),
                        heap_for(heap@, q, p, w, Some(self.marks@)),
                        least is Some <==> i > 0,
                        least matches Some(x) ==> exists|k: int| #[trigger]
                            places(k) && self.marks@[k] == x,
                        forall|j: int| 0 <= j < i ==> least->0 <= (#[trigger] heap@[j]).start,
                    decreases heap@.len() - i,
                {
                    proof {
                        let k = heap_source(heap@, q, p, w, Some(self.marks@), i as int);
                        assert(places(k));
                    }
                    least = match least {
                        None => Some(heap[i].start),
                        Some(x) => if heap[i].start < x {
                            Some(heap[i].start)
                        } else {
                            Some(x)
                        },
                    };
                    i = i + 1;
                }
                assert forall|k: int| #[trigger] places(k) implies least is Some && least->0
                    <= self.marks@[k] by {
                    let j = heap_cover(heap@, q, p, w, Some(self.marks@), k);
                    assert(least->0 <= heap@[j].start);
                }
                match least {
                    Some(x) => Some(x),
                    None => Some(pos),
                }
            },
            _ => None,
        }
    }
}

/// The machines for parts that a machine in the state `s` has.
pub open spec fn parts(s: State) -> Seq<MachineInner> {
    match s {
        State::Heap(heap) => heap@,
        State::Concat(_, heap) => heap@,
        _ => Seq::empty(),
    }
}

/// No two of the machines for parts that a machine has are in the same state, whatever it has
/// read.
pub proof fn parts_differ(m: Machine, i: int, j: int)
    requires
        m.wf(),
        0 <= i < parts(m.inner.state).len(),
        0 <= j < parts(m.inner.state).len(),
        i != j,
    ensures
        !same_state(parts(m.inner.state)[i].state, parts(m.inner.state)[j].state),
{
    tidy_opened(m.inner.state);
    in_order_differ(parts(m.inner.state), i, j);
}

/// A machine on a pattern whose second part is a text has at most one machine for the second
/// part for each place in that text, however much it has read.
pub proof fn parts_are_few(m: Machine, text: Substr)
    requires
        m.wf(),
        (*m.pattern matches Pattern::Concat(_, p2) && *p2 == Pattern::Str(text)),
    ensures
        parts(m.inner.state).len() <= substr_chars(text).len() + 1,
{
    let p = *m.pattern;
    let w = m.text@;
    let t = substr_chars(text);
    let heap = parts(m.inner.state);
    opened(m.inner.state, p, w);
    let places = Seq::new(heap.len(), |i: int| place_in(heap[i].state, t));
    assert forall|i: int| 0 <= i < heap.len() implies is_place_in(
        #[trigger] heap[i].state,
        t,
        places[i],
    ) by {
        let k = heap_source(heap, Pattern::Str(text), p, w, None, i);
        let u = w.skip(k);
        opened(heap[i].state, Pattern::Str(text), u);
        assert(!halted(Pattern::Str(text), u)) by {
            reveal(live);
            reveal(halted);
            reveal(verdict);
        }
        assert(u =~= t.take(u.len() as int));
        assert(is_place_in(heap[i].state, t, u.len() as int));
    }
    assert(places.no_duplicates()) by {
        assert forall|i: int, j: int|
            0 <= i < places.len() && 0 <= j < places.len() && i != j implies places[i]
            != places[j] by {
            parts_differ(m, i, j);
            assert(is_place_in(heap[i].state, t, places[i]));
            assert(is_place_in(heap[j].state, t, places[j]));
        }
    }
    places.unique_seq_to_set();
    let range = set_int_range(0, t.len() as int + 1);
    assert(places.to_set().subset_of(range)) by {
        assert forall|n: int| places.to_set().contains(n) implies range.contains(n) by {
            let i = places.index_of(n);
            assert(is_place_in(heap[i].state, t, places[i]));
        }
    }
    lemma_int_range(0, t.len() as int + 1);
    lemma_len_subset(places.to_set(), range);
}

/// Whether a machine in the state `s` has read the first `n` characters of the text `t`.
spec fn is_place_in(s: State, t: Seq<char>, n: int) -> bool {
    0 <= n <= t.len() && s is Index && s->Index_0 == byte_len(t.take(n))
}

/// How many characters of the text `t` a machine in the state `s` has read.
spec fn place_in(s: State, t: Seq<char>) -> int {
    choose|n: int| is_place_in(s, t, n)
}

} // verus!
