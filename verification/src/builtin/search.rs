//! The search for texts that match a pattern of a prefix and a pattern of a suffix.
use super::machine::{accepting_split, is_least_mark, Machine};
use super::pattern::{
    halted, halted_is_final, matches_text, verdict, verdict_none_is_final, Pattern,
};
use super::state::live;
use crate::sub_text::{
    byte_len, byte_len_grows, byte_len_push, char_len, substr_chars, substr_len, substr_str,
};
use arcstr::Substr;
use vstd::prelude::*;

verus! {

/// Whether the first `i` characters of the text `t` match `prefix`, and those from there to
/// `j` match `suffix`.
pub open spec fn is_match(prefix: Pattern, suffix: Pattern, t: Seq<char>, i: int, j: int) -> bool {
    &&& 0 <= i <= j <= t.len()
    &&& matches_text(prefix, t.take(i))
    &&& matches_text(suffix, t.subrange(i, j))
}

/// Whether the prefix can end at `i` and the suffix at `j`, not before the place `limit`,
/// with the first end of the prefix that there is, and the last end of the suffix for it.
pub open spec fn is_best_match(
    prefix: Pattern,
    suffix: Pattern,
    t: Seq<char>,
    limit: int,
    i: int,
    j: int,
) -> bool {
    &&& 0 < j <= limit
    &&& is_match(prefix, suffix, t, i, j)
    &&& forall|k: int, l: int|
        0 < l <= limit && #[trigger] is_match(prefix, suffix, t, k, l) ==> i < k || (i == k && l
            <= j)
}

/// Whether `r` is the best match in a text that does not end where the text starts, as the
/// byte where the prefix ends and the one where the suffix ends.
pub open spec fn is_found(
    prefix: Pattern,
    suffix: Pattern,
    t: Seq<char>,
    r: Option<(usize, usize)>,
) -> bool {
    match r {
        Some((a, b)) => exists|i: int, j: int| #[trigger]
            is_best_match(prefix, suffix, t, t.len() as int, i, j) && a == byte_len(t.take(i)) && b
                == byte_len(t.take(j)),
        None => forall|i: int, j: int|
            j > 0 ==> !#[trigger] is_match(prefix, suffix, t, i, j),
    }
}

/// There is one best match at most.
pub proof fn best_match_is_unique(
    prefix: Pattern,
    suffix: Pattern,
    t: Seq<char>,
    limit: int,
    i: int,
    j: int,
    k: int,
    l: int,
)
    requires
        is_best_match(prefix, suffix, t, limit, i, j),
        is_best_match(prefix, suffix, t, limit, k, l),
    ensures
        i == k && j == l,
{
}

/// A split of the first `n` characters of a text is a match that ends at `n`.
proof fn split_is_match(prefix: Pattern, suffix: Pattern, t: Seq<char>, n: int, k: int)
    requires
        0 <= n <= t.len(),
    ensures
        accepting_split(
            Pattern::Concat(Box::new(prefix), Box::new(suffix)),
            t.take(n),
            k,
        ) <==> is_match(prefix, suffix, t, k, n),
{
    if 0 <= k <= n {
        assert(t.take(n).take(k) =~= t.take(k));
        assert(t.take(n).skip(k) =~= t.subrange(k, n));
    }
}

/// If a match ends after the first `n` characters of a text, and its prefix among them, then a
/// machine that has read these has not given up, and has a machine for its suffix.
proof fn match_is_live(prefix: Pattern, suffix: Pattern, t: Seq<char>, n: int, i: int, j: int)
    requires
        is_match(prefix, suffix, t, i, j),
        0 <= n <= j,
    ensures
        !halted(Pattern::Concat(Box::new(prefix), Box::new(suffix)), t.take(n)),
        i <= n ==> live(Pattern::Concat(Box::new(prefix), Box::new(suffix)), t.take(n), i),
{
    let p = Pattern::Concat(Box::new(prefix), Box::new(suffix));
    let w = t.take(n);
    let more = t.subrange(n, j);
    assert(w + more =~= t.take(j));
    split_is_match(prefix, suffix, t, j, i);
    assert(matches_text(p, t.take(j))) by {
        reveal(matches_text);
        assert(t.take(j).take(i) == t.take(i)) by {
            assert(t.take(j).take(i) =~= t.take(i));
        }
    }
    if halted(p, w) {
        halted_is_final(p, w, more);
    }
    if i <= n {
        assert(w.take(i) =~= t.take(i));
        assert(w.skip(i) + more =~= t.subrange(i, j));
        if halted(suffix, w.skip(i)) {
            halted_is_final(suffix, w.skip(i), more);
        }
        assert(live(p, w, i)) by {
            reveal(live);
        }
    }
}

/// Whether `best` is the best match that ends among the first `n` characters of a text, with
/// the prefix ending at `i` and the suffix at `j`.
pub open spec fn is_best_so_far(
    prefix: Pattern,
    suffix: Pattern,
    t: Seq<char>,
    n: int,
    best: Option<(usize, usize)>,
    i: int,
    j: int,
) -> bool {
    match best {
        Some((a, b)) => {
            &&& is_best_match(prefix, suffix, t, n, i, j)
            &&& a == byte_len(t.take(i))
            &&& b == byte_len(t.take(j))
        },
        None => forall|k: int, l: int| 0 < l <= n ==> !#[trigger] is_match(prefix, suffix, t, k, l),
    }
}

/// Whether no match that ends after the first `n` characters of a text is better than `best`,
/// whose prefix ends at `i`.
pub open spec fn is_closed(
    prefix: Pattern,
    suffix: Pattern,
    t: Seq<char>,
    n: int,
    best: Option<(usize, usize)>,
    i: int,
) -> bool {
    forall|k: int, l: int|
        n < l && #[trigger] is_match(prefix, suffix, t, k, l) ==> best is Some && i < k
}

/// If no suffix that may still match starts early enough, no better match is to come.
proof fn feasible_closes(
    prefix: Pattern,
    suffix: Pattern,
    t: Seq<char>,
    n: int,
    marks: Seq<usize>,
    feasible: usize,
    pos: usize,
    best: Option<(usize, usize)>,
    i: int,
    j: int,
)
    requires
        0 <= n <= t.len(),
        is_least_mark(
            |k: int| live(Pattern::Concat(Box::new(prefix), Box::new(suffix)), t.take(n), k),
            marks,
            Some(pos),
            Some(feasible),
        ),
        forall|k: int| 0 <= k <= n ==> #[trigger] marks[k] == byte_len(t.take(k)),
        best is Some,
        is_best_so_far(prefix, suffix, t, n, best, i, j),
        feasible > (best->0).0,
    ensures
        is_closed(prefix, suffix, t, n, best, i),
{
    let p = Pattern::Concat(Box::new(prefix), Box::new(suffix));
    let places = |k: int| live(p, t.take(n), k);
    assert forall|k: int, l: int|
        n < l && #[trigger] is_match(prefix, suffix, t, k, l) implies i < k by {
        if k <= i {
            match_is_live(prefix, suffix, t, n, k, l);
            assert(places(k));
            assert(feasible <= marks[k]);
            if k < i {
                byte_len_grows(t, k, i);
            }
        }
    }
}

/// If the machine has given up, no match is to come.
proof fn halted_closes(
    prefix: Pattern,
    suffix: Pattern,
    t: Seq<char>,
    n: int,
    best: Option<(usize, usize)>,
    i: int,
)
    requires
        0 <= n <= t.len(),
        halted(Pattern::Concat(Box::new(prefix), Box::new(suffix)), t.take(n)),
    ensures
        is_closed(prefix, suffix, t, n, best, i),
{
    assert forall|k: int, l: int| n < l && #[trigger] is_match(prefix, suffix, t, k, l) implies best
        is Some && i < k by {
        match_is_live(prefix, suffix, t, n, k, l);
    }
}

/// The best match so far once one more character is read.
proof fn best_step(
    prefix: Pattern,
    suffix: Pattern,
    t: Seq<char>,
    n: int,
    marks: Seq<usize>,
    accepting: Option<usize>,
    before: Option<(usize, usize)>,
    before_i: int,
    before_j: int,
    best: Option<(usize, usize)>,
    pos: usize,
) -> (r: (int, int))
    requires
        0 < n <= t.len(),
        is_least_mark(
            |k: int|
                accepting_split(
                    Pattern::Concat(Box::new(prefix), Box::new(suffix)),
                    t.take(n),
                    k,
                ),
            marks,
            None,
            accepting,
        ),
        forall|k: int| 0 <= k <= n ==> #[trigger] marks[k] == byte_len(t.take(k)),
        pos == byte_len(t.take(n)),
        is_best_so_far(prefix, suffix, t, n - 1, before, before_i, before_j),
        best == match (accepting, before) {
            (Some(start), Some((best_start, _))) => if start <= best_start {
                Some((start, pos))
            } else {
                before
            },
            (Some(start), None) => Some((start, pos)),
            _ => before,
        },
    ensures
        is_best_so_far(prefix, suffix, t, n, best, r.0, r.1),
{
    let p = Pattern::Concat(Box::new(prefix), Box::new(suffix));
    let places = |k: int| accepting_split(p, t.take(n), k);
    assert forall|k: int| #[trigger] places(k) <==> is_match(prefix, suffix, t, k, n) by {
        split_is_match(prefix, suffix, t, n, k);
    }
    assert forall|k: int, l: int| #[trigger] is_match(prefix, suffix, t, k, l) && l == n implies (
    accepting is Some && accepting->0 <= marks[k]) by {
        assert(places(k));
    }
    assert forall|k: int, l: int| 0 <= k < l <= t.len() implies byte_len(#[trigger] t.take(k))
        < byte_len(#[trigger] t.take(l)) by {
        byte_len_grows(t, k, l);
    }
    if best != before || (accepting is Some && before is Some && accepting->0 == (before->0).0) {
        let k = choose|k: int| #[trigger] places(k) && marks[k] == accepting->0;
        assert(places(k));
        assert(is_match(prefix, suffix, t, k, n));
        (k, n)
    } else {
        (before_i, before_j)
    }
}

/// A text of no characters has no bytes.
proof fn byte_len_empty()
    ensures
        byte_len(Seq::empty()) == 0,
{
}

/// A text has at least as many bytes as characters.
proof fn at_most_bytes(t: Seq<char>)
    ensures
        t.len() <= byte_len(t),
{
    assert(t.take(t.len() as int) =~= t);
    if t.len() > 0 {
        byte_len_grows(t, 0, t.len() as int);
    }
}

/// The best match of a prefix and a suffix in a text, where the suffix does not end where the
/// text starts: the one with the shortest prefix, and of these the one with the longest
/// suffix. It is given as the byte where the prefix ends and the one where the suffix ends.
pub fn find_match(text: &Substr, prefix: Box<Pattern>, suffix: Box<Pattern>) -> (r: Option<
    (usize, usize),
>)
    ensures
        is_found(*prefix, *suffix, substr_chars(*text), r),
{
    let ghost t = substr_chars(*text);
    let ghost p1 = *prefix;
    let ghost p2 = *suffix;
    let ghost p = Pattern::Concat(prefix, suffix);
    let size = substr_len(text);
    let mut m = Machine::start(Box::new(Pattern::Concat(prefix, suffix)));
    let mut best: Option<(usize, usize)> = None;
    let ghost mut best_i: int = 0;
    let ghost mut best_j: int = 0;
    let mut pos: usize = 0;
    let ghost mut n: int = 0;
    let ghost mut closed = false;
    proof {
        assert(t.take(0) =~= Seq::empty());
        assert(t.take(t.len() as int) =~= t);
        byte_len_empty();
        at_most_bytes(t);
    }
    for ch in it: substr_str(text).chars()
        invariant_except_break
            !closed,
            n == it.index(),
        invariant
            it.seq() == t,
            0 <= n <= t.len(),
            size == byte_len(t),
            t.len() <= size,
            t.take(t.len() as int) == t,
            p == Pattern::Concat(Box::new(p1), Box::new(p2)),
            m.wf(),
            *m.pattern == p,
            m.text@ == t.take(n),
            m.marks@.len() == n + 1,
            forall|k: int| 0 <= k <= n ==> #[trigger] m.marks@[k] == byte_len(t.take(k)),
            pos == byte_len(t.take(n)),
            is_best_so_far(p1, p2, t, n, best, best_i, best_j),
            closed ==> is_closed(p1, p2, t, n, best, best_i),
        ensures
            closed || n == t.len(),
    {
        match (m.leftmost_feasible_split(pos), best) {
            (Some(feasible), Some((start, _))) => {
                if feasible > start {
                    proof {
                        feasible_closes(
                            p1,
                            p2,
                            t,
                            n,
                            m.marks@,
                            feasible,
                            pos,
                            best,
                            best_i,
                            best_j,
                        );
                        closed = true;
                    }
                    break;
                }
            },
            (None, _) => {
                proof {
                    halted_closes(p1, p2, t, n, best, best_i);
                    closed = true;
                }
                break;
            },
            _ => {},
        }
        let len = char_len(ch);
        proof {
            assert(t.take(n + 1) =~= t.take(n).push(ch));
            byte_len_push(t.take(n), ch);
            if n + 1 < t.len() {
                byte_len_grows(t, n + 1, t.len() as int);
            }
        }
        m.advance(pos, len, ch);
        pos = pos + len;
        let accepting = m.leftmost_accepting_split();
        let ghost before = (best, best_i, best_j);
        match (accepting, best) {
            (Some(start), Some((best_start, _))) => {
                if start <= best_start {
                    best = Some((start, pos));
                }
            },
            (Some(start), None) => {
                best = Some((start, pos));
            },
            _ => {},
        }
        proof {
            n = n + 1;
            let next = best_step(
                p1,
                p2,
                t,
                n,
                m.marks@,
                accepting,
                before.0,
                before.1,
                before.2,
                best,
                pos,
            );
            best_i = next.0;
            best_j = next.1;
        }
    }
    proof {
        assert forall|i: int, j: int| 0 < j && #[trigger] is_match(p1, p2, t, i, j) implies best
            is Some && (best_i < i || (best_i == i && j <= best_j)) by {
            if n < j {
                assert(closed);
            }
        }
        if best is Some {
            assert(is_best_match(p1, p2, t, t.len() as int, best_i, best_j));
        }
    }
    best
}

/// Whether `r` is the byte where the shortest prefix ends such that the rest of the text is a
/// suffix.
pub open spec fn is_found_end(
    prefix: Pattern,
    suffix: Pattern,
    t: Seq<char>,
    r: Option<usize>,
) -> bool {
    match r {
        Some(a) => exists|i: int| #[trigger]
            is_match(prefix, suffix, t, i, t.len() as int) && a == byte_len(t.take(i)) && forall|
                k: int,
            | #[trigger] is_match(prefix, suffix, t, k, t.len() as int) ==> i <= k,
        None => forall|i: int| !#[trigger] is_match(prefix, suffix, t, i, t.len() as int),
    }
}

/// What the first split that a machine tells says of a match of the whole text.
proof fn split_at_end(
    prefix: Pattern,
    suffix: Pattern,
    t: Seq<char>,
    n: int,
    marks: Seq<usize>,
    r: Option<usize>,
)
    requires
        0 <= n <= t.len(),
        n < t.len() ==> verdict(
            Pattern::Concat(Box::new(prefix), Box::new(suffix)),
            t.take(n),
        ) is None,
        is_least_mark(
            |k: int|
                accepting_split(
                    Pattern::Concat(Box::new(prefix), Box::new(suffix)),
                    t.take(n),
                    k,
                ),
            marks,
            None,
            r,
        ),
        forall|k: int| 0 <= k <= n ==> #[trigger] marks[k] == byte_len(t.take(k)),
    ensures
        is_found_end(prefix, suffix, t, r),
{
    let p = Pattern::Concat(Box::new(prefix), Box::new(suffix));
    let end = t.len() as int;
    let places = |k: int| accepting_split(p, t.take(n), k);
    assert(t.take(end) =~= t);
    assert forall|k: int| #[trigger] places(k) <==> is_match(prefix, suffix, t, k, n) by {
        split_is_match(prefix, suffix, t, n, k);
    }
    if n < end {
        assert forall|k: int, l: int| n <= l <= end implies !#[trigger] is_match(
            prefix,
            suffix,
            t,
            k,
            l,
        ) by {
            if is_match(prefix, suffix, t, k, l) {
                let w = t.take(n);
                let more = t.subrange(n, l);
                assert(w + more =~= t.take(l));
                verdict_none_is_final(p, w, more);
                split_is_match(prefix, suffix, t, l, k);
                reveal(matches_text);
                assert(t.take(l).take(k) =~= t.take(k));
            }
        }
    } else {
        if r is Some {
            let i = choose|i: int| #[trigger] places(i) && marks[i] == r->0;
            assert(is_match(prefix, suffix, t, i, end));
            assert forall|k: int| #[trigger] is_match(prefix, suffix, t, k, end) implies i <= k by {
                assert(places(k));
                if k < i {
                    byte_len_grows(t, k, i);
                }
            }
        } else {
            assert forall|k: int| !#[trigger] is_match(prefix, suffix, t, k, end) by {
                assert(!places(k));
            }
        }
    }
}

/// The shortest prefix of a text after which the rest of the text is a suffix. It is given as
/// the byte where it ends.
pub fn find_match_end(text: &Substr, prefix: Box<Pattern>, suffix: Box<Pattern>) -> (r: Option<
    usize,
>)
    ensures
        is_found_end(*prefix, *suffix, substr_chars(*text), r),
{
    let ghost t = substr_chars(*text);
    let ghost p1 = *prefix;
    let ghost p2 = *suffix;
    let ghost p = Pattern::Concat(prefix, suffix);
    let size = substr_len(text);
    let mut m = Machine::start(Box::new(Pattern::Concat(prefix, suffix)));
    let mut pos: usize = 0;
    let ghost mut n: int = 0;
    let ghost mut closed = false;
    proof {
        assert(t.take(0) =~= Seq::empty());
        assert(t.take(t.len() as int) =~= t);
        byte_len_empty();
        at_most_bytes(t);
    }
    for ch in it: substr_str(text).chars()
        invariant_except_break
            !closed,
            n == it.index(),
        invariant
            it.seq() == t,
            0 <= n <= t.len(),
            size == byte_len(t),
            t.len() <= size,
            t.take(t.len() as int) == t,
            p == Pattern::Concat(Box::new(p1), Box::new(p2)),
            m.wf(),
            *m.pattern == p,
            m.text@ == t.take(n),
            m.marks@.len() == n + 1,
            forall|k: int| 0 <= k <= n ==> #[trigger] m.marks@[k] == byte_len(t.take(k)),
            pos == byte_len(t.take(n)),
            closed ==> verdict(p, t.take(n)) is None,
        ensures
            closed || n == t.len(),
    {
        if m.accepts().is_none() {
            proof {
                closed = true;
            }
            break;
        }
        let len = char_len(ch);
        proof {
            assert(t.take(n + 1) =~= t.take(n).push(ch));
            byte_len_push(t.take(n), ch);
            if n + 1 < t.len() {
                byte_len_grows(t, n + 1, t.len() as int);
            }
        }
        m.advance(pos, len, ch);
        pos = pos + len;
        proof {
            n = n + 1;
        }
    }
    let r = m.leftmost_accepting_split();
    proof {
        split_at_end(p1, p2, t, n, m.marks@, r);
    }
    r
}

} // verus!
