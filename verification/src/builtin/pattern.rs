//! Patterns of texts, the texts that match them, and what can be told of a text read so far.
use crate::big_int::int_value;
use crate::sub_text::substr_chars;
use arcstr::Substr;
use num_bigint::BigInt;
use vstd::prelude::*;

verus! {

/// A class of characters: those in one of the ranges, whose ends count too.
#[derive(Debug)]
pub struct CharClass {
    pub ranges: Vec<(char, char)>,
}

impl CharClass {
    /// Whether a character is in the class.
    pub open spec fn has(self, c: char) -> bool {
        exists|i: int|
            0 <= i < self.ranges@.len() && (#[trigger] self.ranges@[i]).0 <= c && c
                <= self.ranges@[i].1
    }

    /// Whether a character is in the class.
    pub fn contains(&self, c: char) -> (r: bool)
        ensures
            r == self.has(c),
    {
        let mut i: usize = 0;
        while i < self.ranges.len()
            invariant
                i <= self.ranges@.len(),
                forall|j: int|
                    0 <= j < i ==> !((#[trigger] self.ranges@[j]).0 <= c && c
                        <= self.ranges@[j].1),
            decreases self.ranges@.len() - i,
        {
            if self.ranges[i].0 <= c && c <= self.ranges[i].1 {
                return true;
            }
            i = i + 1;
        }
        false
    }
}

/// A pattern of texts.
#[derive(Debug)]
pub enum Pattern {
    /// No text.
    Nil,
    /// Every text.
    All,
    /// The empty text.
    Empty,
    /// The texts of that many characters.
    Length(BigInt),
    /// That text.
    Str(Substr),
    /// One character of the class.
    One(CharClass),
    /// One character that is not of the class.
    Non(CharClass),
    /// A text of the first pattern, then one of the second.
    Concat(Box<Pattern>, Box<Pattern>),
    /// The texts of both patterns.
    And(Box<Pattern>, Box<Pattern>),
    /// The texts of either pattern.
    Or(Box<Pattern>, Box<Pattern>),
    /// Any number of texts of the pattern, one after the other.
    Repeat(Box<Pattern>),
    /// One or more texts of the pattern, one after the other.
    Repeat1(Box<Pattern>),
}

/// Whether the text `w` matches the pattern `p`.
#[verifier::opaque]
pub open spec fn matches_text(p: Pattern, w: Seq<char>) -> bool
    decreases p, 0int, 0int,
{
    match p {
        Pattern::Nil => false,
        Pattern::All => true,
        Pattern::Empty => w.len() == 0,
        Pattern::Length(n) => w.len() == int_value(n),
        Pattern::Str(s) => w == substr_chars(s),
        Pattern::One(class) => w.len() == 1 && class.has(w[0]),
        Pattern::Non(class) => w.len() == 1 && !class.has(w[0]),
        Pattern::Concat(p1, p2) => exists|k: int|
            0 <= k <= w.len() && matches_text(*p1, #[trigger] w.take(k)) && matches_text(
                *p2,
                w.skip(k),
            ),
        Pattern::And(p1, p2) => matches_text(*p1, w) && matches_text(*p2, w),
        Pattern::Or(p1, p2) => matches_text(*p1, w) || matches_text(*p2, w),
        Pattern::Repeat(p1) => repeats(*p1, w),
        Pattern::Repeat1(p1) => exists|k: int|
            0 <= k <= w.len() && repeats(*p1, #[trigger] w.take(k)) && matches_text(
                *p1,
                w.skip(k),
            ),
    }
}

/// Whether `w` is any number of texts of the pattern `p`, one after the other: it is empty,
/// or such a text followed by one more that is not empty.
#[verifier::opaque]
pub open spec fn repeats(p: Pattern, w: Seq<char>) -> bool
    decreases p, 1int, w.len(),
{
    w.len() == 0 || exists|k: int|
        0 <= k < w.len() && repeats(p, #[trigger] w.take(k)) && matches_text(p, w.skip(k))
}

/// Whether a text of `p1` followed by one that is read as `p2` can be split at `k`.
pub open spec fn splits(p1: Pattern, w: Seq<char>, k: int) -> bool {
    0 <= k <= w.len() && matches_text(p1, w.take(k))
}

/// Whether the last of some texts of `p` can start at `k`.
pub open spec fn starts(p: Pattern, w: Seq<char>, k: int) -> bool {
    0 <= k < w.len() && repeats(p, w.take(k))
}

/// What a reader knows that has read the text `w` against the pattern `p`: that it matches,
/// that it does not match as it stands, or that nothing that starts with it matches.
#[verifier::opaque]
pub open spec fn verdict(p: Pattern, w: Seq<char>) -> Option<bool>
    decreases p,
{
    match p {
        Pattern::Nil => None,
        Pattern::All => Some(true),
        Pattern::Empty => if w.len() == 0 {
            Some(true)
        } else {
            None
        },
        Pattern::Length(n) => if w.len() == 0 || w.len() <= int_value(n) {
            Some(w.len() == int_value(n))
        } else {
            None
        },
        Pattern::Str(s) => if w.is_prefix_of(substr_chars(s)) {
            Some(w == substr_chars(s))
        } else {
            None
        },
        Pattern::One(class) => if w.len() == 0 {
            Some(false)
        } else if w.len() == 1 && class.has(w[0]) {
            Some(true)
        } else {
            None
        },
        Pattern::Non(class) => if w.len() == 0 {
            Some(false)
        } else if w.len() == 1 && !class.has(w[0]) {
            Some(true)
        } else {
            None
        },
        Pattern::Concat(p1, p2) => if exists|k: int| #[trigger]
            splits(*p1, w, k) && verdict(*p2, w.skip(k)) == Some(true) {
            Some(true)
        } else if exists|k: int| #[trigger]
            splits(*p1, w, k) && verdict(*p2, w.skip(k)) is Some {
            Some(false)
        } else if verdict(*p1, w) is Some {
            Some(false)
        } else {
            None
        },
        Pattern::And(p1, p2) => match (verdict(*p1, w), verdict(*p2, w)) {
            (Some(a1), Some(a2)) => Some(a1 && a2),
            _ => None,
        },
        Pattern::Or(p1, p2) => match (verdict(*p1, w), verdict(*p2, w)) {
            (Some(a1), Some(a2)) => Some(a1 || a2),
            (None, a) => a,
            (a, None) => a,
        },
        Pattern::Repeat(p1) => if w.len() == 0 {
            Some(true)
        } else if exists|k: int| #[trigger]
            starts(*p1, w, k) && verdict(*p1, w.skip(k)) == Some(true) {
            Some(true)
        } else if exists|k: int| #[trigger]
            starts(*p1, w, k) && verdict(*p1, w.skip(k)) is Some {
            Some(false)
        } else {
            None
        },
        Pattern::Repeat1(p1) => if w.len() == 0 {
            verdict(*p1, w)
        } else if exists|k: int| #[trigger]
            starts(*p1, w, k) && verdict(*p1, w.skip(k)) == Some(true) {
            Some(true)
        } else if exists|k: int| #[trigger]
            starts(*p1, w, k) && verdict(*p1, w.skip(k)) is Some {
            Some(false)
        } else {
            None
        },
    }
}

/// Whether a reader that has read `w` against `p` has given up.
#[verifier::opaque]
pub open spec fn halted(p: Pattern, w: Seq<char>) -> bool
    decreases p,
{
    match p {
        Pattern::Nil => true,
        Pattern::All => false,
        Pattern::Empty | Pattern::Length(_) | Pattern::Str(_) | Pattern::One(_) | Pattern::Non(
            _,
        ) => verdict(p, w) is None,
        Pattern::Concat(p1, p2) => {
            &&& w.len() > 0
            &&& halted(*p1, w)
            &&& forall|k: int| #[trigger]
                splits(*p1, w, k) ==> k < w.len() && halted(*p2, w.skip(k))
        },
        Pattern::And(p1, p2) => w.len() > 0 && (halted(*p1, w) || halted(*p2, w)),
        Pattern::Or(p1, p2) => w.len() > 0 && halted(*p1, w) && halted(*p2, w),
        Pattern::Repeat(p1) => {
            &&& w.len() > 1
            &&& forall|k: int| #[trigger] starts(*p1, w, k) ==> halted(*p1, w.skip(k))
        },
        Pattern::Repeat1(p1) => {
            &&& w.len() > 0
            &&& forall|k: int| #[trigger] starts(*p1, w, k) ==> halted(*p1, w.skip(k))
        },
    }
}

/// What is read matches exactly if the verdict is that it does.
pub proof fn verdict_says_match(p: Pattern, w: Seq<char>)
    ensures
        verdict(p, w) == Some(true) <==> matches_text(p, w),
    decreases p, 0int,
{
    reveal(matches_text);
    reveal(repeats);
    reveal(verdict);
    match p {
        Pattern::Str(s) => {
            assert(substr_chars(s).is_prefix_of(substr_chars(s)));
        },
        Pattern::Concat(p1, p2) => {
            assert forall|k: int| #[trigger] splits(*p1, w, k) implies (verdict(*p2, w.skip(k))
                == Some(true) <==> matches_text(*p2, w.skip(k))) by {
                verdict_says_match(*p2, w.skip(k));
            }
            if matches_text(p, w) {
                let k = choose|k: int|
                    0 <= k <= w.len() && matches_text(*p1, #[trigger] w.take(k)) && matches_text(
                        *p2,
                        w.skip(k),
                    );
                assert(splits(*p1, w, k));
            }
        },
        Pattern::And(p1, p2) | Pattern::Or(p1, p2) => {
            verdict_says_match(*p1, w);
            verdict_says_match(*p2, w);
        },
        Pattern::Repeat(p1) => {
            assert(matches_text(p, w) == repeats(*p1, w));
            repeats_by_verdict(*p1, w);
        },
        Pattern::Repeat1(p1) => {
            repeats_by_verdict(*p1, w);
            verdict_says_match(*p1, w);
            repeats1_text(*p1, w);
        },
        _ => {},
    }
}

/// A text that is not empty repeats a pattern exactly if its last part is found to match.
pub proof fn repeats_by_verdict(p: Pattern, w: Seq<char>)
    ensures
        w.len() > 0 ==> (repeats(p, w) <==> exists|k: int| #[trigger]
            starts(p, w, k) && verdict(p, w.skip(k)) == Some(true)),
    decreases p, 1int,
{
    reveal(matches_text);
    reveal(repeats);
    reveal(verdict);
    assert forall|k: int| #[trigger] starts(p, w, k) implies (verdict(p, w.skip(k)) == Some(true)
        <==> matches_text(p, w.skip(k))) by {
        verdict_says_match(p, w.skip(k));
    }
    if w.len() > 0 && repeats(p, w) {
        let k = choose|k: int|
            0 <= k < w.len() && repeats(p, #[trigger] w.take(k)) && matches_text(p, w.skip(k));
        assert(starts(p, w, k));
    }
}

/// One or more texts of a pattern are any number of them, but that the empty text has to
/// match itself.
pub proof fn repeats1_text(p: Pattern, w: Seq<char>)
    ensures
        (exists|k: int|
            0 <= k <= w.len() && repeats(p, #[trigger] w.take(k)) && matches_text(p, w.skip(k)))
            <==> (if w.len() == 0 {
            matches_text(p, w)
        } else {
            repeats(p, w)
        }),
{
    reveal(matches_text);
    reveal(repeats);
    assert(w.take(w.len() as int) =~= w);
    if w.len() == 0 {
        assert(w.skip(0) =~= w);
        assert(repeats(p, w.take(0)));
    }
}

/// A reader that has given up tells that nothing matches.
pub proof fn halted_verdict(p: Pattern, w: Seq<char>)
    requires
        halted(p, w),
    ensures
        verdict(p, w) is None,
        !matches_text(p, w),
    decreases p,
{
    reveal(matches_text);
    reveal(repeats);
    reveal(verdict);
    reveal(halted);
    verdict_says_match(p, w);
    match p {
        Pattern::Concat(p1, p2) => {
            halted_verdict(*p1, w);
            assert forall|k: int| #[trigger] splits(*p1, w, k) implies verdict(
                *p2,
                w.skip(k),
            ) is None by {
                halted_verdict(*p2, w.skip(k));
            }
        },
        Pattern::And(p1, p2) => {
            if halted(*p1, w) {
                halted_verdict(*p1, w);
            } else {
                halted_verdict(*p2, w);
            }
        },
        Pattern::Or(p1, p2) => {
            halted_verdict(*p1, w);
            halted_verdict(*p2, w);
        },
        Pattern::Repeat(p1) | Pattern::Repeat1(p1) => {
            assert forall|k: int| #[trigger] starts(*p1, w, k) implies verdict(
                *p1,
                w.skip(k),
            ) is None by {
                halted_verdict(*p1, w.skip(k));
            }
        },
        _ => {},
    }
}

/// A reader that has given up does not take up again.
pub proof fn halted_push(p: Pattern, w: Seq<char>, c: char)
    requires
        halted(p, w),
    ensures
        halted(p, w.push(c)),
    decreases p,
{
    reveal(matches_text);
    reveal(repeats);
    reveal(verdict);
    reveal(halted);
    let v = w.push(c);
    match p {
        Pattern::Str(s) => {
            let t = substr_chars(s);
            if v.is_prefix_of(t) {
                assert(w =~= v.take(w.len() as int));
                assert(w.is_prefix_of(t));
            }
        },
        Pattern::Concat(p1, p2) => {
            halted_push(*p1, w, c);
            halted_verdict(*p1, w);
            halted_verdict(*p1, v);
            assert forall|k: int| #[trigger] splits(*p1, v, k) implies k < v.len() && halted(
                *p2,
                v.skip(k),
            ) by {
                if k == v.len() {
                    assert(v.take(k) =~= v);
                } else {
                    assert(v.take(k) =~= w.take(k));
                    assert(splits(*p1, w, k));
                    assert(v.skip(k) =~= w.skip(k).push(c));
                    halted_push(*p2, w.skip(k), c);
                }
            }
        },
        Pattern::And(p1, p2) => {
            if halted(*p1, w) {
                halted_push(*p1, w, c);
            } else {
                halted_push(*p2, w, c);
            }
        },
        Pattern::Or(p1, p2) => {
            halted_push(*p1, w, c);
            halted_push(*p2, w, c);
        },
        Pattern::Repeat(p1) | Pattern::Repeat1(p1) => {
            assert forall|k: int| #[trigger] starts(*p1, v, k) implies halted(*p1, v.skip(k)) by {
                assert(v.take(k) =~= w.take(k));
                if k == w.len() {
                    assert(w.take(k) =~= w);
                    let j = choose|j: int|
                        0 <= j < w.len() && repeats(*p1, #[trigger] w.take(j)) && matches_text(
                            *p1,
                            w.skip(j),
                        );
                    assert(starts(*p1, w, j));
                    halted_verdict(*p1, w.skip(j));
                } else {
                    assert(starts(*p1, w, k));
                    assert(v.skip(k) =~= w.skip(k).push(c));
                    halted_push(*p1, w.skip(k), c);
                }
            }
        },
        _ => {},
    }
}

/// A reader that has given up does not take up again, however much it reads.
pub proof fn halted_is_final(p: Pattern, w: Seq<char>, more: Seq<char>)
    requires
        halted(p, w),
    ensures
        halted(p, w + more),
        !matches_text(p, w + more),
    decreases more.len(),
{
    if more.len() == 0 {
        assert(w + more =~= w);
    } else {
        let last = more.last();
        halted_is_final(p, w, more.drop_last());
        assert(w + more =~= (w + more.drop_last()).push(last));
        halted_push(p, w + more.drop_last(), last);
    }
    halted_verdict(p, w + more);
}

/// Once nothing that starts with what is read matches, more does not help.
proof fn verdict_stays_none(p: Pattern, w: Seq<char>, c: char)
    requires
        verdict(p, w) is None,
    ensures
        verdict(p, w.push(c)) is None,
    decreases p,
{
    reveal(matches_text);
    reveal(repeats);
    reveal(verdict);
    let v = w.push(c);
    match p {
        Pattern::Str(s) => {
            if v.is_prefix_of(substr_chars(s)) {
                assert(w =~= v.take(w.len() as int));
                assert(w.is_prefix_of(substr_chars(s)));
            }
        },
        Pattern::Concat(p1, p2) => {
            verdict_stays_none(*p1, w, c);
            verdict_says_match(*p1, v);
            assert forall|k: int| #[trigger] splits(*p1, v, k) implies verdict(
                *p2,
                v.skip(k),
            ) is None by {
                if k == v.len() {
                    assert(v.take(k) =~= v);
                } else {
                    assert(v.take(k) =~= w.take(k));
                    assert(splits(*p1, w, k));
                    assert(v.skip(k) =~= w.skip(k).push(c));
                    verdict_stays_none(*p2, w.skip(k), c);
                }
            }
        },
        Pattern::And(p1, p2) => {
            if verdict(*p1, w) is None {
                verdict_stays_none(*p1, w, c);
            } else {
                verdict_stays_none(*p2, w, c);
            }
        },
        Pattern::Or(p1, p2) => {
            verdict_stays_none(*p1, w, c);
            verdict_stays_none(*p2, w, c);
        },
        Pattern::Repeat(p1) | Pattern::Repeat1(p1) => {
            repeats_by_verdict(*p1, w);
            assert forall|k: int| #[trigger] starts(*p1, v, k) implies verdict(
                *p1,
                v.skip(k),
            ) is None by {
                assert(v.take(k) =~= w.take(k));
                if k == w.len() && w.len() > 0 {
                    assert(w.take(k) =~= w);
                } else {
                    if w.len() > 0 {
                        assert(starts(*p1, w, k));
                    }
                    assert(w.skip(0) =~= w);
                    assert(v.skip(k) =~= w.skip(k).push(c));
                    verdict_stays_none(*p1, w.skip(k), c);
                }
            }
        },
        _ => {},
    }
}

/// If the verdict on a text is that nothing that starts with it matches, then neither the
/// text nor any longer one does.
pub proof fn verdict_none_is_final(p: Pattern, w: Seq<char>, more: Seq<char>)
    requires
        verdict(p, w) is None,
    ensures
        verdict(p, w + more) is None,
        !matches_text(p, w + more),
    decreases more.len(),
{
    if more.len() == 0 {
        assert(w + more =~= w);
    } else {
        let last = more.last();
        verdict_none_is_final(p, w, more.drop_last());
        assert(w + more =~= (w + more.drop_last()).push(last));
        verdict_stays_none(p, w + more.drop_last(), last);
    }
    verdict_says_match(p, w + more);
}

/// Texts of a pattern after texts of the pattern are again texts of the pattern.
pub proof fn repeats_add(p: Pattern, u: Seq<char>, v: Seq<char>)
    requires
        repeats(p, u),
        repeats(p, v),
    ensures
        repeats(p, u + v),
    decreases v.len(),
{
    reveal(matches_text);
    reveal(repeats);
    if v.len() == 0 {
        assert(u + v =~= u);
    } else {
        let k = choose|k: int|
            0 <= k < v.len() && repeats(p, #[trigger] v.take(k)) && matches_text(p, v.skip(k));
        repeats_add(p, u, v.take(k));
        let w = u + v;
        assert(w.take(u.len() + k) =~= u + v.take(k));
        assert(w.skip(u.len() + k) =~= v.skip(k));
    }
}

/// A text of a pattern is one of any number of them.
pub proof fn repeats_one(p: Pattern, w: Seq<char>)
    requires
        matches_text(p, w),
    ensures
        repeats(p, w),
{
    reveal(matches_text);
    reveal(repeats);
    if w.len() > 0 {
        assert(w.take(0).len() == 0);
        assert(repeats(p, w.take(0)));
        assert(w.skip(0) =~= w);
    }
}

} // verus!
