//! How patterns are put together from what is read of them.
use super::pattern::{matches_text, CharClass, Pattern};
use crate::text::text_same;
use arcstr::Substr;
use num_bigint::BigInt;
use vstd::prelude::*;

verus! {

/// The signals that say what kind of pattern is to come.
#[derive(Debug, Clone, Copy, PartialEq, Eq)]
pub enum PatternSignal {
    And,
    Concat,
    Empty,
    Length,
    Non,
    One,
    Or,
    Repeat,
    Repeat1,
    Str,
}

/// The signal for a kind of pattern with the name `name`.
pub open spec fn named_pattern_signal(name: Seq<char>) -> Option<PatternSignal> {
    if name == "and"@ {
        Some(PatternSignal::And)
    } else if name == "concat"@ {
        Some(PatternSignal::Concat)
    } else if name == "empty"@ {
        Some(PatternSignal::Empty)
    } else if name == "length"@ {
        Some(PatternSignal::Length)
    } else if name == "non"@ {
        Some(PatternSignal::Non)
    } else if name == "one"@ {
        Some(PatternSignal::One)
    } else if name == "or"@ {
        Some(PatternSignal::Or)
    } else if name == "repeat"@ {
        Some(PatternSignal::Repeat)
    } else if name == "repeat1"@ {
        Some(PatternSignal::Repeat1)
    } else if name == "str"@ {
        Some(PatternSignal::Str)
    } else {
        None
    }
}

/// The signal for a kind of pattern with the name `name`, if there is one.
pub fn pattern_signal(name: &str) -> (r: Option<PatternSignal>)
    ensures
        r == named_pattern_signal(name@),
{
    if text_same(name, "and") {
        Some(PatternSignal::And)
    } else if text_same(name, "concat") {
        Some(PatternSignal::Concat)
    } else if text_same(name, "empty") {
        Some(PatternSignal::Empty)
    } else if text_same(name, "length") {
        Some(PatternSignal::Length)
    } else if text_same(name, "non") {
        Some(PatternSignal::Non)
    } else if text_same(name, "one") {
        Some(PatternSignal::One)
    } else if text_same(name, "or") {
        Some(PatternSignal::Or)
    } else if text_same(name, "repeat") {
        Some(PatternSignal::Repeat)
    } else if text_same(name, "repeat1") {
        Some(PatternSignal::Repeat1)
    } else if text_same(name, "str") {
        Some(PatternSignal::Str)
    } else {
        None
    }
}

/// What is read after the signal for a kind of pattern.
#[derive(Debug)]
pub enum PatternParts {
    And(Vec<Box<Pattern>>),
    Concat(Vec<Box<Pattern>>),
    Empty,
    Length(BigInt),
    Non(CharClass),
    One(CharClass),
    Or(Vec<Box<Pattern>>),
    Repeat(Box<Pattern>),
    Repeat1(Box<Pattern>),
    Str(Substr),
}

/// The pattern of the texts of all of the patterns.
pub open spec fn all_of(patterns: Seq<Box<Pattern>>) -> Pattern
    decreases patterns.len(),
{
    if patterns.len() == 0 {
        Pattern::All
    } else {
        Pattern::And(patterns[0], Box::new(all_of(patterns.drop_first())))
    }
}

/// The pattern of the texts of the patterns, one after the other.
pub open spec fn row_of(patterns: Seq<Box<Pattern>>) -> Pattern
    decreases patterns.len(),
{
    if patterns.len() == 0 {
        Pattern::Empty
    } else {
        Pattern::Concat(patterns[0], Box::new(row_of(patterns.drop_first())))
    }
}

/// The pattern of the texts of any of the patterns.
pub open spec fn any_of(patterns: Seq<Box<Pattern>>) -> Pattern
    decreases patterns.len(),
{
    if patterns.len() == 0 {
        Pattern::Nil
    } else {
        Pattern::Or(patterns[0], Box::new(any_of(patterns.drop_first())))
    }
}

impl PatternParts {
    /// The pattern that is made of the parts.
    pub open spec fn pattern(self) -> Pattern {
        match self {
            PatternParts::And(patterns) => all_of(patterns@),
            PatternParts::Concat(patterns) => row_of(patterns@),
            PatternParts::Empty => Pattern::Empty,
            PatternParts::Length(n) => Pattern::Length(n),
            PatternParts::Non(class) => Pattern::Non(class),
            PatternParts::One(class) => Pattern::One(class),
            PatternParts::Or(patterns) => any_of(patterns@),
            PatternParts::Repeat(p) => Pattern::Repeat(p),
            PatternParts::Repeat1(p) => Pattern::Repeat1(p),
            PatternParts::Str(s) => Pattern::Str(s),
        }
    }
}

impl Pattern {
    /// The pattern that is made of what is read of it.
    pub fn readback(parts: PatternParts) -> (r: Box<Pattern>)
        ensures
            *r == parts.pattern(),
    {
        match parts {
            PatternParts::And(patterns) => {
                let ghost all = patterns@;
                let mut patterns = patterns;
                let mut r = Box::new(Pattern::All);
                assert(all.skip(all.len() as int) =~= Seq::empty());
                loop
                    invariant
                        patterns@.len() <= all.len(),
                        patterns@ == all.take(patterns@.len() as int),
                        *r == all_of(all.skip(patterns@.len() as int)),
                    ensures
                        patterns@.len() == 0,
                    decreases patterns@.len(),
                {
                    match patterns.pop() {
                        None => {
                            break;
                        },
                        Some(p) => {
                            let ghost rest = all.skip(patterns@.len() as int);
                            assert(rest.drop_first() =~= all.skip(patterns@.len() as int + 1));
                            r = Box::new(Pattern::And(p, r));
                        },
                    }
                }
                assert(all.skip(0) =~= all);
                r
            },
            PatternParts::Concat(patterns) => {
                let ghost all = patterns@;
                let mut patterns = patterns;
                let mut r = Box::new(Pattern::Empty);
                assert(all.skip(all.len() as int) =~= Seq::empty());
                loop
                    invariant
                        patterns@.len() <= all.len(),
                        patterns@ == all.take(patterns@.len() as int),
                        *r == row_of(all.skip(patterns@.len() as int)),
                    ensures
                        patterns@.len() == 0,
                    decreases patterns@.len(),
                {
                    match patterns.pop() {
                        None => {
                            break;
                        },
                        Some(p) => {
                            let ghost rest = all.skip(patterns@.len() as int);
                            assert(rest.drop_first() =~= all.skip(patterns@.len() as int + 1));
                            r = Box::new(Pattern::Concat(p, r));
                        },
                    }
                }
                assert(all.skip(0) =~= all);
                r
            },
            PatternParts::Empty => Box::new(Pattern::Empty),
            PatternParts::Length(n) => Box::new(Pattern::Length(n)),
            PatternParts::Non(class) => Box::new(Pattern::Non(class)),
            PatternParts::One(class) => Box::new(Pattern::One(class)),
            PatternParts::Or(patterns) => {
                let ghost all = patterns@;
                let mut patterns = patterns;
                let mut r = Box::new(Pattern::Nil);
                assert(all.skip(all.len() as int) =~= Seq::empty());
                loop
                    invariant
                        patterns@.len() <= all.len(),
                        patterns@ == all.take(patterns@.len() as int),
                        *r == any_of(all.skip(patterns@.len() as int)),
                    ensures
                        patterns@.len() == 0,
                    decreases patterns@.len(),
                {
                    match patterns.pop() {
                        None => {
                            break;
                        },
                        Some(p) => {
                            let ghost rest = all.skip(patterns@.len() as int);
                            assert(rest.drop_first() =~= all.skip(patterns@.len() as int + 1));
                            r = Box::new(Pattern::Or(p, r));
                        },
                    }
                }
                assert(all.skip(0) =~= all);
                r
            },
            PatternParts::Repeat(p) => Box::new(Pattern::Repeat(p)),
            PatternParts::Repeat1(p) => Box::new(Pattern::Repeat1(p)),
            PatternParts::Str(s) => Box::new(Pattern::Str(s)),
        }
    }
}

/// A text matches all of the patterns together exactly if it matches each of them.
pub proof fn all_of_matches(patterns: Seq<Box<Pattern>>, w: Seq<char>)
    ensures
        matches_text(all_of(patterns), w) <==> forall|i: int|
            0 <= i < patterns.len() ==> matches_text(*#[trigger] patterns[i], w),
    decreases patterns.len(),
{
    reveal(matches_text);
    if patterns.len() > 0 {
        let rest = patterns.drop_first();
        all_of_matches(rest, w);
        assert(forall|i: int| 0 <= i < rest.len() ==> rest[i] == #[trigger] patterns[i + 1]);
        if matches_text(all_of(patterns), w) {
            assert forall|i: int| 0 <= i < patterns.len() implies matches_text(
                *#[trigger] patterns[i],
                w,
            ) by {
                if i > 0 {
                    assert(rest[i - 1] == patterns[i]);
                }
            }
        }
    }
}

/// A text matches any of the patterns exactly if it matches one of them.
pub proof fn any_of_matches(patterns: Seq<Box<Pattern>>, w: Seq<char>)
    ensures
        matches_text(any_of(patterns), w) <==> exists|i: int|
            0 <= i < patterns.len() && matches_text(*#[trigger] patterns[i], w),
    decreases patterns.len(),
{
    reveal(matches_text);
    if patterns.len() > 0 {
        let rest = patterns.drop_first();
        any_of_matches(rest, w);
        if matches_text(any_of(rest), w) {
            let i = choose|i: int| 0 <= i < rest.len() && matches_text(*#[trigger] rest[i], w);
            assert(patterns[i + 1] == rest[i]);
        }
        if exists|i: int| 0 <= i < patterns.len() && matches_text(*#[trigger] patterns[i], w) {
            let i = choose|i: int|
                0 <= i < patterns.len() && matches_text(*#[trigger] patterns[i], w);
            if i > 0 {
                assert(rest[i - 1] == patterns[i]);
            }
        }
    }
}

/// Texts that match the patterns one by one, one after the other, match the patterns in a
/// row.
pub proof fn row_of_matches(patterns: Seq<Box<Pattern>>, parts: Seq<Seq<char>>)
    requires
        parts.len() == patterns.len(),
        forall|i: int| 0 <= i < parts.len() ==> matches_text(*#[trigger] patterns[i], parts[i]),
    ensures
        matches_text(row_of(patterns), parts.flatten()),
    decreases patterns.len(),
{
    reveal(matches_text);
    if patterns.len() > 0 {
        let rest = patterns.drop_first();
        let others = parts.drop_first();
        assert forall|i: int| 0 <= i < others.len() implies matches_text(
            *#[trigger] rest[i],
            others[i],
        ) by {
            assert(rest[i] == patterns[i + 1]);
        }
        row_of_matches(rest, others);
        let w = parts.flatten();
        let k = parts[0].len() as int;
        assert(w == parts[0] + others.flatten());
        assert(w.take(k) =~= parts[0]);
        assert(w.skip(k) =~= others.flatten());
    }
}

/// A text that matches the patterns in a row is made of texts that match them one by one.
pub proof fn row_of_parts(patterns: Seq<Box<Pattern>>, w: Seq<char>) -> (parts: Seq<Seq<char>>)
    requires
        matches_text(row_of(patterns), w),
    ensures
        parts.flatten() == w,
        parts.len() == patterns.len(),
        forall|i: int| 0 <= i < parts.len() ==> matches_text(*#[trigger] patterns[i], parts[i]),
    decreases patterns.len(),
{
    reveal(matches_text);
    if patterns.len() == 0 {
        assert(w =~= Seq::empty());
        Seq::empty()
    } else {
        let rest = patterns.drop_first();
        let k = choose|k: int|
            0 <= k <= w.len() && matches_text(*patterns[0], #[trigger] w.take(k)) && matches_text(
                row_of(rest),
                w.skip(k),
            );
        let others = row_of_parts(rest, w.skip(k));
        let parts = seq![w.take(k)] + others;
        assert(parts.drop_first() =~= others);
        assert(w.take(k) + w.skip(k) =~= w);
        assert forall|i: int| 0 <= i < parts.len() implies matches_text(
            *#[trigger] patterns[i],
            parts[i],
        ) by {
            if i > 0 {
                assert(rest[i - 1] == patterns[i]);
                assert(others[i - 1] == parts[i]);
            }
        }
        parts
    }
}

} // verus!
