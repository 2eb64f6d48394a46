//! What holds of the built-in definitions.
use super::action::Said;
use super::integer::{clamped, from_string_says, greater, lesser, modulo, range_says};
use super::pattern::{matches_text, repeats, repeats_add, repeats_one, verdict, CharClass, Pattern};
use super::readback::{
    all_of_matches, any_of_matches, named_pattern_signal, row_of_matches, row_of_parts,
    PatternParts, PatternSignal,
};
use super::search::{is_best_match, is_match};
use super::string::{
    has_match, is_shortest_prefix, named_builder_signal, named_reader_signal, reader_says,
    string_module, BuilderSignal, ReaderCommand, ReaderSignal, StringExternal,
};
use crate::big_int::{digit_row_value, int_value, is_digit_row};
use crate::model;
use crate::sub_text::substr_chars;
use crate::types::PrimitiveType;
use arcstr::Substr;
use num_bigint::BigInt;
use vstd::prelude::*;

verus! {

/// Whether the text `w` is the texts `parts`, one after the other, each of which matches `p`.
pub open spec fn made_of(p: Pattern, parts: Seq<Seq<char>>, w: Seq<char>) -> bool {
    &&& parts.flatten() == w
    &&& forall|i: int| 0 <= i < parts.len() ==> matches_text(p, #[trigger] parts[i])
}

/// Whether the text `w` is the texts `parts`, one after the other, as many as there are patterns,
/// each of which matches the pattern at its place.
pub open spec fn made_in_row(
    patterns: Seq<Box<Pattern>>,
    parts: Seq<Seq<char>>,
    w: Seq<char>,
) -> bool {
    &&& parts.len() == patterns.len()
    &&& parts.flatten() == w
    &&& forall|i: int| 0 <= i < parts.len() ==> matches_text(*patterns[i], #[trigger] parts[i])
}

/// Texts and one more, one after the other.
proof fn flatten_push(parts: Seq<Seq<char>>, last: Seq<char>)
    ensures
        parts.push(last).flatten() == parts.flatten() + last,
{
    let all = parts.push(last);
    parts.lemma_flatten_and_flatten_alt_are_equivalent();
    all.lemma_flatten_and_flatten_alt_are_equivalent();
    assert(all.drop_last() =~= parts);
}

/// What repeats a pattern is made of texts of the pattern.
proof fn repeats_has_parts(p: Pattern, w: Seq<char>) -> (parts: Seq<Seq<char>>)
    requires
        repeats(p, w),
    ensures
        made_of(p, parts, w),
    decreases w.len(),
{
    reveal(matches_text);
    reveal(repeats);
    if w.len() == 0 {
        assert(w =~= Seq::empty());
        Seq::empty()
    } else {
        let k = choose|k: int|
            0 <= k < w.len() && repeats(p, #[trigger] w.take(k)) && matches_text(p, w.skip(k));
        let before = repeats_has_parts(p, w.take(k));
        flatten_push(before, w.skip(k));
        assert(w.take(k) + w.skip(k) =~= w);
        before.push(w.skip(k))
    }
}

/// Texts of a pattern, one after the other, repeat it.
proof fn parts_repeat(p: Pattern, parts: Seq<Seq<char>>)
    requires
        forall|i: int| 0 <= i < parts.len() ==> matches_text(p, #[trigger] parts[i]),
    ensures
        repeats(p, parts.flatten()),
    decreases parts.len(),
{
    reveal(matches_text);
    reveal(repeats);
    if parts.len() > 0 {
        let before = parts.drop_last();
        assert forall|i: int| 0 <= i < before.len() implies matches_text(
            p,
            #[trigger] before[i],
        ) by {
            assert(before[i] == parts[i]);
        }
        parts_repeat(p, before);
        repeats_one(p, parts.last());
        repeats_add(p, before.flatten(), parts.last());
        flatten_push(before, parts.last());
        assert(before.push(parts.last()) =~= parts);
    }
}

/// A text matches a pattern that is repeated exactly if it is any number of texts, one after the
/// other, each of which matches the pattern.
pub proof fn repeat_matches(p: Box<Pattern>, w: Seq<char>)
    ensures
        matches_text(Pattern::Repeat(p), w) <==> exists|parts: Seq<Seq<char>>| #[trigger]
            made_of(*p, parts, w),
{
    reveal(matches_text);
    reveal(repeats);
    if matches_text(Pattern::Repeat(p), w) {
        let parts = repeats_has_parts(*p, w);
        assert(made_of(*p, parts, w));
    }
    if exists|parts: Seq<Seq<char>>| #[trigger] made_of(*p, parts, w) {
        let parts = choose|parts: Seq<Seq<char>>| #[trigger] made_of(*p, parts, w);
        parts_repeat(*p, parts);
    }
}

/// A text matches a pattern that is repeated at least once exactly if it is one or more texts, one
/// after the other, each of which matches the pattern.
pub proof fn repeat1_matches(p: Box<Pattern>, w: Seq<char>)
    ensures
        matches_text(Pattern::Repeat1(p), w) <==> exists|parts: Seq<Seq<char>>| #[trigger]
            made_of(*p, parts, w) && parts.len() > 0,
{
    reveal(matches_text);
    reveal(repeats);
    if matches_text(Pattern::Repeat1(p), w) {
        let k = choose|k: int|
            0 <= k <= w.len() && repeats(*p, #[trigger] w.take(k)) && matches_text(*p, w.skip(k));
        let before = repeats_has_parts(*p, w.take(k));
        let parts = before.push(w.skip(k));
        flatten_push(before, w.skip(k));
        assert(w.take(k) + w.skip(k) =~= w);
        assert(made_of(*p, parts, w));
    }
    if exists|parts: Seq<Seq<char>>| #[trigger] made_of(*p, parts, w) && parts.len() > 0 {
        let parts = choose|parts: Seq<Seq<char>>| #[trigger]
            made_of(*p, parts, w) && parts.len() > 0;
        let before = parts.drop_last();
        assert forall|i: int| 0 <= i < before.len() implies matches_text(
            *p,
            #[trigger] before[i],
        ) by {
            assert(before[i] == parts[i]);
        }
        parts_repeat(*p, before);
        flatten_push(before, parts.last());
        assert(before.push(parts.last()) =~= parts);
        let k = before.flatten().len() as int;
        assert(w.take(k) =~= before.flatten());
        assert(w.skip(k) =~= parts.last());
    }
}

/// A text matches two patterns in a row exactly if it is a text of the first one and then a text
/// of the second one.
pub proof fn concat_matches(p: Box<Pattern>, q: Box<Pattern>, w: Seq<char>)
    ensures
        matches_text(Pattern::Concat(p, q), w) <==> exists|u: Seq<char>, v: Seq<char>|
            w == #[trigger] (u + v) && matches_text(*p, u) && matches_text(*q, v),
{
    reveal(matches_text);
    if matches_text(Pattern::Concat(p, q), w) {
        let k = choose|k: int|
            0 <= k <= w.len() && matches_text(*p, #[trigger] w.take(k)) && matches_text(
                *q,
                w.skip(k),
            );
        assert(w.take(k) + w.skip(k) =~= w);
    }
    if exists|u: Seq<char>, v: Seq<char>|
        w == #[trigger] (u + v) && matches_text(*p, u) && matches_text(*q, v) {
        let (u, v) = choose|u: Seq<char>, v: Seq<char>|
            w == #[trigger] (u + v) && matches_text(*p, u) && matches_text(*q, v);
        let k = u.len() as int;
        assert(w.take(k) =~= u);
        assert(w.skip(k) =~= v);
    }
}

/// What the simple patterns match: no text, every text, the empty one, those of a length, one
/// text, those of one character that lies in one of the ranges, and those of one that does not;
/// and a text matches both of two patterns or either of them as it matches them.
pub proof fn simple_matches(
    n: BigInt,
    s: Substr,
    class: CharClass,
    p: Box<Pattern>,
    q: Box<Pattern>,
    w: Seq<char>,
)
    ensures
        !matches_text(Pattern::Nil, w),
        matches_text(Pattern::All, w),
        matches_text(Pattern::Empty, w) <==> w == Seq::<char>::empty(),
        matches_text(Pattern::Length(n), w) <==> w.len() == int_value(n),
        matches_text(Pattern::Str(s), w) <==> w == substr_chars(s),
        matches_text(Pattern::One(class), w) <==> exists|c: char|
            w == #[trigger] seq![c] && in_range(class, c),
        matches_text(Pattern::Non(class), w) <==> exists|c: char|
            w == #[trigger] seq![c] && !in_range(class, c),
        matches_text(Pattern::And(p, q), w) <==> matches_text(*p, w) && matches_text(*q, w),
        matches_text(Pattern::Or(p, q), w) <==> matches_text(*p, w) || matches_text(*q, w),
{
    reveal(matches_text);
    assert(w.len() == 0 ==> w =~= Seq::empty());
    if w.len() == 1 {
        assert(w =~= seq![w[0]]);
        assert(class.has(w[0]) == in_range(class, w[0]));
    }
    if exists|c: char| w == #[trigger] seq![c] && in_range(class, c) {
        let c = choose|c: char| w == #[trigger] seq![c] && in_range(class, c);
        assert(w[0] == c);
    }
    if exists|c: char| w == #[trigger] seq![c] && !in_range(class, c) {
        let c = choose|c: char| w == #[trigger] seq![c] && !in_range(class, c);
        assert(w[0] == c);
    }
}

/// Whether a character lies in one of the ranges of a class, whose ends count too.
pub open spec fn in_range(class: CharClass, c: char) -> bool {
    exists|i: int|
        0 <= i < class.ranges@.len() && (#[trigger] class.ranges@[i]).0 as int <= c as int
            && c as int <= class.ranges@[i].1 as int
}

/// What a reader knows of simple patterns: it can tell that nothing that starts with what it has
/// read
/// matches as soon as that is so, but that it looks at no character before it has read one.
pub proof fn simple_verdicts(
    n: BigInt,
    s: Substr,
    class: CharClass,
    p: Box<Pattern>,
    q: Box<Pattern>,
    w: Seq<char>,
)
    ensures
        verdict(Pattern::Nil, w) is None,
        verdict(Pattern::All, w) is Some,
        verdict(Pattern::Empty, w) is None <==> w.len() > 0,
        verdict(Pattern::Length(n), w) is None <==> w.len() > 0 && w.len() > int_value(n),
        verdict(Pattern::Str(s), w) is None <==> forall|more: Seq<char>|
            #[trigger] (w + more) != substr_chars(s),
        verdict(Pattern::One(class), w) is None <==> w.len() > 1 || w.len() == 1 && !in_range(
            class,
            w[0],
        ),
        verdict(Pattern::Non(class), w) is None <==> w.len() > 1 || w.len() == 1 && in_range(
            class,
            w[0],
        ),
        verdict(Pattern::And(p, q), w) is None <==> verdict(*p, w) is None || verdict(*q, w)
            is None,
        verdict(Pattern::Or(p, q), w) is None <==> verdict(*p, w) is None && verdict(*q, w)
            is None,
        verdict(Pattern::Repeat(p), Seq::empty()) == Some(true),
        verdict(Pattern::Repeat1(p), Seq::empty()) == verdict(*p, Seq::empty()),
{
    reveal(verdict);
    let text = substr_chars(s);
    if w.is_prefix_of(text) {
        assert(w + text.skip(w.len() as int) =~= text);
    }
    if exists|more: Seq<char>| #[trigger] (w + more) == text {
        let more = choose|more: Seq<char>| #[trigger] (w + more) == text;
        assert(text.take(w.len() as int) =~= w);
    }
    if w.len() == 1 {
        assert(class.has(w[0]) == in_range(class, w[0]));
    }
}

/// A text matches the pattern read back from `.repeat1 p` exactly if it is one or more texts, one
/// after the other, each of which matches `p`. So the empty text matches it only if it matches
/// `p`.
pub proof fn readback_repeat1(p: Box<Pattern>, w: Seq<char>)
    ensures
        matches_text(PatternParts::Repeat1(p).pattern(), w) <==> exists|parts: Seq<Seq<char>>|
            #[trigger]
            made_of(*p, parts, w) && parts.len() > 0,
        !matches_text(*p, Seq::empty()) ==> !matches_text(
            PatternParts::Repeat1(p).pattern(),
            Seq::empty(),
        ),
{
    repeat1_matches(p, w);
    let none = Seq::<char>::empty();
    repeat1_matches(p, none);
    if matches_text(PatternParts::Repeat1(p).pattern(), none) {
        let parts = choose|parts: Seq<Seq<char>>| #[trigger]
            made_of(*p, parts, none) && parts.len() > 0;
        assert(parts.flatten() == parts[0] + parts.drop_first().flatten());
        assert(parts[0] =~= none);
    }
}

/// A text matches the pattern read back from `.repeat p` exactly if it is any number of texts, one
/// after the other, each of which matches `p`. So the empty text matches it.
pub proof fn readback_repeat(p: Box<Pattern>, w: Seq<char>)
    ensures
        matches_text(PatternParts::Repeat(p).pattern(), w) <==> exists|parts: Seq<Seq<char>>|
            #[trigger]
            made_of(*p, parts, w),
        matches_text(PatternParts::Repeat(p).pattern(), Seq::empty()),
{
    repeat_matches(p, w);
    repeat_matches(p, Seq::empty());
    let none = Seq::<Seq<char>>::empty();
    assert(none.flatten() =~= Seq::<char>::empty());
    assert(made_of(*p, none, Seq::empty()));
}

/// A text matches the pattern read back from `.and` and some patterns exactly if it matches each
/// of them.
pub proof fn readback_and(patterns: Vec<Box<Pattern>>, w: Seq<char>)
    ensures
        matches_text(PatternParts::And(patterns).pattern(), w) <==> forall|i: int|
            0 <= i < patterns@.len() ==> matches_text(*#[trigger] patterns@[i], w),
{
    all_of_matches(patterns@, w);
}

/// A text matches the pattern read back from `.or` and some patterns exactly if it matches one of
/// them.
pub proof fn readback_or(patterns: Vec<Box<Pattern>>, w: Seq<char>)
    ensures
        matches_text(PatternParts::Or(patterns).pattern(), w) <==> exists|i: int|
            0 <= i < patterns@.len() && matches_text(*#[trigger] patterns@[i], w),
{
    any_of_matches(patterns@, w);
}

/// A text matches the pattern read back from `.concat` and some patterns exactly if it is as many
/// texts, one after the other, each of which matches the pattern at its place.
pub proof fn readback_concat(patterns: Vec<Box<Pattern>>, w: Seq<char>)
    ensures
        matches_text(PatternParts::Concat(patterns).pattern(), w) <==> exists|parts: Seq<Seq<char>>|
            #[trigger]
            made_in_row(patterns@, parts, w),
{
    if matches_text(PatternParts::Concat(patterns).pattern(), w) {
        let parts = row_of_parts(patterns@, w);
        assert forall|i: int| 0 <= i < parts.len() implies matches_text(
            *patterns@[i],
            #[trigger] parts[i],
        ) by {
            assert(matches_text(*patterns@[i], parts[i]));
        }
        assert(made_in_row(patterns@, parts, w));
    }
    if exists|parts: Seq<Seq<char>>| #[trigger] made_in_row(patterns@, parts, w) {
        let parts = choose|parts: Seq<Seq<char>>| #[trigger] made_in_row(patterns@, parts, w);
        assert forall|i: int| 0 <= i < parts.len() implies matches_text(
            *#[trigger] patterns@[i],
            parts[i],
        ) by {
            assert(matches_text(*patterns@[i], parts[i]));
        }
        row_of_matches(patterns@, parts);
    }
}

/// The patterns read back from `.empty`, `.length n`, `.str s`, `.one class` and `.non class` match
/// the empty text, the texts of `n` characters, the text `s`, and the texts of one character that
/// lies in one of the ranges, or in none of them.
pub proof fn readback_simple(n: BigInt, s: Substr, class: CharClass, w: Seq<char>)
    ensures
        matches_text(PatternParts::Empty.pattern(), w) <==> w == Seq::<char>::empty(),
        matches_text(PatternParts::Length(n).pattern(), w) <==> w.len() == int_value(n),
        matches_text(PatternParts::Str(s).pattern(), w) <==> w == substr_chars(s),
        matches_text(PatternParts::One(class).pattern(), w) <==> exists|c: char|
            w == #[trigger] seq![c] && in_range(class, c),
        matches_text(PatternParts::Non(class).pattern(), w) <==> exists|c: char|
            w == #[trigger] seq![c] && !in_range(class, c),
{
    let any = Box::new(Pattern::All);
    simple_matches(n, s, class, any, any, w);
}

/// Each signal for a kind of pattern has the name by which it is called, and no other name is that
/// of one.
pub proof fn pattern_signals_have_names(name: Seq<char>)
    ensures
        named_pattern_signal(name) == Some(PatternSignal::And) <==> name == "and"@,
        named_pattern_signal(name) == Some(PatternSignal::Concat) <==> name == "concat"@,
        named_pattern_signal(name) == Some(PatternSignal::Empty) <==> name == "empty"@,
        named_pattern_signal(name) == Some(PatternSignal::Length) <==> name == "length"@,
        named_pattern_signal(name) == Some(PatternSignal::Non) <==> name == "non"@,
        named_pattern_signal(name) == Some(PatternSignal::One) <==> name == "one"@,
        named_pattern_signal(name) == Some(PatternSignal::Or) <==> name == "or"@,
        named_pattern_signal(name) == Some(PatternSignal::Repeat) <==> name == "repeat"@,
        named_pattern_signal(name) == Some(PatternSignal::Repeat1) <==> name == "repeat1"@,
        named_pattern_signal(name) == Some(PatternSignal::Str) <==> name == "str"@,
{
    reveal_strlit("and");
    reveal_strlit("concat");
    reveal_strlit("empty");
    reveal_strlit("length");
    reveal_strlit("non");
    reveal_strlit("one");
    reveal_strlit("or");
    reveal_strlit("repeat");
    reveal_strlit("repeat1");
    reveal_strlit("str");
    assert("and"@[0] == 'a' && "concat"@[0] == 'c' && "empty"@[0] == 'e' && "length"@[0] == 'l');
    assert("non"@[0] == 'n' && "one"@[0] == 'o' && "or"@[0] == 'o' && "str"@[0] == 's');
    assert("repeat"@[0] == 'r' && "repeat1"@[0] == 'r');
    assert("one"@.len() == 3 && "or"@.len() == 2 && "repeat"@.len() == 6 && "repeat1"@.len() == 7);
}

/// Each signal of a string builder has the name by which it is called, and no other name is that
/// of one.
pub proof fn builder_signals_have_names(name: Seq<char>)
    ensures
        named_builder_signal(name) == Some(BuilderSignal::Add) <==> name == "add"@,
        named_builder_signal(name) == Some(BuilderSignal::Build) <==> name == "build"@,
        named_builder_signal(name) is None <==> name != "add"@ && name != "build"@,
{
    reveal_strlit("add");
    reveal_strlit("build");
    assert("add"@[0] == 'a' && "build"@[0] == 'b');
}

/// Each signal of a string reader has the name by which it is called, and no other name is that of
/// one.
pub proof fn reader_signals_have_names(name: Seq<char>)
    ensures
        named_reader_signal(name) == Some(ReaderSignal::Close) <==> name == "close"@,
        named_reader_signal(name) == Some(ReaderSignal::Char) <==> name == "char"@,
        named_reader_signal(name) == Some(ReaderSignal::Match) <==> name == "match"@,
        named_reader_signal(name) == Some(ReaderSignal::MatchEnd) <==> name == "matchEnd"@,
        named_reader_signal(name) == Some(ReaderSignal::Remainder) <==> name == "remainder"@,
{
    reveal_strlit("close");
    reveal_strlit("char");
    reveal_strlit("match");
    reveal_strlit("matchEnd");
    reveal_strlit("remainder");
    assert("close"@.len() == 5 && "char"@.len() == 4 && "match"@.len() == 5);
    assert("matchEnd"@.len() == 8 && "remainder"@.len() == 9);
    assert("close"@[0] == 'c' && "match"@[0] == 'm');
}

/// A string reader that has nothing left to read says so, and that it went well, and is done,
/// unless it is told to be done or to give the rest.
pub proof fn reader_at_end(command: ReaderCommand, said: Seq<Said>, next: Option<Seq<char>>)
    requires
        reader_says(Seq::empty(), command, said, next),
        !(command is Close),
        !(command is Remainder),
    ensures
        said == seq![Said::Signal("end"@), Said::Signal("ok"@), Said::Break],
        next is None,
{
}

/// A string reader that is told to be done is; one that is told to give the rest says that it went
/// well, gives all of it and is done; and one that is told to read a character sends the first one
/// and has the others left to read.
pub proof fn reader_simple(t: Seq<char>, said: Seq<Said>, next: Option<Seq<char>>)
    ensures
        reader_says(t, ReaderCommand::Close, said, next) ==> said == seq![Said::Break]
            && next is None,
        reader_says(t, ReaderCommand::Remainder, said, next) ==> said == seq![
            Said::Signal("ok"@),
            Said::ProvideString(t),
        ] && next is None,
        t.len() > 0 && reader_says(t, ReaderCommand::Char, said, next) ==> {
            &&& said == seq![Said::Signal("char"@), Said::SendChar(t[0])]
            &&& next == Some(t.skip(1))
        },
{
    if t.len() > 0 {
        assert(t.drop_first() =~= t.skip(1));
    }
}

/// Whether a text starts with a text of `prefix`, of `i` characters, and then one of `suffix` that
/// ends after `j`.
pub open spec fn starts_with_both(
    prefix: Pattern,
    suffix: Pattern,
    t: Seq<char>,
    i: int,
    j: int,
) -> bool {
    &&& 0 <= i <= j <= t.len()
    &&& matches_text(prefix, t.take(i))
    &&& matches_text(suffix, t.skip(i).take(j - i))
}

/// A string reader that is told to read a prefix and a suffix, and has something left to read,
/// fails and still has it all left to read exactly if no beginning of it, other than the empty
/// one, is a prefix and then a suffix. Otherwise it sends such a prefix and such a suffix, the
/// shortest prefix that there is, and with it the longest suffix, and has what comes after them
/// left to read.
pub proof fn reader_match(
    t: Seq<char>,
    prefix: Box<Pattern>,
    suffix: Box<Pattern>,
    said: Seq<Said>,
    next: Option<Seq<char>>,
)
    requires
        t.len() > 0,
        reader_says(t, ReaderCommand::Match(prefix, suffix), said, next),
    ensures
        said == seq![Said::Signal("fail"@)] && next == Some(t) || exists|i: int, j: int|
            {
                &&& j > 0
                &&& #[trigger] starts_with_both(*prefix, *suffix, t, i, j)
                &&& said == seq![
                    Said::Signal("match"@),
                    Said::SendString(t.take(i)),
                    Said::SendString(t.skip(i).take(j - i)),
                ]
                &&& next == Some(t.skip(j))
                &&& forall|k: int, l: int|
                    l > 0 && #[trigger] starts_with_both(*prefix, *suffix, t, k, l) ==> i < k || (i
                        == k && l <= j)
            },
        said == seq![Said::Signal("fail"@)] <==> forall|k: int, l: int|
            l > 0 ==> !#[trigger] starts_with_both(*prefix, *suffix, t, k, l),
{
    assert forall|k: int, l: int| #[trigger]
        starts_with_both(*prefix, *suffix, t, k, l) <==> is_match(*prefix, *suffix, t, k, l) by {
        if 0 <= k <= l <= t.len() {
            assert(t.skip(k).take(l - k) =~= t.subrange(k, l));
        }
    }
    if exists|i: int, j: int| #[trigger]
        is_best_match(*prefix, *suffix, t, t.len() as int, i, j) && said == has_match(
            t.take(i),
            t.subrange(i, j),
        ) && next == Some(t.skip(j)) {
        let (i, j) = choose|i: int, j: int| #[trigger]
            is_best_match(*prefix, *suffix, t, t.len() as int, i, j) && said == has_match(
                t.take(i),
                t.subrange(i, j),
            ) && next == Some(t.skip(j));
        assert(starts_with_both(*prefix, *suffix, t, i, j));
        assert(t.skip(i).take(j - i) =~= t.subrange(i, j));
        assert(said.len() == 3);
        assert forall|k: int, l: int|
            l > 0 && #[trigger] starts_with_both(*prefix, *suffix, t, k, l) implies i < k || (i == k
            && l <= j) by {
            assert(is_match(*prefix, *suffix, t, k, l));
        }
    } else {
        assert(said == seq![Said::Signal("fail"@)]);
    }
}

/// A string reader that is told to read all of the rest as a prefix and a suffix, and has something
/// left to read, fails and still has it all left to read exactly if it is no prefix and then a
/// suffix. Otherwise it sends such a prefix, the shortest one that there is, and such a suffix, and
/// is done.
pub proof fn reader_match_end(
    t: Seq<char>,
    prefix: Box<Pattern>,
    suffix: Box<Pattern>,
    said: Seq<Said>,
    next: Option<Seq<char>>,
)
    requires
        t.len() > 0,
        reader_says(t, ReaderCommand::MatchEnd(prefix, suffix), said, next),
    ensures
        said == seq![Said::Signal("fail"@)] && next == Some(t) || exists|i: int|
            {
                &&& #[trigger] splits_into_both(*prefix, *suffix, t, i)
                &&& said == seq![
                    Said::Signal("match"@),
                    Said::SendString(t.take(i)),
                    Said::SendString(t.skip(i)),
                    Said::Break,
                ]
                &&& next is None
                &&& forall|k: int| #[trigger]
                    splits_into_both(*prefix, *suffix, t, k) ==> i <= k
            },
        said == seq![Said::Signal("fail"@)] <==> forall|k: int|
            !#[trigger] splits_into_both(*prefix, *suffix, t, k),
{
    let n = t.len() as int;
    assert forall|k: int| #[trigger] splits_into_both(*prefix, *suffix, t, k) <==> is_match(
        *prefix,
        *suffix,
        t,
        k,
        n,
    ) by {
        if 0 <= k <= n {
            assert(t.skip(k) =~= t.subrange(k, n));
        }
    }
    if exists|i: int| #[trigger]
        is_shortest_prefix(*prefix, *suffix, t, i) && said == has_match(
            t.take(i),
            t.skip(i),
        ).push(Said::Break) && next is None {
        let i = choose|i: int| #[trigger]
            is_shortest_prefix(*prefix, *suffix, t, i) && said == has_match(
                t.take(i),
                t.skip(i),
            ).push(Said::Break) && next is None;
        assert(splits_into_both(*prefix, *suffix, t, i));
        assert(said.len() == 4);
        assert(said =~= seq![
            Said::Signal("match"@),
            Said::SendString(t.take(i)),
            Said::SendString(t.skip(i)),
            Said::Break,
        ]);
        assert forall|k: int| #[trigger] splits_into_both(*prefix, *suffix, t,
            k) implies i <= k by {
            assert(is_match(*prefix, *suffix, t, k, n));
        }
    } else {
        assert(said == seq![Said::Signal("fail"@)]);
    }
}

/// Whether a text is a text of `prefix`, of `i` characters, and then one of `suffix`.
pub open spec fn splits_into_both(
    prefix: Pattern,
    suffix: Pattern,
    t: Seq<char>,
    i: int,
) -> bool {
    &&& 0 <= i <= t.len()
    &&& matches_text(prefix, t.take(i))
    &&& matches_text(suffix, t.skip(i))
}

/// The lesser and the greater of two numbers are these numbers, in order, whichever comes first.
pub proof fn lesser_and_greater(x: int, y: int)
    ensures
        lesser(x, y) <= x,
        lesser(x, y) <= y,
        lesser(x, y) == x || lesser(x, y) == y,
        greater(x, y) >= x,
        greater(x, y) >= y,
        greater(x, y) == x || greater(x, y) == y,
        lesser(x, y) + greater(x, y) == x + y,
{
}

/// A remainder modulo zero is zero, and the remainder of a number that is less than what it is
/// taken modulo, and not negative, is that number.
pub proof fn modulo_of_small(x: int, y: nat)
    ensures
        modulo(x, 0) == 0,
        0 <= x < y ==> modulo(x, y) == x,
        y > 0 ==> modulo(x + y, y) == modulo(x, y),
{
    if y > 0 {
        vstd::arithmetic::div_mod::lemma_mod_add_multiples_vanish(x, y as int);
        assert(x + y == y + x);
        if 0 <= x < y {
            vstd::arithmetic::div_mod::lemma_small_mod(x as nat, y);
        }
    }
}

/// If the bounds are the wrong way round, a number is moved to the lower one.
pub proof fn clamped_wrong_way_round(n: int, min: int, max: int)
    requires
        min > max,
    ensures
        clamped(n, min, max) == min,
{
}

/// Of a range that has not come to its end, the number that it has come to is said; of one that
/// has, that it has.
pub proof fn range_step(i: int, hi: int)
    ensures
        i < hi ==> range_says(i, hi) == seq![Said::Signal("item"@), Said::SendInt(i)],
        i >= hi ==> range_says(i, hi) == seq![Said::Signal("end"@), Said::Break],
{
}

/// Of a text of digits, with or without a sign before them, the number is said; of a text with
/// anything else in it but underscores after a digit, or with no digit, that there is none.
pub proof fn from_string_step(digits: Seq<char>, text: Seq<char>)
    ensures
        is_digit_row(digits) ==> {
            &&& from_string_says(digits) == seq![
                Said::Signal("some"@),
                Said::ProvideInt(digit_row_value(digits) as int),
            ]
            &&& from_string_says(seq!['+'] + digits) == seq![
                Said::Signal("some"@),
                Said::ProvideInt(digit_row_value(digits) as int),
            ]
            &&& from_string_says(seq!['-'] + digits) == seq![
                Said::Signal("some"@),
                Said::ProvideInt(-digit_row_value(digits)),
            ]
        },
        !is_digit_row(text) && (text.len() > 0 ==> text[0] != '+' && text[0] != '-')
            ==> from_string_says(text) == seq![Said::Signal("none"@), Said::Break],
{
    assert((seq!['+'] + digits).drop_first() =~= digits);
    assert((seq!['-'] + digits).drop_first() =~= digits);
}

/// A number in decimal is worth ten times what it is without its last digit, and that digit; an
/// underscore at its end counts for nothing.
pub proof fn digits_add_up(digits: Seq<char>, last: char)
    requires
        '0' <= last && last <= '9',
    ensures
        digit_row_value(Seq::empty()) == 0,
        digit_row_value(digits.push(last)) == 10 * digit_row_value(digits) + (last as int
            - '0' as int),
        digit_row_value(digits.push('_')) == digit_row_value(digits),
{
    assert(digits.push(last).drop_last() =~= digits);
    assert(digits.push('_').drop_last() =~= digits);
}

/// The module of strings has the type `String`, which is that of strings, and the definitions
/// `Builder : Builder`, `Reader : [String] Reader<either {}>` and `Quote : [String] String`, in
/// this order, and no declarations.
pub proof fn string_module_says()
    ensures
        ({
            let m = string_module();
            let none = model::Span::Nowhere;
            let string = model::Type::Primitive(none, PrimitiveType::String);
            &&& m.type_defs.len() == 1
            &&& m.type_defs[0].name.primary == "String"@
            &&& m.type_defs[0].name.module is None
            &&& m.type_defs[0].params.len() == 0
            &&& m.type_defs[0].typ == string
            &&& m.declarations.len() == 0
            &&& m.definitions.len() == 3
            &&& m.definitions[0].name.primary == "Builder"@
            &&& m.definitions[0].name.module is None
            &&& m.definitions[0].expression.body == StringExternal::Builder
            &&& m.definitions[0].expression.typ == model::Type::Name(
                none,
                model::GlobalName { span: none, module: None, primary: "Builder"@ },
                Seq::empty(),
            )
            &&& m.definitions[1].name.primary == "Reader"@
            &&& m.definitions[1].name.module is None
            &&& m.definitions[1].expression.body == StringExternal::Reader
            &&& m.definitions[1].expression.typ == model::Type::Function(
                none,
                Box::new(string),
                Box::new(
                    model::Type::Name(
                        none,
                        model::GlobalName { span: none, module: None, primary: "Reader"@ },
                        seq![model::Type::Either(none, Seq::empty())],
                    ),
                ),
            )
            &&& m.definitions[2].name.primary == "Quote"@
            &&& m.definitions[2].name.module is None
            &&& m.definitions[2].expression.body == StringExternal::Quote
            &&& m.definitions[2].expression.typ == model::Type::Function(
                none,
                Box::new(string),
                Box::new(string),
            )
        }),
{
}

} // verus!
