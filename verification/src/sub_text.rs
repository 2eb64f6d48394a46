//! Parts of shared text: the `arcstr` crate's `Substr`.
use arcstr::Substr;
use vstd::prelude::*;
use vstd::utf8::{encode_scalar, encode_utf8};

verus! {

/// `arcstr::Substr`, a part of a reference counted string.
#[verifier::external_type_specification]
#[verifier::external_body]
pub struct ExSubstr(Substr);

/// The characters that a `Substr` holds.
pub uninterp spec fn substr_chars(s: Substr) -> Seq<char>;

/// How many bytes a text takes in UTF-8.
pub open spec fn byte_len(s: Seq<char>) -> nat {
    encode_utf8(s).len()
}

/// How many bytes a character takes in UTF-8.
pub open spec fn char_size(c: char) -> nat {
    encode_scalar(c as u32).len()
}

/// Whether the byte `at` of a text is where a character starts, or where the text ends.
pub open spec fn is_boundary(s: Seq<char>, at: int) -> bool {
    exists|k: int| 0 <= k <= s.len() && #[trigger] byte_len(s.take(k)) == at
}

/// How many characters come before the byte `at` of a text.
pub open spec fn chars_before(s: Seq<char>, at: int) -> int {
    choose|k: int| 0 <= k <= s.len() && #[trigger] byte_len(s.take(k)) == at
}

/// A character takes one to four bytes.
pub proof fn char_size_range(c: char)
    ensures
        1 <= char_size(c) <= 4,
{
}

/// The bytes of two texts, one after the other.
pub proof fn byte_len_add(a: Seq<char>, b: Seq<char>)
    ensures
        byte_len(a + b) == byte_len(a) + byte_len(b),
    decreases a.len(),
{
    if a.len() == 0 {
        assert(a + b =~= b);
    } else {
        assert((a + b).drop_first() =~= a.drop_first() + b);
        byte_len_add(a.drop_first(), b);
    }
}

/// The bytes of a text and one more character.
pub proof fn byte_len_push(a: Seq<char>, c: char)
    ensures
        byte_len(a.push(c)) == byte_len(a) + char_size(c),
{
    let one = seq![c];
    assert(one.drop_first() =~= Seq::empty());
    assert(encode_utf8(Seq::<char>::empty()).len() == 0);
    assert(byte_len(one) == char_size(c));
    assert(a.push(c) =~= a + one);
    byte_len_add(a, one);
}

/// A longer start of a text takes more bytes.
pub proof fn byte_len_grows(s: Seq<char>, j: int, k: int)
    requires
        0 <= j < k <= s.len(),
    ensures
        byte_len(s.take(j)) + (k - j) <= byte_len(s.take(k)),
    decreases k - j,
{
    assert(s.take(k) =~= s.take(k - 1).push(s[k - 1]));
    byte_len_push(s.take(k - 1), s[k - 1]);
    char_size_range(s[k - 1]);
    if j < k - 1 {
        byte_len_grows(s, j, k - 1);
    }
}

/// The bytes of the first `k` characters have `k` characters before them.
pub proof fn chars_before_take(s: Seq<char>, k: int)
    requires
        0 <= k <= s.len(),
    ensures
        is_boundary(s, byte_len(s.take(k)) as int),
        chars_before(s, byte_len(s.take(k)) as int) == k,
{
    let at = byte_len(s.take(k)) as int;
    let j = chars_before(s, at);
    if j < k {
        byte_len_grows(s, j, k);
    } else if k < j {
        byte_len_grows(s, k, j);
    }
}

/// A text has as many bytes as all of its characters.
pub proof fn chars_before_end(s: Seq<char>)
    ensures
        is_boundary(s, byte_len(s) as int),
        chars_before(s, byte_len(s) as int) == s.len(),
{
    assert(s.take(s.len() as int) =~= s);
    chars_before_take(s, s.len() as int);
}

/// `Substr::from(String)`: the characters of the string. The call panics on a text whose
/// length in bytes does not fit in 32 bits.
#[verifier::external_body]
pub(crate) fn substr_from(text: String) -> (r: Substr)
    requires
        byte_len(text@) <= u32::MAX,
    ensures
        substr_chars(r) == text@,
{
    Substr::from(text)
}

/// `Substr::as_str`: the characters.
#[verifier::external_body]
pub(crate) fn substr_str(s: &Substr) -> (r: &str)
    ensures
        r@ == substr_chars(*s),
{
    s.as_str()
}

/// `Substr::len`: the number of bytes, which fits in 32 bits.
#[verifier::external_body]
pub(crate) fn substr_len(s: &Substr) -> (r: usize)
    ensures
        r == byte_len(substr_chars(*s)),
        r <= u32::MAX,
{
    s.len()
}

/// `Substr::substr`: the characters from the byte `from` to the byte `to`. The call panics
/// on bytes inside of characters.
#[verifier::external_body]
pub(crate) fn substr_range(s: &Substr, from: usize, to: usize) -> (r: Substr)
    requires
        from <= to,
        is_boundary(substr_chars(*s), from as int),
        is_boundary(substr_chars(*s), to as int),
    ensures
        substr_chars(r) == substr_chars(*s).subrange(
            chars_before(substr_chars(*s), from as int),
            chars_before(substr_chars(*s), to as int),
        ),
{
    s.substr(from..to)
}

/// `char::len_utf8`: the number of bytes of a character in UTF-8.
#[verifier::external_body]
pub(crate) fn char_len(c: char) -> (r: usize)
    ensures
        r == char_size(c),
{
    c.len_utf8()
}

} // verus!
