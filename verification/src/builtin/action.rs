//! What the built-in definitions say to those that use them.
use crate::big_int::{int_value, nat_value};
use crate::sub_text::substr_chars;
use arcstr::Substr;
use num_bigint::{BigInt, BigUint};
use vstd::prelude::*;

verus! {

/// A step of what is said over a channel.
#[derive(Debug)]
pub enum Action {
    /// Signal the branch of that name.
    Signal(&'static str),
    /// Send a character.
    SendChar(char),
    /// Send a string.
    SendString(Substr),
    /// Send an integer.
    SendInt(BigInt),
    /// Give a string and be done.
    ProvideString(Substr),
    /// Give an integer and be done.
    ProvideInt(BigInt),
    /// Give a natural number and be done.
    ProvideNat(BigUint),
    /// Be done.
    Break,
}

/// What an [`Action`] says.
pub enum Said {
    Signal(Seq<char>),
    SendChar(char),
    SendString(Seq<char>),
    SendInt(int),
    ProvideString(Seq<char>),
    ProvideInt(int),
    ProvideNat(nat),
    Break,
}

impl DeepView for Action {
    type V = Said;

    open spec fn deep_view(&self) -> Said {
        match self {
            Action::Signal(name) => Said::Signal(name@),
            Action::SendChar(c) => Said::SendChar(*c),
            Action::SendString(s) => Said::SendString(substr_chars(*s)),
            Action::SendInt(n) => Said::SendInt(int_value(*n)),
            Action::ProvideString(s) => Said::ProvideString(substr_chars(*s)),
            Action::ProvideInt(n) => Said::ProvideInt(int_value(*n)),
            Action::ProvideNat(n) => Said::ProvideNat(nat_value(*n)),
            Action::Break => Said::Break,
        }
    }
}

/// One action.
pub(crate) fn one(a: Action) -> (r: Vec<Action>)
    ensures
        r.deep_view() == seq![a.deep_view()],
{
    let mut r: Vec<Action> = Vec::new();
    let ghost said = seq![a.deep_view()];
    r.push(a);
    assert(r.deep_view() =~= said);
    r
}

/// Two actions.
pub(crate) fn two(a: Action, b: Action) -> (r: Vec<Action>)
    ensures
        r.deep_view() == seq![a.deep_view(), b.deep_view()],
{
    let mut r: Vec<Action> = Vec::new();
    let ghost said = seq![a.deep_view(), b.deep_view()];
    r.push(a);
    r.push(b);
    assert(r.deep_view() =~= said);
    r
}

/// Three actions.
pub(crate) fn three(a: Action, b: Action, c: Action) -> (r: Vec<Action>)
    ensures
        r.deep_view() == seq![a.deep_view(), b.deep_view(), c.deep_view()],
{
    let mut r: Vec<Action> = Vec::new();
    let ghost said = seq![a.deep_view(), b.deep_view(), c.deep_view()];
    r.push(a);
    r.push(b);
    r.push(c);
    assert(r.deep_view() =~= said);
    r
}

} // verus!
