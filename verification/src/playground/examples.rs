//! The examples that come with the playground.
use vstd::prelude::*;

verus! {

/// An example that comes with the playground: its path and its source.
#[derive(Debug)]
pub struct PlaygroundExample {
    pub relative_path_from_src: String,
    pub source: String,
}

/// What a [`PlaygroundExample`] says.
pub struct ExampleModel {
    pub relative_path_from_src: Seq<char>,
    pub source: Seq<char>,
}

impl DeepView for PlaygroundExample {
    type V = ExampleModel;

    open spec fn deep_view(&self) -> ExampleModel {
        ExampleModel {
            relative_path_from_src: self.relative_path_from_src@,
            source: self.source@,
        }
    }
}

/// The paths of the examples that come with the playground.
pub open spec fn example_paths() -> Seq<Seq<char>> {
    seq!["Starter.par"@, "PlaygroundChat.par"@, "RockPaperScissors.par"@]
}

/// The paths of the examples that come with the playground, in the order in which they are
/// shown.
pub fn playground_example_paths() -> (r: Vec<&'static str>)
    ensures
        r.deep_view() == example_paths(),
{
    let mut r: Vec<&'static str> = Vec::new();
    r.push("Starter.par");
    r.push("PlaygroundChat.par");
    r.push("RockPaperScissors.par");
    assert(r.deep_view() =~= example_paths());
    r
}

} // verus!
