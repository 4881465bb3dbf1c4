//! The ephemeral result of a completion query.

use vstd::prelude::*;

verus! {

/// A text completion: the prompt that was asked and the text generated for
/// it.  Completions are produced fresh per query and never stored.
#[derive(Debug, PartialEq, Eq)]
pub struct Completion {
    pub prompt: String,
    pub generated_text: String,
}

/// The mathematical image of a [`Completion`].
#[verifier::ext_equal]
pub struct CompletionV {
    pub prompt: Seq<char>,
    pub generated_text: Seq<char>,
}

impl View for Completion {
    type V = CompletionV;

    open spec fn view(&self) -> CompletionV {
        CompletionV { prompt: self.prompt@, generated_text: self.generated_text@ }
    }
}

impl Clone for Completion {
    fn clone(&self) -> (res: Self)
        ensures
            res@ == self@,
    {
        Completion { prompt: self.prompt.clone(), generated_text: self.generated_text.clone() }
    }
}

} // verus!
