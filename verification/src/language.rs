//! The languages that texts for people and models are written in.

use vstd::prelude::*;

verus! {

/// A language that the program speaks.
#[derive(Debug, Clone, Copy, PartialEq, Eq, Structural)]
pub enum Language {
    English,
    Chinese,
}

impl Language {
    /// What is said in this language.
    pub open spec fn said(self, english: Seq<char>, chinese: Seq<char>) -> Seq<char> {
        match self {
            Language::English => english,
            Language::Chinese => chinese,
        }
    }

    /// A text in this language.
    pub fn text(self, english: &'static str, chinese: &'static str) -> (text: &'static str)
        ensures
            text@ == self.said(english@, chinese@),
    {
        match self {
            Language::English => english,
            Language::Chinese => chinese,
        }
    }
}

} // verus!
