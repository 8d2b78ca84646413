//! Parts of speech, the one piece of vocabulary the engine shares with callers.

use vstd::prelude::*;

verus! {

/// The part of speech of a word.
pub enum Pos {
    Verb,
    Noun,
    Subst,
    Adj,
    Num,
}

} // verus!
