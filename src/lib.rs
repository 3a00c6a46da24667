//! Turns a small markdown dialect into flashcard records.
use vstd::prelude::*;

pub mod card;
pub mod editor;
pub mod parse;
pub mod tags;
pub mod text;

verus! {

} // verus!
