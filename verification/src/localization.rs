//! Interface language.
use vstd::prelude::*;

verus! {

/// The language the interface speaks.
#[derive(Clone, Copy, Debug, PartialEq, Eq, Structural)]
pub enum Language {
    Spanish,
    English,
}

} // verus!
