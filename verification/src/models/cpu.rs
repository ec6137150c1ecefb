//! CPU core kinds.
use vstd::prelude::*;

verus! {

/// Kind of a CPU core on hybrid architectures.
#[derive(Clone, Copy, Debug, PartialEq, Eq, Structural, Default)]
pub enum CoreType {
    #[default]
    Standard,
    Performance,
    Efficiency,
    Unknown,
}

pub open spec fn core_type_label(t: CoreType) -> Seq<char> {
    match t {
        CoreType::Performance => "P"@,
        CoreType::Efficiency => "E"@,
        CoreType::Standard => "S"@,
        CoreType::Unknown => "?"@,
    }
}

impl CoreType {
    /// One-letter label of the core kind.
    pub fn label(&self) -> (r: &'static str)
        ensures
            r@ == core_type_label(*self),
    {
        match self {
            CoreType::Performance => "P",
            CoreType::Efficiency => "E",
            CoreType::Standard => "S",
            CoreType::Unknown => "?",
        }
    }
}

} // verus!
