//! The four mutually exclusive arrangements, and what drives a parameter.

use crate::mapping::ParameterMapping;
use vstd::prelude::*;

verus! {

/// One of the four arrangements of the song. Each owns one modulator; the
/// basic mood's modulator is the one that opens the lead filter.
#[derive(Clone, Copy, Debug, PartialEq, Eq, Structural)]
pub enum Mood {
    Basic,
    Electro,
    Funkot,
    Koplo,
}

/// Where a parameter takes its value from: a constant, or a modulator seen
/// through a mapping.
#[derive(Clone, Copy, Debug, PartialEq, Eq)]
pub enum Param {
    Fixed(i32),
    Modulated(Mood, ParameterMapping),
}

impl Param {
    /// The mapping of a modulated parameter is well formed.
    pub open spec fn wf(self) -> bool {
        match self {
            Param::Fixed(_) => true,
            Param::Modulated(_, m) => m.wf(),
        }
    }
}

} // verus!
