use vstd::prelude::*;

verus! {

/// Sound profile used when rendering a sequence.
///
/// The stable numeric codes are Robo = 0, Piano = 1 (labelled "80s" by
/// hosts) and Guitar = 2 (labelled "Old Nokia"); see [`InstrumentType::code`].
#[derive(Clone, Copy, Debug, PartialEq, Eq, Structural)]
pub enum InstrumentType {
    Robo,
    Piano,
    Guitar,
}

impl InstrumentType {
    pub open spec fn code_spec(self) -> nat {
        match self {
            InstrumentType::Robo => 0,
            InstrumentType::Piano => 1,
            InstrumentType::Guitar => 2,
        }
    }

    /// The numeric code that hosts use for this instrument.
    pub fn code(&self) -> (r: u32)
        ensures
            r == self.code_spec(),
    {
        match self {
            InstrumentType::Robo => 0,
            InstrumentType::Piano => 1,
            InstrumentType::Guitar => 2,
        }
    }
}

} // verus!
