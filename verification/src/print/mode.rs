//! The kinds of print request the station can make.
use vstd::prelude::*;

verus! {

/// What a print request asks the printer to do.
#[derive(Clone, Copy, Debug, PartialEq, Eq, Structural)]
pub enum PrintMode {
    /// Print the label and write the EPC to the RFID tag.
    Rfid,
    /// Print the thermal label only.
    LabelOnly,
}

impl PrintMode {
    pub open spec fn name(self) -> Seq<char> {
        match self {
            PrintMode::Rfid => "rfid"@,
            PrintMode::LabelOnly => "label"@,
        }
    }

    /// The mode's name in messages and in the mobile API.
    pub fn as_str(self) -> (r: &'static str)
        ensures
            r@ == self.name(),
    {
        match self {
            PrintMode::Rfid => "rfid",
            PrintMode::LabelOnly => "label",
        }
    }
}

} // verus!
