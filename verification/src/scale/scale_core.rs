//! The core's view of the scale: the last reading, with a unit that never
//! goes missing.
use vstd::prelude::*;
use super::capabilities::{normalize_unit, unit_or_default};
use super::reading::Reading;
use crate::text::{ascii_lower, ascii_lower_char, is_blank, lemma_trim_ends, lemma_trim_unchanged, trim};

verus! {

/// The last reading the core accepted.
#[derive(Clone, Debug)]
pub struct ScaleCoreState {
    last: Reading,
}

impl ScaleCoreState {
    pub closed spec fn spec_last(&self) -> Reading {
        self.last
    }

    /// A state whose last reading is an empty one from `core` in the
    /// normalized default unit (`kg` when empty).
    pub fn new(default_unit: &str) -> (r: ScaleCoreState)
        ensures
            r.spec_last().source@ == trim("core"@),
            r.spec_last().port@.len() == 0,
            r.spec_last().baud == 0,
            r.spec_last().weight is None,
            r.spec_last().unit@ == unit_or_default(default_unit@),
            trim(r.spec_last().unit@).len() > 0,
    {
        let unit = normalize_unit(default_unit);
        proof {
            reveal_strlit("");
        }
        let last = Reading::from_source("core", "", 0, unit.as_str());
        proof {
            core_unit_never_blank(default_unit@);
        }
        assert(trim(""@) =~= ""@);
        ScaleCoreState { last }
    }

    /// Takes a reading as the last one. A reading without a unit (blank)
    /// keeps the unit of the previous one.
    pub fn apply_reading(&mut self, reading: Reading) -> (r: &Reading)
        ensures
            *r == final(self).spec_last(),
            trim(reading.unit@).len() != 0 ==> final(self).spec_last() == reading,
            trim(reading.unit@).len() == 0 ==> final(self).spec_last() == (Reading {
                unit: old(self).spec_last().unit,
                ..reading
            }),
            trim(old(self).spec_last().unit@).len() > 0 ==> trim(final(self).spec_last().unit@).len() > 0,
    {
        let mut reading = reading;
        if is_blank(reading.unit.as_str()) {
            reading.unit = self.last.unit.clone();
        }
        self.last = reading;
        &self.last
    }

    /// The last reading.
    pub fn last(&self) -> (r: &Reading)
        ensures
            *r == self.spec_last(),
    {
        &self.last
    }
}

/// A normalized unit is never blank.
pub proof fn core_unit_never_blank(unit: Seq<char>)
    ensures
        unit_or_default(unit).len() > 0,
        trim(unit_or_default(unit)).len() > 0,
{
    reveal_strlit("kg");
    let u = unit_or_default(unit);
    let t = trim(unit);
    lemma_trim_ends(unit);
    if ascii_lower(t).len() > 0 {
        assert(ascii_lower(t)[0] == ascii_lower_char(t[0]));
        assert(ascii_lower(t).last() == ascii_lower_char(t.last()));
    }
    lemma_trim_unchanged(u);
}

} // verus!
