//! The named sections of the store. Each section holds one kind of record.

use vstd::prelude::*;
use vstd::string::StringExecFns;

verus! {

/// A section of the store, in the order in which the sections are processed.
#[derive(Clone, Copy, Debug, PartialEq, Eq, Structural)]
pub enum Section {
    /// Slot-progress records: the slots observed so far.
    SlotProgress,
    /// Per-request sampling counters.
    Sampling,
    /// Per-request verification counters.
    Verification,
}

impl Section {
    /// The position of the section in the declared order.
    pub open spec fn rank(self) -> nat {
        match self {
            Section::SlotProgress => 0,
            Section::Sampling => 1,
            Section::Verification => 2,
        }
    }

    /// How many numbers one entry of a record of this section holds.
    pub open spec fn arity(self) -> nat {
        match self {
            Section::SlotProgress => 1,
            Section::Sampling => 4,
            Section::Verification => 3,
        }
    }

    /// The name under which the section is stored.
    pub open spec fn name_spec(self) -> Seq<char> {
        match self {
            Section::SlotProgress => "slot-progress"@,
            Section::Sampling => "sampling-stats"@,
            Section::Verification => "verification-stats"@,
        }
    }

    /// The section before this one in declared order; the first stays.
    pub open spec fn preceding(self) -> Section {
        match self {
            Section::SlotProgress => Section::SlotProgress,
            Section::Sampling => Section::SlotProgress,
            Section::Verification => Section::Sampling,
        }
    }

    /// The section after this one in declared order; the last stays.
    pub open spec fn following(self) -> Section {
        match self {
            Section::SlotProgress => Section::Sampling,
            Section::Sampling => Section::Verification,
            Section::Verification => Section::Verification,
        }
    }

    /// The section before this one in declared order; the first stays.
    pub fn previous(self) -> (section: Section)
        ensures
            section == self.preceding(),
    {
        match self {
            Section::SlotProgress => Section::SlotProgress,
            Section::Sampling => Section::SlotProgress,
            Section::Verification => Section::Sampling,
        }
    }

    /// The section after this one in declared order; the last stays.
    pub fn next(self) -> (section: Section)
        ensures
            section == self.following(),
    {
        match self {
            Section::SlotProgress => Section::Sampling,
            Section::Sampling => Section::Verification,
            Section::Verification => Section::Verification,
        }
    }

    /// The three sections in declared order.
    pub fn all() -> (sections: [Section; 3])
        ensures
            sections@ == seq![Section::SlotProgress, Section::Sampling, Section::Verification],
    {
        [Section::SlotProgress, Section::Sampling, Section::Verification]
    }

    /// The number of values in one entry of a record of this section.
    pub fn entry_width(self) -> (width: usize)
        ensures
            width == self.arity(),
    {
        match self {
            Section::SlotProgress => 1,
            Section::Sampling => 4,
            Section::Verification => 3,
        }
    }

    /// The name under which the section is stored.
    pub fn name(self) -> (name: &'static str)
        ensures
            name@ == self.name_spec(),
    {
        match self {
            Section::SlotProgress => "slot-progress",
            Section::Sampling => "sampling-stats",
            Section::Verification => "verification-stats",
        }
    }

    /// Finds the section stored under `name`, if `name` is one of the three
    /// section names.
    pub fn from_name(name: &str) -> (found: Option<Section>)
        ensures
            match found {
                Some(section) => name@ == section.name_spec(),
                None => forall|section: Section| name@ != section.name_spec(),
            },
    {
        let owned = name.to_owned();
        if owned == String::from_str("slot-progress") {
            Some(Section::SlotProgress)
        } else if owned == String::from_str("sampling-stats") {
            Some(Section::Sampling)
        } else if owned == String::from_str("verification-stats") {
            Some(Section::Verification)
        } else {
            None
        }
    }
}

/// The three section names differ, so a name denotes at most one section.
pub proof fn lemma_section_names_differ(a: Section, b: Section)
    ensures
        a.name_spec() == b.name_spec() <==> a == b,
{
    reveal_strlit("slot-progress");
    reveal_strlit("sampling-stats");
    reveal_strlit("verification-stats");
    assert(Section::SlotProgress.name_spec().len() == 13);
    assert(Section::Sampling.name_spec().len() == 14);
    assert(Section::Verification.name_spec().len() == 18);
}

} // verus!
