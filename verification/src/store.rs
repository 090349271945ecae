//! An in-memory image of the section store.
//!
//! The image holds, for each section, the entries read from it: slot keys with
//! the stored bytes, in strictly ascending key order. A walk over a section
//! therefore always yields ascending keys, and a key names at most one value.

use crate::key::{decode_key, key_slot};
use crate::section::Section;
use vstd::prelude::*;

verus! {

/// Whether the keys of `entries` are strictly ascending.
pub open spec fn ascending(entries: Seq<(u64, Seq<u8>)>) -> bool {
    forall|i: int, j: int| 0 <= i < j < entries.len() ==> entries[i].0 < entries[j].0
}

/// Whether some entry of `entries` is stored under `key`.
pub open spec fn has_key(entries: Seq<(u64, Seq<u8>)>, key: u64) -> bool {
    exists|i: int| 0 <= i < entries.len() && entries[i].0 == key
}

/// The value stored under `key`, if any.
pub open spec fn value_at(entries: Seq<(u64, Seq<u8>)>, key: u64) -> Option<Seq<u8>> {
    if has_key(entries, key) {
        let i = choose|i: int| 0 <= i < entries.len() && entries[i].0 == key;
        Some(entries[i].1)
    } else {
        None
    }
}

/// The mathematical value of a list of stored entries.
pub open spec fn entries_view(entries: Seq<(u64, Vec<u8>)>) -> Seq<(u64, Seq<u8>)> {
    entries.map_values(|entry: (u64, Vec<u8>)| (entry.0, entry.1@))
}

/// In an ascending list the entry at a position is the value of its key.
pub proof fn lemma_value_at_position(entries: Seq<(u64, Seq<u8>)>, position: int)
    requires
        ascending(entries),
        0 <= position < entries.len(),
    ensures
        has_key(entries, entries[position].0),
        value_at(entries, entries[position].0) == Some(entries[position].1),
{
    let key = entries[position].0;
    let chosen = choose|i: int| 0 <= i < entries.len() && entries[i].0 == key;
    if chosen < position {
        assert(entries[chosen].0 < entries[position].0);
    } else if position < chosen {
        assert(entries[position].0 < entries[chosen].0);
    }
}

/// The first position of `entries` whose key is not below `key`.
fn lower_bound(entries: &Vec<(u64, Vec<u8>)>, key: u64) -> (position: usize)
    requires
        ascending(entries_view(entries@)),
    ensures
        position <= entries@.len(),
        forall|i: int| 0 <= i < position ==> entries@[i].0 < key,
        forall|i: int| position <= i < entries@.len() ==> entries@[i].0 >= key,
{
    let ghost view = entries_view(entries@);
    let mut low: usize = 0;
    let mut high: usize = entries.len();
    while low < high
        invariant
            low <= high <= entries@.len(),
            view == entries_view(entries@),
            ascending(view),
            forall|i: int| 0 <= i < low ==> entries@[i].0 < key,
            forall|i: int| high <= i < entries@.len() ==> entries@[i].0 >= key,
        decreases high - low,
    {
        let middle = low + (high - low) / 2;
        if entries[middle].0 < key {
            assert forall|i: int| 0 <= i < middle + 1 implies entries@[i].0 < key by {
                if i < middle {
                    assert(view[i].0 < view[middle as int].0);
                }
            }
            low = middle + 1;
        } else {
            assert forall|i: int| middle <= i < entries@.len() implies entries@[i].0 >= key by {
                if middle < i {
                    assert(view[middle as int].0 < view[i].0);
                }
            }
            high = middle;
        }
    }
    low
}

/// Looks `key` up in an ascending list.
fn find<'a>(entries: &'a Vec<(u64, Vec<u8>)>, key: u64) -> (value: Option<&'a Vec<u8>>)
    requires
        ascending(entries_view(entries@)),
    ensures
        match value {
            Some(bytes) => value_at(entries_view(entries@), key) == Some(bytes@),
            None => value_at(entries_view(entries@), key) is None,
        },
{
    let ghost view = entries_view(entries@);
    let position = lower_bound(entries, key);
    if position < entries.len() && entries[position].0 == key {
        proof {
            lemma_value_at_position(view, position as int);
        }
        Some(&entries[position].1)
    } else {
        assert forall|i: int| 0 <= i < view.len() implies view[i].0 != key by {
            if position < i {
                assert(view[position as int].0 < view[i].0);
            }
        }
        None
    }
}

/// Stores `value` under `key` in an ascending list, in place of what was
/// stored under that key before.
fn insert(entries: &mut Vec<(u64, Vec<u8>)>, key: u64, value: Vec<u8>)
    requires
        ascending(entries_view(old(entries)@)),
    ensures
        ascending(entries_view(final(entries)@)),
        value_at(entries_view(final(entries)@), key) == Some(value@),
        forall|other: u64|
            other != key ==> value_at(entries_view(final(entries)@), other) == value_at(
                entries_view(old(entries)@),
                other,
            ),
        final(entries)@.len() == old(entries)@.len() + if has_key(
            entries_view(old(entries)@),
            key,
        ) {
            0int
        } else {
            1int
        },
{
    let ghost before = entries_view(entries@);
    let position = lower_bound(entries, key);
    let replace = position < entries.len() && entries[position].0 == key;
    if replace {
        entries.set(position, (key, value));
    } else {
        entries.insert(position, (key, value));
    }
    let ghost after = entries_view(entries@);
    proof {
        let p = position as int;
        let shift = if replace {
            0int
        } else {
            1int
        };
        assert(after.len() == before.len() + shift);
        assert(after[p] == (key, value@));
        assert forall|i: int| 0 <= i < p implies after[i] == before[i] by {}
        assert forall|i: int| p < i < after.len() implies after[i] == before[i - shift] by {}
        assert forall|i: int, j: int| 0 <= i < j < after.len() implies after[i].0 < after[j].0 by {
            if j < p {
                assert(before[i].0 < before[j].0);
            } else if j == p {
            } else if i == p {
                if replace {
                    assert(before[p].0 < before[j].0);
                } else {
                    assert(before[j - 1].0 >= key);
                    if j - 1 > p {
                        assert(before[p].0 < before[j - 1].0);
                    }
                }
            } else if i < p {
                assert(before[i].0 < key);
                assert(before[j - shift].0 >= key);
            } else {
                assert(before[i - shift].0 < before[j - shift].0);
            }
        }
        lemma_value_at_position(after, p);
        if replace {
            lemma_value_at_position(before, p);
        } else {
            assert forall|i: int| 0 <= i < before.len() implies before[i].0 != key by {
                if p < i {
                    assert(before[p].0 < before[i].0);
                }
            }
        }
        assert forall|other: u64| other != key implies value_at(after, other) == value_at(
            before,
            other,
        ) by {
            if has_key(before, other) {
                let i = choose|i: int| 0 <= i < before.len() && before[i].0 == other;
                let moved = if i < p {
                    i
                } else {
                    i + shift
                };
                assert(after[moved] == before[i]);
                lemma_value_at_position(before, i);
                lemma_value_at_position(after, moved);
            } else if has_key(after, other) {
                let j = choose|j: int| 0 <= j < after.len() && after[j].0 == other;
                let origin = if j < p {
                    j
                } else {
                    j - shift
                };
                assert(before[origin] == after[j]);
            }
        }
    }
}

/// Copies a list of entries.
fn copy_entries(entries: &Vec<(u64, Vec<u8>)>) -> (copy: Vec<(u64, Vec<u8>)>)
    ensures
        entries_view(copy@) == entries_view(entries@),
{
    let mut copy: Vec<(u64, Vec<u8>)> = Vec::new();
    let mut i: usize = 0;
    while i < entries.len()
        invariant
            i <= entries@.len(),
            copy@.len() == i,
            forall|k: int| 0 <= k < i ==> copy@[k].0 == entries@[k].0 && copy@[k].1@ == entries@[k].1@,
        decreases entries@.len() - i,
    {
        let value = entries[i].1.clone();
        copy.push((entries[i].0, value));
        i += 1;
    }
    assert(entries_view(copy@) =~= entries_view(entries@));
    copy
}

/// The image of a store: the entries of its three sections.
pub struct SectionStore {
    slot_progress: Vec<(u64, Vec<u8>)>,
    sampling: Vec<(u64, Vec<u8>)>,
    verification: Vec<(u64, Vec<u8>)>,
}

impl SectionStore {
    /// The entries of `section` in the order in which a walk yields them.
    pub closed spec fn entries(&self, section: Section) -> Seq<(u64, Seq<u8>)> {
        match section {
            Section::SlotProgress => entries_view(self.slot_progress@),
            Section::Sampling => entries_view(self.sampling@),
            Section::Verification => entries_view(self.verification@),
        }
    }

    /// Every section is in strictly ascending key order.
    #[verifier::type_invariant]
    pub open spec fn wf(&self) -> bool {
        &&& ascending(self.entries(Section::SlotProgress))
        &&& ascending(self.entries(Section::Sampling))
        &&& ascending(self.entries(Section::Verification))
    }

    /// The keys of `section` in ascending order.
    pub open spec fn keys(&self, section: Section) -> Seq<u64> {
        self.entries(section).map_values(|entry: (u64, Seq<u8>)| entry.0)
    }

    /// The bytes stored in `section` under `key`, if any.
    pub open spec fn value(&self, section: Section, key: u64) -> Option<Seq<u8>> {
        value_at(self.entries(section), key)
    }

    /// A store image with three empty sections.
    pub fn new() -> (store: Self)
        ensures
            store.wf(),
            forall|section: Section| store.entries(section).len() == 0,
    {
        SectionStore { slot_progress: Vec::new(), sampling: Vec::new(), verification: Vec::new() }
    }

    /// The number of entries of `section`.
    pub fn len(&self, section: Section) -> (count: usize)
        ensures
            self.wf(),
            count == self.entries(section).len(),
    {
        proof {
            use_type_invariant(self);
        }
        match section {
            Section::SlotProgress => self.slot_progress.len(),
            Section::Sampling => self.sampling.len(),
            Section::Verification => self.verification.len(),
        }
    }

    /// The key at `index` of a walk over `section`.
    pub fn key_at(&self, section: Section, index: usize) -> (key: u64)
        requires
            index < self.entries(section).len(),
        ensures
            self.wf(),
            key == self.entries(section)[index as int].0,
    {
        proof {
            use_type_invariant(self);
        }
        match section {
            Section::SlotProgress => self.slot_progress[index].0,
            Section::Sampling => self.sampling[index].0,
            Section::Verification => self.verification[index].0,
        }
    }

    /// The bytes stored in `section` under `key`.
    pub fn get(&self, section: Section, key: u64) -> (value: Option<&Vec<u8>>)
        ensures
            self.wf(),
            match value {
                Some(bytes) => self.value(section, key) == Some(bytes@),
                None => self.value(section, key) is None,
            },
    {
        proof {
            use_type_invariant(self);
        }
        match section {
            Section::SlotProgress => find(&self.slot_progress, key),
            Section::Sampling => find(&self.sampling, key),
            Section::Verification => find(&self.verification, key),
        }
    }

    /// Whether `self` is `before` with `value` stored in `section` under
    /// `key`: that key has that value, the other keys of the section and the
    /// other sections are as before, and the section has grown by one entry
    /// unless it held the key already.
    pub open spec fn is_put(
        &self,
        before: SectionStore,
        section: Section,
        key: u64,
        value: Seq<u8>,
    ) -> bool {
        &&& self.value(section, key) == Some(value)
        &&& forall|other: u64|
            other != key ==> self.value(section, other) == before.value(section, other)
        &&& forall|other: Section| other != section ==> self.entries(other) == before.entries(other)
        &&& self.entries(section).len() == before.entries(section).len() + if has_key(
            before.entries(section),
            key,
        ) {
            0int
        } else {
            1int
        }
    }

    /// Stores `value` in `section` under `key`, in place of what was stored
    /// there under that key. The section stays in ascending key order.
    pub fn put(&mut self, section: Section, key: u64, value: Vec<u8>)
        ensures
            final(self).wf(),
            final(self).is_put(*old(self), section, key, value@),
    {
        proof {
            use_type_invariant(&*self);
        }
        let mut entries: Vec<(u64, Vec<u8>)> = Vec::new();
        match section {
            Section::SlotProgress => {
                core::mem::swap(&mut self.slot_progress, &mut entries);
                insert(&mut entries, key, value);
                self.slot_progress = entries;
            },
            Section::Sampling => {
                core::mem::swap(&mut self.sampling, &mut entries);
                insert(&mut entries, key, value);
                self.sampling = entries;
            },
            Section::Verification => {
                core::mem::swap(&mut self.verification, &mut entries);
                insert(&mut entries, key, value);
                self.verification = entries;
            },
        }
    }

    /// Stores `value` in `section` under the slot that `key` is the stored
    /// form of. A key that is no stored slot is refused and nothing is stored.
    pub fn put_raw(&mut self, section: Section, key: &[u8], value: Vec<u8>) -> (stored: bool)
        ensures
            final(self).wf(),
            match key_slot(key@) {
                Some(slot) => stored && final(self).is_put(*old(self), section, slot, value@),
                None => !stored && forall|any: Section|
                    final(self).entries(any) == old(self).entries(any),
            },
    {
        proof {
            use_type_invariant(&*self);
        }
        match decode_key(key) {
            Some(slot) => {
                self.put(section, slot, value);
                true
            },
            None => false,
        }
    }

    /// The entries of `section` in ascending key order, as a fresh list: each
    /// call starts from the first entry again.
    pub fn iterate(&self, section: Section) -> (entries: Vec<(u64, Vec<u8>)>)
        ensures
            entries_view(entries@) == self.entries(section),
            ascending(entries_view(entries@)),
    {
        proof {
            use_type_invariant(self);
        }
        match section {
            Section::SlotProgress => copy_entries(&self.slot_progress),
            Section::Sampling => copy_entries(&self.sampling),
            Section::Verification => copy_entries(&self.verification),
        }
    }
}

} // verus!
