//! The snapshot assembler.
//!
//! One pass walks the keys of the slot-progress section in ascending order.
//! For each key it fetches and decodes the record of every section, in the
//! declared order of the sections, and files it in the list of that section.
//! The first record that is missing or does not decode ends the pass: a
//! snapshot is whole or there is none.

use crate::codec::{decode, decode_spec, StatType, StatView};
use crate::section::Section;
use crate::store::SectionStore;
use vstd::prelude::*;

verus! {

/// What one pass over the store yields: for each key of the slot-progress
/// section, in ascending key order, the decoded record of every section.
/// The lists are aligned: position `i` of each belongs to `keys[i]`.
#[derive(Clone, Debug, PartialEq, Eq)]
pub struct Snapshot {
    pub keys: Vec<u64>,
    pub slot_list: Vec<Vec<usize>>,
    pub sample_list: Vec<Vec<(usize, usize, usize, usize)>>,
    pub verified_list: Vec<Vec<(usize, usize, usize)>>,
}

/// Why a pass over the store yielded no snapshot.
#[derive(Clone, Copy, Debug, PartialEq, Eq)]
pub enum AssembleError {
    /// The slot-progress section holds no key.
    EmptyStore,
    /// `section` holds no record under `key`.
    MissingSection { section: Section, key: u64 },
    /// What `section` holds under `key` is not a record of that section.
    CorruptRecord { section: Section, key: u64 },
}

impl Snapshot {
    /// The lists are not empty and have one entry per key.
    pub open spec fn wf(&self) -> bool {
        &&& self.keys@.len() > 0
        &&& self.slot_list@.len() == self.keys@.len()
        &&& self.sample_list@.len() == self.keys@.len()
        &&& self.verified_list@.len() == self.keys@.len()
    }

    /// The record of `section` at position `i`.
    pub open spec fn record(&self, section: Section, i: int) -> StatView {
        match section {
            Section::SlotProgress => StatView::SlotStats(self.slot_list@[i]@),
            Section::Sampling => StatView::SampleStats(self.sample_list@[i]@),
            Section::Verification => StatView::VerifiedStats(self.verified_list@[i]@),
        }
    }

    /// Position `i` holds what `store` holds under its `i`-th slot-progress key.
    pub open spec fn matches_store_at(&self, store: SectionStore, i: int) -> bool {
        let key = store.keys(Section::SlotProgress)[i];
        &&& self.keys@[i] == key
        &&& forall|section: Section|
            record_at(store, section, key) == Some(#[trigger] self.record(section, i))
    }
}

/// The record that `store` holds in `section` under `key`, if it holds one
/// that decodes.
pub open spec fn record_at(store: SectionStore, section: Section, key: u64) -> Option<StatView> {
    match store.value(section, key) {
        Some(bytes) => decode_spec(section, bytes),
        None => None,
    }
}

/// What is wrong with the record of `section` under `key`, if anything.
pub open spec fn fault_at(store: SectionStore, section: Section, key: u64) -> Option<
    AssembleError,
> {
    match store.value(section, key) {
        None => Some(AssembleError::MissingSection { section, key }),
        Some(bytes) => if decode_spec(section, bytes) is None {
            Some(AssembleError::CorruptRecord { section, key })
        } else {
            None
        },
    }
}

/// Whether `store` holds something in `section` under `key` that is not a
/// record of that section.
pub open spec fn corrupt_at(store: SectionStore, section: Section, key: u64) -> bool {
    store.value(section, key) matches Some(bytes) && decode_spec(section, bytes) is None
}

/// Whether a pass reads the record of section `earlier` under key number `j`
/// before that of `section` under key number `position`.
pub open spec fn read_before(j: int, earlier: Section, position: int, section: Section) -> bool {
    0 <= j < position || (j == position && earlier.rank() < section.rank())
}

/// The first fault under `key`, taking the sections in declared order.
pub open spec fn first_fault_at(store: SectionStore, key: u64) -> Option<AssembleError> {
    if fault_at(store, Section::SlotProgress, key) is Some {
        fault_at(store, Section::SlotProgress, key)
    } else if fault_at(store, Section::Sampling, key) is Some {
        fault_at(store, Section::Sampling, key)
    } else {
        fault_at(store, Section::Verification, key)
    }
}

/// The pass fails with `error` at position `i`: every earlier key has its
/// three records, and `error` is the first fault under the `i`-th key.
pub open spec fn fails_at(store: SectionStore, i: int, error: AssembleError) -> bool {
    let keys = store.keys(Section::SlotProgress);
    &&& 0 <= i < keys.len()
    &&& forall|j: int| 0 <= j < i ==> first_fault_at(store, #[trigger] keys[j]) is None
    &&& first_fault_at(store, keys[i]) == Some(error)
}

/// What a pass over `store` must yield.
pub open spec fn assembled(store: SectionStore, res: Result<Snapshot, AssembleError>) -> bool {
    let keys = store.keys(Section::SlotProgress);
    match res {
        Ok(snapshot) => {
            &&& snapshot.wf()
            &&& snapshot.keys@ == keys
            &&& forall|i: int| 0 <= i < keys.len() ==> snapshot.matches_store_at(store, i)
        },
        Err(AssembleError::EmptyStore) => keys.len() == 0,
        Err(error) => exists|i: int| fails_at(store, i, error),
    }
}

/// The error with which a pass over `store` fails, if it fails.
pub open spec fn failure_of(store: SectionStore) -> Option<AssembleError> {
    if store.keys(Section::SlotProgress).len() == 0 {
        Some(AssembleError::EmptyStore)
    } else if exists|i: int, error: AssembleError| fails_at(store, i, error) {
        let (i, error) = choose|i: int, error: AssembleError| fails_at(store, i, error);
        Some(error)
    } else {
        None
    }
}

/// What a pass yields fails exactly where `failure_of` says so, and with
/// that error.
pub proof fn lemma_failure_of(store: SectionStore, res: Result<Snapshot, AssembleError>)
    requires
        assembled(store, res),
    ensures
        match res {
            Ok(_) => failure_of(store) is None,
            Err(error) => failure_of(store) == Some(error),
        },
{
    let keys = store.keys(Section::SlotProgress);
    match res {
        Ok(snapshot) => {
            if exists|i: int, error: AssembleError| fails_at(store, i, error) {
                let (i, error) = choose|i: int, error: AssembleError| fails_at(store, i, error);
                lemma_snapshot_excludes_fault(store, snapshot, i);
            }
        },
        Err(error) => {
            if error != AssembleError::EmptyStore {
                let at = choose|i: int| fails_at(store, i, error);
                assert(fails_at(store, at, error));
                let (i, other) = choose|i: int, other: AssembleError| fails_at(store, i, other);
                assert(fails_at(store, i, other));
                if i < at {
                    assert(first_fault_at(store, keys[i]) is None);
                } else if at < i {
                    assert(first_fault_at(store, keys[at]) is None);
                }
            }
        },
    }
}

/// Fetches and decodes the record that `store` holds in `section` under `key`.
pub fn fetch(store: &SectionStore, section: Section, key: u64) -> (res: Result<
    StatType,
    AssembleError,
>)
    ensures
        match res {
            Ok(record) => record_at(*store, section, key) == Some(record@),
            Err(error) => fault_at(*store, section, key) == Some(error),
        },
{
    match store.get(section, key) {
        None => Err(AssembleError::MissingSection { section, key }),
        Some(bytes) => match decode(section, bytes.as_slice()) {
            Ok(record) => Ok(record),
            Err(_) => Err(AssembleError::CorruptRecord { section, key }),
        },
    }
}

/// Fetches the slot-progress record under `key`.
fn fetch_slots(store: &SectionStore, key: u64) -> (res: Result<Vec<usize>, AssembleError>)
    ensures
        match res {
            Ok(slots) => record_at(*store, Section::SlotProgress, key) == Some(
                StatView::SlotStats(slots@),
            ),
            Err(error) => fault_at(*store, Section::SlotProgress, key) == Some(error),
        },
{
    match fetch(store, Section::SlotProgress, key) {
        Ok(StatType::SlotStats(slots)) => Ok(slots),
        Ok(_) => {
            assert(false);
            Err(AssembleError::CorruptRecord { section: Section::SlotProgress, key })
        },
        Err(error) => Err(error),
    }
}

/// Fetches the sampling record under `key`.
fn fetch_samples(store: &SectionStore, key: u64) -> (res: Result<
    Vec<(usize, usize, usize, usize)>,
    AssembleError,
>)
    ensures
        match res {
            Ok(samples) => record_at(*store, Section::Sampling, key) == Some(
                StatView::SampleStats(samples@),
            ),
            Err(error) => fault_at(*store, Section::Sampling, key) == Some(error),
        },
{
    match fetch(store, Section::Sampling, key) {
        Ok(StatType::SampleStats(samples)) => Ok(samples),
        Ok(_) => {
            assert(false);
            Err(AssembleError::CorruptRecord { section: Section::Sampling, key })
        },
        Err(error) => Err(error),
    }
}

/// Fetches the verification record under `key`.
fn fetch_verified(store: &SectionStore, key: u64) -> (res: Result<
    Vec<(usize, usize, usize)>,
    AssembleError,
>)
    ensures
        match res {
            Ok(verified) => record_at(*store, Section::Verification, key) == Some(
                StatView::VerifiedStats(verified@),
            ),
            Err(error) => fault_at(*store, Section::Verification, key) == Some(error),
        },
{
    match fetch(store, Section::Verification, key) {
        Ok(StatType::VerifiedStats(verified)) => Ok(verified),
        Ok(_) => {
            assert(false);
            Err(AssembleError::CorruptRecord { section: Section::Verification, key })
        },
        Err(error) => Err(error),
    }
}

/// Assembles a snapshot from one pass over `store`.
///
/// Fails with `EmptyStore` exactly when the slot-progress section holds no
/// key; otherwise with the first fault met, keys in ascending order and
/// sections in declared order; and succeeds exactly when there is none.
pub fn assemble(store: &SectionStore) -> (res: Result<Snapshot, AssembleError>)
    ensures
        assembled(*store, res),
{
    let count = store.len(Section::SlotProgress);
    if count == 0 {
        return Err(AssembleError::EmptyStore);
    }
    let ghost all_keys = store.keys(Section::SlotProgress);
    let mut snapshot = Snapshot {
        keys: Vec::new(),
        slot_list: Vec::new(),
        sample_list: Vec::new(),
        verified_list: Vec::new(),
    };
    let mut i: usize = 0;
    while i < count
        invariant
            i <= count,
            count == store.entries(Section::SlotProgress).len(),
            all_keys == store.keys(Section::SlotProgress),
            snapshot.keys@ == all_keys.take(i as int),
            snapshot.slot_list@.len() == i,
            snapshot.sample_list@.len() == i,
            snapshot.verified_list@.len() == i,
            forall|j: int| 0 <= j < i ==> first_fault_at(*store, #[trigger] all_keys[j]) is None,
            forall|j: int| 0 <= j < i ==> snapshot.matches_store_at(*store, j),
        decreases count - i,
    {
        let key = store.key_at(Section::SlotProgress, i);
        assert(key == all_keys[i as int]);
        let slots = match fetch_slots(store, key) {
            Ok(slots) => slots,
            Err(error) => {
                assert(fails_at(*store, i as int, error));
                return Err(error);
            },
        };
        let samples = match fetch_samples(store, key) {
            Ok(samples) => samples,
            Err(error) => {
                assert(fails_at(*store, i as int, error));
                return Err(error);
            },
        };
        let verified = match fetch_verified(store, key) {
            Ok(verified) => verified,
            Err(error) => {
                assert(fails_at(*store, i as int, error));
                return Err(error);
            },
        };
        let ghost before = snapshot;
        snapshot.keys.push(key);
        snapshot.slot_list.push(slots);
        snapshot.sample_list.push(samples);
        snapshot.verified_list.push(verified);
        proof {
            assert(snapshot.keys@ =~= all_keys.take(i + 1));
            assert forall|j: int| 0 <= j < i + 1 implies snapshot.matches_store_at(*store, j) by {
                if j < i {
                    assert(before.matches_store_at(*store, j));
                    assert forall|section: Section|
                        record_at(*store, section, all_keys[j]) == Some(
                            #[trigger] snapshot.record(section, j),
                        ) by {
                        assert(snapshot.record(section, j) == before.record(section, j));
                    }
                }
            }
        }
        i += 1;
    }
    assert(snapshot.keys@ =~= all_keys);
    Ok(snapshot)
}

/// A store allows one outcome only: two results that a pass may yield are
/// the same error, or snapshots with the same keys and the same records.
pub proof fn lemma_assembled_unique(
    store: SectionStore,
    first: Result<Snapshot, AssembleError>,
    second: Result<Snapshot, AssembleError>,
)
    requires
        assembled(store, first),
        assembled(store, second),
    ensures
        first is Ok <==> second is Ok,
        first is Err ==> first->Err_0 == second->Err_0,
        first is Ok ==> {
            &&& first->Ok_0.keys@ == second->Ok_0.keys@
            &&& forall|section: Section, i: int|
                0 <= i < first->Ok_0.keys@.len() ==> first->Ok_0.record(section, i)
                    == second->Ok_0.record(section, i)
        },
{
    let keys = store.keys(Section::SlotProgress);
    match (first, second) {
        (Ok(a), Ok(b)) => {
            assert forall|section: Section, i: int| 0 <= i < a.keys@.len() implies a.record(
                section,
                i,
            ) == b.record(section, i) by {
                assert(a.matches_store_at(store, i));
                assert(b.matches_store_at(store, i));
            }
        },
        (Ok(a), Err(error)) => {
            if error != AssembleError::EmptyStore {
                let i = choose|i: int| fails_at(store, i, error);
                lemma_snapshot_excludes_fault(store, a, i);
            }
        },
        (Err(error), Ok(b)) => {
            if error != AssembleError::EmptyStore {
                let i = choose|i: int| fails_at(store, i, error);
                lemma_snapshot_excludes_fault(store, b, i);
            }
        },
        (Err(a), Err(b)) => {
            if a != AssembleError::EmptyStore && b != AssembleError::EmptyStore {
                let i = choose|i: int| fails_at(store, i, a);
                let j = choose|j: int| fails_at(store, j, b);
                if i < j {
                    assert(first_fault_at(store, keys[i]) is None);
                } else if j < i {
                    assert(first_fault_at(store, keys[j]) is None);
                }
            }
        },
    }
}

/// A store that yields a snapshot holds a key, and holds all three records
/// under each of its keys.
proof fn lemma_snapshot_excludes_fault(store: SectionStore, snapshot: Snapshot, i: int)
    requires
        assembled(store, Ok(snapshot)),
        0 <= i < store.keys(Section::SlotProgress).len(),
    ensures
        first_fault_at(store, store.keys(Section::SlotProgress)[i]) is None,
{
    let keys = store.keys(Section::SlotProgress);
    assert(snapshot.matches_store_at(store, i));
    assert(record_at(store, Section::SlotProgress, keys[i]) == Some(
        snapshot.record(Section::SlotProgress, i),
    ));
    assert(record_at(store, Section::Sampling, keys[i]) == Some(
        snapshot.record(Section::Sampling, i),
    ));
    assert(record_at(store, Section::Verification, keys[i]) == Some(
        snapshot.record(Section::Verification, i),
    ));
}

/// Where some section lacks a key of the slot-progress section, a pass never
/// yields a snapshot: it fails, and not for want of keys.
pub proof fn lemma_lacking_record_fails(
    store: SectionStore,
    res: Result<Snapshot, AssembleError>,
    position: int,
    section: Section,
)
    requires
        assembled(store, res),
        0 <= position < store.keys(Section::SlotProgress).len(),
        store.value(section, store.keys(Section::SlotProgress)[position]) is None,
    ensures
        res is Err,
        res != Err::<Snapshot, AssembleError>(AssembleError::EmptyStore),
{
    let keys = store.keys(Section::SlotProgress);
    if let Ok(snapshot) = res {
        assert(snapshot.matches_store_at(store, position));
        assert(record_at(store, section, keys[position]) == Some(
            snapshot.record(section, position),
        ));
    }
}

/// Where some section lacks a key of the slot-progress section, and no
/// record that a pass reads before it reaches that gap is corrupt, the pass
/// fails with `MissingSection`.
pub proof fn lemma_lacking_record_is_missing_section(
    store: SectionStore,
    res: Result<Snapshot, AssembleError>,
    position: int,
    section: Section,
)
    requires
        assembled(store, res),
        0 <= position < store.keys(Section::SlotProgress).len(),
        store.value(section, store.keys(Section::SlotProgress)[position]) is None,
        forall|j: int, earlier: Section|
            read_before(j, earlier, position, section) ==> !#[trigger] corrupt_at(
                store,
                earlier,
                store.keys(Section::SlotProgress)[j],
            ),
    ensures
        res is Err,
        res->Err_0 is MissingSection,
{
    let keys = store.keys(Section::SlotProgress);
    lemma_lacking_record_fails(store, res, position, section);
    let error = res->Err_0;
    let i = choose|i: int| fails_at(store, i, error);
    assert(fails_at(store, i, error));
    if i > position {
        assert(first_fault_at(store, keys[position]) is None);
        assert(fault_at(store, section, keys[position]) is Some);
    } else {
        let key = keys[i];
        if error is CorruptRecord {
            let at = error->CorruptRecord_section;
            assert(fault_at(store, at, key) == Some(error));
            if i == position && at.rank() >= section.rank() {
                assert(fault_at(store, section, key) is Some);
                assert(fault_at(store, section, key)->Some_0 is MissingSection);
            } else {
                assert(read_before(i, at, position, section));
                assert(corrupt_at(store, at, keys[i]));
            }
        }
    }
}

} // verus!
