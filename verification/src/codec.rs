//! The codec of statistic records.
//!
//! A record is stored as a run of 64-bit little-endian words: first the number
//! of entries, then the entries in order, each entry as one word per field.
//! The section a record is stored in fixes the number of fields of an entry.

use crate::section::Section;
use vstd::bytes::{
    lemma_auto_spec_u64_to_from_le_bytes, spec_u64_from_le_bytes, spec_u64_to_le_bytes,
    u64_from_le_bytes, u64_to_le_bytes,
};
use vstd::prelude::*;
use vstd::slice::slice_subrange;

verus! {

/// One statistic record: a sequence of entries of one of three shapes.
#[derive(Clone, Debug, PartialEq, Eq)]
pub enum StatType {
    /// The slot numbers observed so far.
    SlotStats(Vec<usize>),
    /// Per request: requests issued, requests satisfied, bytes sampled, samples failed.
    SampleStats(Vec<(usize, usize, usize, usize)>),
    /// Per request: verified, failed, pending.
    VerifiedStats(Vec<(usize, usize, usize)>),
}

/// A stored value that is not the encoding of any record of the section it
/// was read from.
#[derive(Clone, Copy, Debug, PartialEq, Eq)]
pub struct CorruptRecordError;

/// The mathematical value of a record.
pub enum StatView {
    SlotStats(Seq<usize>),
    SampleStats(Seq<(usize, usize, usize, usize)>),
    VerifiedStats(Seq<(usize, usize, usize)>),
}

impl View for StatType {
    type V = StatView;

    open spec fn view(&self) -> StatView {
        match self {
            StatType::SlotStats(slots) => StatView::SlotStats(slots@),
            StatType::SampleStats(samples) => StatView::SampleStats(samples@),
            StatType::VerifiedStats(verified) => StatView::VerifiedStats(verified@),
        }
    }
}

impl StatType {
    /// The section that records of this shape are stored in.
    pub fn section(&self) -> (section: Section)
        ensures
            section == self@.section(),
    {
        match self {
            StatType::SlotStats(_) => Section::SlotProgress,
            StatType::SampleStats(_) => Section::Sampling,
            StatType::VerifiedStats(_) => Section::Verification,
        }
    }
}

/// Field `j` of a sampling entry as a word.
pub open spec fn sample_field(entry: (usize, usize, usize, usize), j: int) -> u64 {
    if j == 0 {
        entry.0 as u64
    } else if j == 1 {
        entry.1 as u64
    } else if j == 2 {
        entry.2 as u64
    } else {
        entry.3 as u64
    }
}

/// Field `j` of a verification entry as a word.
pub open spec fn verified_field(entry: (usize, usize, usize), j: int) -> u64 {
    if j == 0 {
        entry.0 as u64
    } else if j == 1 {
        entry.1 as u64
    } else {
        entry.2 as u64
    }
}

impl StatView {
    /// The section whose records have this shape.
    pub open spec fn section(self) -> Section {
        match self {
            StatView::SlotStats(_) => Section::SlotProgress,
            StatView::SampleStats(_) => Section::Sampling,
            StatView::VerifiedStats(_) => Section::Verification,
        }
    }

    /// The number of entries of the record.
    pub open spec fn entries(self) -> nat {
        match self {
            StatView::SlotStats(slots) => slots.len(),
            StatView::SampleStats(samples) => samples.len(),
            StatView::VerifiedStats(verified) => verified.len(),
        }
    }

    /// The fields of all entries, entry after entry.
    pub open spec fn payload(self) -> Seq<u64> {
        match self {
            StatView::SlotStats(slots) => Seq::new(slots.len(), |k: int| slots[k] as u64),
            StatView::SampleStats(samples) => Seq::new(
                (4 * samples.len()) as nat,
                |k: int| sample_field(samples[k / 4], k % 4),
            ),
            StatView::VerifiedStats(verified) => Seq::new(
                (3 * verified.len()) as nat,
                |k: int| verified_field(verified[k / 3], k % 3),
            ),
        }
    }

    /// The words of the stored form: the entry count, then the payload.
    pub open spec fn words(self) -> Seq<u64> {
        seq![self.entries() as u64] + self.payload()
    }
}

/// The bytes of a run of words, each word as 8 little-endian bytes.
pub open spec fn words_to_bytes(words: Seq<u64>) -> Seq<u8> {
    Seq::new((8 * words.len()) as nat, |i: int| spec_u64_to_le_bytes(words[i / 8])[i % 8])
}

/// The words held by a run of bytes; bytes beyond the last full word are not
/// part of any word.
pub open spec fn bytes_to_words(bytes: Seq<u8>) -> Seq<u64> {
    Seq::new(
        (bytes.len() / 8) as nat,
        |i: int| spec_u64_from_le_bytes(bytes.subrange(8 * i, 8 * i + 8)),
    )
}

/// The stored form of a record.
pub open spec fn encode_spec(record: StatView) -> Seq<u8> {
    words_to_bytes(record.words())
}

/// Whether `words` is the word form of a record of `section`: the count in
/// front matches the number of words that follow, and every field fits the
/// machine's word.
pub open spec fn well_formed_words(section: Section, words: Seq<u64>) -> bool {
    &&& words.len() >= 1
    &&& words.len() == 1 + words[0] * section.arity()
    &&& forall|i: int| 1 <= i < words.len() ==> words[i] <= usize::MAX
}

/// The record of `section` that a well-formed run of words stands for.
pub open spec fn record_of_words(section: Section, words: Seq<u64>) -> StatView {
    let count = words[0] as nat;
    match section {
        Section::SlotProgress => StatView::SlotStats(
            Seq::new(count, |i: int| words[1 + i] as usize),
        ),
        Section::Sampling => StatView::SampleStats(
            Seq::new(
                count,
                |i: int|
                    (
                        words[1 + 4 * i] as usize,
                        words[2 + 4 * i] as usize,
                        words[3 + 4 * i] as usize,
                        words[4 + 4 * i] as usize,
                    ),
            ),
        ),
        Section::Verification => StatView::VerifiedStats(
            Seq::new(
                count,
                |i: int|
                    (
                        words[1 + 3 * i] as usize,
                        words[2 + 3 * i] as usize,
                        words[3 + 3 * i] as usize,
                    ),
            ),
        ),
    }
}

/// The record of `section` that `bytes` is the stored form of, if there is one.
pub open spec fn decode_spec(section: Section, bytes: Seq<u8>) -> Option<StatView> {
    let words = bytes_to_words(bytes);
    if bytes.len() % 8 == 0 && well_formed_words(section, words) {
        Some(record_of_words(section, words))
    } else {
        None
    }
}

/// Appending a word to a run of words appends its 8 bytes to the bytes.
proof fn lemma_words_to_bytes_push(words: Seq<u64>, word: u64)
    ensures
        words_to_bytes(words.push(word)) == words_to_bytes(words) + spec_u64_to_le_bytes(word),
{
    lemma_auto_spec_u64_to_from_le_bytes();
    let left = words_to_bytes(words.push(word));
    let right = words_to_bytes(words) + spec_u64_to_le_bytes(word);
    assert(left.len() == right.len());
    assert forall|i: int| 0 <= i < left.len() implies left[i] == right[i] by {
        if i < 8 * words.len() {
            assert(i / 8 < words.len());
        } else {
            assert(i / 8 == words.len());
            assert(i % 8 == i - 8 * words.len());
        }
    }
    assert(left =~= right);
}

/// The bytes of the first `k + 1` words are those of the first `k` followed
/// by the bytes of word `k`.
proof fn lemma_words_to_bytes_step(words: Seq<u64>, k: int)
    requires
        0 <= k < words.len(),
    ensures
        words_to_bytes(words.take(k + 1)) == words_to_bytes(words.take(k)) + spec_u64_to_le_bytes(
            words[k],
        ),
{
    assert(words.take(k + 1) =~= words.take(k).push(words[k]));
    lemma_words_to_bytes_push(words.take(k), words[k]);
}

/// Appends the 8 bytes of `word` to `out`.
fn put_word(out: &mut Vec<u8>, word: u64)
    ensures
        final(out)@ == old(out)@ + spec_u64_to_le_bytes(word),
{
    let mut chunk = u64_to_le_bytes(word);
    out.append(&mut chunk);
}

fn encode_slots(slots: &Vec<usize>) -> (bytes: Vec<u8>)
    ensures
        bytes@ == encode_spec(StatView::SlotStats(slots@)),
{
    let ghost words = StatView::SlotStats(slots@).words();
    let mut out: Vec<u8> = Vec::new();
    assert(out@ =~= words_to_bytes(words.take(0)));
    proof {
        lemma_words_to_bytes_step(words, 0);
    }
    put_word(&mut out, slots.len() as u64);
    let mut i: usize = 0;
    while i < slots.len()
        invariant
            i <= slots.len(),
            words == StatView::SlotStats(slots@).words(),
            out@ == words_to_bytes(words.take(1 + i)),
        decreases slots.len() - i,
    {
        proof {
            lemma_words_to_bytes_step(words, 1 + i);
        }
        put_word(&mut out, slots[i] as u64);
        i += 1;
    }
    assert(words.take(1 + i) =~= words);
    out
}

fn encode_samples(samples: &Vec<(usize, usize, usize, usize)>) -> (bytes: Vec<u8>)
    ensures
        bytes@ == encode_spec(StatView::SampleStats(samples@)),
{
    let ghost words = StatView::SampleStats(samples@).words();
    let mut out: Vec<u8> = Vec::new();
    assert(out@ =~= words_to_bytes(words.take(0)));
    proof {
        lemma_words_to_bytes_step(words, 0);
    }
    put_word(&mut out, samples.len() as u64);
    let mut i: usize = 0;
    while i < samples.len()
        invariant
            i <= samples.len(),
            words == StatView::SampleStats(samples@).words(),
            out@ == words_to_bytes(words.take(1 + 4 * i)),
        decreases samples.len() - i,
    {
        let entry = samples[i];
        proof {
            let base = 1 + 4 * i;
            lemma_words_to_bytes_step(words, base);
            lemma_words_to_bytes_step(words, base + 1);
            lemma_words_to_bytes_step(words, base + 2);
            lemma_words_to_bytes_step(words, base + 3);
            assert(words[base] == entry.0 as u64);
            assert(words[base + 1] == entry.1 as u64);
            assert(words[base + 2] == entry.2 as u64);
            assert(words[base + 3] == entry.3 as u64);
        }
        put_word(&mut out, entry.0 as u64);
        put_word(&mut out, entry.1 as u64);
        put_word(&mut out, entry.2 as u64);
        put_word(&mut out, entry.3 as u64);
        i += 1;
    }
    assert(words.take(1 + 4 * i) =~= words);
    out
}

fn encode_verified(verified: &Vec<(usize, usize, usize)>) -> (bytes: Vec<u8>)
    ensures
        bytes@ == encode_spec(StatView::VerifiedStats(verified@)),
{
    let ghost words = StatView::VerifiedStats(verified@).words();
    let mut out: Vec<u8> = Vec::new();
    assert(out@ =~= words_to_bytes(words.take(0)));
    proof {
        lemma_words_to_bytes_step(words, 0);
    }
    put_word(&mut out, verified.len() as u64);
    let mut i: usize = 0;
    while i < verified.len()
        invariant
            i <= verified.len(),
            words == StatView::VerifiedStats(verified@).words(),
            out@ == words_to_bytes(words.take(1 + 3 * i)),
        decreases verified.len() - i,
    {
        let entry = verified[i];
        proof {
            let base = 1 + 3 * i;
            lemma_words_to_bytes_step(words, base);
            lemma_words_to_bytes_step(words, base + 1);
            lemma_words_to_bytes_step(words, base + 2);
            assert(words[base] == entry.0 as u64);
            assert(words[base + 1] == entry.1 as u64);
            assert(words[base + 2] == entry.2 as u64);
        }
        put_word(&mut out, entry.0 as u64);
        put_word(&mut out, entry.1 as u64);
        put_word(&mut out, entry.2 as u64);
        i += 1;
    }
    assert(words.take(1 + 3 * i) =~= words);
    out
}

/// Encodes a record into its stored form.
pub fn encode(record: &StatType) -> (bytes: Vec<u8>)
    ensures
        bytes@ == encode_spec(record@),
{
    match record {
        StatType::SlotStats(slots) => encode_slots(slots),
        StatType::SampleStats(samples) => encode_samples(samples),
        StatType::VerifiedStats(verified) => encode_verified(verified),
    }
}

/// Reads word `index` of `bytes`.
fn read_word(bytes: &[u8], index: usize) -> (word: u64)
    requires
        8 * (index + 1) <= bytes@.len() <= usize::MAX,
    ensures
        word == bytes_to_words(bytes@)[index as int],
{
    u64_from_le_bytes(slice_subrange(bytes, 8 * index, 8 * index + 8))
}

/// Reads word `index` of `bytes` as a field of an entry; `None` where the
/// word does not fit the machine's word.
fn read_field(bytes: &[u8], index: usize) -> (field: Option<usize>)
    requires
        8 * (index + 1) <= bytes@.len() <= usize::MAX,
    ensures
        match field {
            Some(value) => value == bytes_to_words(bytes@)[index as int],
            None => bytes_to_words(bytes@)[index as int] > usize::MAX,
        },
{
    let word = read_word(bytes, index);
    if word > usize::MAX as u64 {
        None
    } else {
        Some(word as usize)
    }
}

fn decode_slots(bytes: &[u8], count: usize) -> (res: Option<Vec<usize>>)
    requires
        bytes@.len() % 8 == 0,
        bytes@.len() <= usize::MAX,
        bytes_to_words(bytes@).len() == 1 + count,
        bytes_to_words(bytes@)[0] == count,
    ensures
        match res {
            Some(slots) => decode_spec(Section::SlotProgress, bytes@) == Some(
                StatView::SlotStats(slots@),
            ),
            None => decode_spec(Section::SlotProgress, bytes@) is None,
        },
{
    let ghost words = bytes_to_words(bytes@);
    let mut slots: Vec<usize> = Vec::new();
    let mut i: usize = 0;
    while i < count
        invariant
            i <= count,
            words == bytes_to_words(bytes@),
            words.len() == 1 + count,
            bytes@.len() % 8 == 0,
            bytes@.len() <= usize::MAX,
            slots@.len() == i,
            forall|k: int| 1 <= k < 1 + i ==> words[k] <= usize::MAX,
            forall|k: int| 0 <= k < i ==> slots@[k] == words[1 + k] as usize,
        decreases count - i,
    {
        match read_field(bytes, 1 + i) {
            Some(slot) => slots.push(slot),
            None => {
                return None;
            },
        }
        i += 1;
    }
    assert(slots@ =~= Seq::new(count as nat, |k: int| words[1 + k] as usize));
    Some(slots)
}

fn decode_samples(bytes: &[u8], count: usize) -> (res: Option<Vec<(usize, usize, usize, usize)>>)
    requires
        bytes@.len() % 8 == 0,
        bytes@.len() <= usize::MAX,
        bytes_to_words(bytes@).len() == 1 + 4 * count,
        bytes_to_words(bytes@)[0] == count,
    ensures
        match res {
            Some(samples) => decode_spec(Section::Sampling, bytes@) == Some(
                StatView::SampleStats(samples@),
            ),
            None => decode_spec(Section::Sampling, bytes@) is None,
        },
{
    let ghost words = bytes_to_words(bytes@);
    let mut samples: Vec<(usize, usize, usize, usize)> = Vec::new();
    let mut i: usize = 0;
    while i < count
        invariant
            i <= count,
            words == bytes_to_words(bytes@),
            words.len() == 1 + 4 * count,
            bytes@.len() % 8 == 0,
            bytes@.len() <= usize::MAX,
            samples@.len() == i,
            forall|k: int| 1 <= k < 1 + 4 * i ==> words[k] <= usize::MAX,
            forall|k: int|
                0 <= k < i ==> samples@[k] == (
                    words[1 + 4 * k] as usize,
                    words[2 + 4 * k] as usize,
                    words[3 + 4 * k] as usize,
                    words[4 + 4 * k] as usize,
                ),
        decreases count - i,
    {
        let base: usize = 1 + 4 * i;
        let issued = read_field(bytes, base);
        let satisfied = read_field(bytes, base + 1);
        let sampled = read_field(bytes, base + 2);
        let failed = read_field(bytes, base + 3);
        match (issued, satisfied, sampled, failed) {
            (Some(a), Some(b), Some(c), Some(d)) => samples.push((a, b, c, d)),
            _ => {
                return None;
            },
        }
        i += 1;
    }
    assert(samples@ =~= Seq::new(
        count as nat,
        |k: int|
            (
                words[1 + 4 * k] as usize,
                words[2 + 4 * k] as usize,
                words[3 + 4 * k] as usize,
                words[4 + 4 * k] as usize,
            ),
    ));
    Some(samples)
}

fn decode_verified(bytes: &[u8], count: usize) -> (res: Option<Vec<(usize, usize, usize)>>)
    requires
        bytes@.len() % 8 == 0,
        bytes@.len() <= usize::MAX,
        bytes_to_words(bytes@).len() == 1 + 3 * count,
        bytes_to_words(bytes@)[0] == count,
    ensures
        match res {
            Some(verified) => decode_spec(Section::Verification, bytes@) == Some(
                StatView::VerifiedStats(verified@),
            ),
            None => decode_spec(Section::Verification, bytes@) is None,
        },
{
    let ghost words = bytes_to_words(bytes@);
    let mut verified: Vec<(usize, usize, usize)> = Vec::new();
    let mut i: usize = 0;
    while i < count
        invariant
            i <= count,
            words == bytes_to_words(bytes@),
            words.len() == 1 + 3 * count,
            bytes@.len() % 8 == 0,
            bytes@.len() <= usize::MAX,
            verified@.len() == i,
            forall|k: int| 1 <= k < 1 + 3 * i ==> words[k] <= usize::MAX,
            forall|k: int|
                0 <= k < i ==> verified@[k] == (
                    words[1 + 3 * k] as usize,
                    words[2 + 3 * k] as usize,
                    words[3 + 3 * k] as usize,
                ),
        decreases count - i,
    {
        let base: usize = 1 + 3 * i;
        let passed = read_field(bytes, base);
        let failed = read_field(bytes, base + 1);
        let pending = read_field(bytes, base + 2);
        match (passed, failed, pending) {
            (Some(a), Some(b), Some(c)) => verified.push((a, b, c)),
            _ => {
                return None;
            },
        }
        i += 1;
    }
    assert(verified@ =~= Seq::new(
        count as nat,
        |k: int|
            (words[1 + 3 * k] as usize, words[2 + 3 * k] as usize, words[3 + 3 * k] as usize),
    ));
    Some(verified)
}

/// Decodes the stored form of a record of `section`. The bytes decode in
/// full or not at all: anything that is not the stored form of a record of
/// that section is refused.
pub fn decode(section: Section, bytes: &[u8]) -> (res: Result<StatType, CorruptRecordError>)
    ensures
        match res {
            Ok(record) => decode_spec(section, bytes@) == Some(record@),
            Err(_) => decode_spec(section, bytes@) is None,
        },
{
    let len = bytes.len();
    if len % 8 != 0 || len < 8 {
        return Err(CorruptRecordError);
    }
    let following: usize = len / 8 - 1;
    let announced = read_word(bytes, 0);
    if announced > following as u64 {
        return Err(CorruptRecordError);
    }
    let count = announced as usize;
    match section {
        Section::SlotProgress => {
            if count != following {
                return Err(CorruptRecordError);
            }
            match decode_slots(bytes, count) {
                Some(slots) => Ok(StatType::SlotStats(slots)),
                None => Err(CorruptRecordError),
            }
        },
        Section::Sampling => {
            if following % 4 != 0 || count != following / 4 {
                return Err(CorruptRecordError);
            }
            match decode_samples(bytes, count) {
                Some(samples) => Ok(StatType::SampleStats(samples)),
                None => Err(CorruptRecordError),
            }
        },
        Section::Verification => {
            if following % 3 != 0 || count != following / 3 {
                return Err(CorruptRecordError);
            }
            match decode_verified(bytes, count) {
                Some(verified) => Ok(StatType::VerifiedStats(verified)),
                None => Err(CorruptRecordError),
            }
        },
    }
}

/// Reading the words back from the bytes of a run of words gives that run.
proof fn lemma_bytes_of_words(words: Seq<u64>)
    ensures
        words_to_bytes(words).len() == 8 * words.len(),
        bytes_to_words(words_to_bytes(words)) == words,
{
    lemma_auto_spec_u64_to_from_le_bytes();
    let bytes = words_to_bytes(words);
    let back = bytes_to_words(bytes);
    assert(back.len() == words.len());
    assert forall|i: int| 0 <= i < words.len() implies back[i] == words[i] by {
        let chunk = bytes.subrange(8 * i, 8 * i + 8);
        assert forall|j: int| 0 <= j < 8 implies chunk[j] == spec_u64_to_le_bytes(words[i])[j] by {
            assert((8 * i + j) / 8 == i);
            assert((8 * i + j) % 8 == j);
        }
        assert(chunk =~= spec_u64_to_le_bytes(words[i]));
    }
    assert(back =~= words);
}

/// Writing out the words held by a whole number of 8-byte groups gives the
/// bytes back.
proof fn lemma_words_of_bytes(bytes: Seq<u8>)
    requires
        bytes.len() % 8 == 0,
    ensures
        words_to_bytes(bytes_to_words(bytes)) == bytes,
{
    lemma_auto_spec_u64_to_from_le_bytes();
    let words = bytes_to_words(bytes);
    let back = words_to_bytes(words);
    assert(back.len() == bytes.len());
    assert forall|i: int| 0 <= i < bytes.len() implies back[i] == bytes[i] by {
        let w = i / 8;
        let chunk = bytes.subrange(8 * w, 8 * w + 8);
        assert(chunk.len() == 8);
        assert(spec_u64_to_le_bytes(spec_u64_from_le_bytes(chunk)) == chunk);
        assert(chunk[i % 8] == bytes[8 * w + i % 8]);
    }
    assert(back =~= bytes);
}

/// The word form of a record is well formed and stands for that record.
proof fn lemma_record_of_words(record: StatView)
    requires
        record.entries() <= usize::MAX,
    ensures
        well_formed_words(record.section(), record.words()),
        record_of_words(record.section(), record.words()) == record,
{
    let words = record.words();
    match record {
        StatView::SlotStats(slots) => {
            let back = Seq::new(words[0] as nat, |i: int| words[1 + i] as usize);
            assert(back =~= slots);
            assert forall|i: int| 1 <= i < words.len() implies words[i] <= usize::MAX by {
                assert(words[i] == slots[i - 1] as u64);
            }
        },
        StatView::SampleStats(samples) => {
            let back = Seq::new(
                words[0] as nat,
                |i: int|
                    (
                        words[1 + 4 * i] as usize,
                        words[2 + 4 * i] as usize,
                        words[3 + 4 * i] as usize,
                        words[4 + 4 * i] as usize,
                    ),
            );
            assert forall|i: int| 0 <= i < samples.len() implies back[i] == samples[i] by {
                assert((4 * i) / 4 == i && (4 * i) % 4 == 0);
                assert((4 * i + 1) / 4 == i && (4 * i + 1) % 4 == 1);
                assert((4 * i + 2) / 4 == i && (4 * i + 2) % 4 == 2);
                assert((4 * i + 3) / 4 == i && (4 * i + 3) % 4 == 3);
            }
            assert(back =~= samples);
        },
        StatView::VerifiedStats(verified) => {
            let back = Seq::new(
                words[0] as nat,
                |i: int|
                    (
                        words[1 + 3 * i] as usize,
                        words[2 + 3 * i] as usize,
                        words[3 + 3 * i] as usize,
                    ),
            );
            assert forall|i: int| 0 <= i < verified.len() implies back[i] == verified[i] by {
                assert((3 * i) / 3 == i && (3 * i) % 3 == 0);
                assert((3 * i + 1) / 3 == i && (3 * i + 1) % 3 == 1);
                assert((3 * i + 2) / 3 == i && (3 * i + 2) % 3 == 2);
            }
            assert(back =~= verified);
        },
    }
}

/// A well-formed run of words is the word form of the record it stands for.
proof fn lemma_words_of_record(section: Section, words: Seq<u64>)
    requires
        well_formed_words(section, words),
    ensures
        record_of_words(section, words).section() == section,
        record_of_words(section, words).words() == words,
{
    let record = record_of_words(section, words);
    let back = record.words();
    assert(back.len() == words.len());
    assert forall|k: int| 0 <= k < words.len() implies back[k] == words[k] by {
        if k >= 1 {
            let p = k - 1;
            match section {
                Section::SlotProgress => {},
                Section::Sampling => {
                    assert(p == 4 * (p / 4) + p % 4);
                },
                Section::Verification => {
                    assert(p == 3 * (p / 3) + p % 3);
                },
            }
        }
    }
    assert(back =~= words);
}

/// Decoding the stored form of a record gives the record back.
pub proof fn lemma_decode_encode(record: StatType)
    ensures
        decode_spec(record@.section(), encode_spec(record@)) == Some(record@),
{
    match record {
        StatType::SlotStats(slots) => {
            assert(slots.len() == slots@.len());
        },
        StatType::SampleStats(samples) => {
            assert(samples.len() == samples@.len());
        },
        StatType::VerifiedStats(verified) => {
            assert(verified.len() == verified@.len());
        },
    }
    lemma_bytes_of_words(record@.words());
    lemma_record_of_words(record@);
}

/// Whatever decodes is the stored form of the record it decodes to: no two
/// byte strings decode to the same record of a section.
pub proof fn lemma_encode_decode(section: Section, bytes: Seq<u8>)
    requires
        decode_spec(section, bytes) is Some,
    ensures
        decode_spec(section, bytes)->Some_0.section() == section,
        encode_spec(decode_spec(section, bytes)->Some_0) == bytes,
{
    lemma_words_of_bytes(bytes);
    lemma_words_of_record(section, bytes_to_words(bytes));
}

} // verus!
