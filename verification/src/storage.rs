//! The term index of a dictionary's storage: records are filed under the
//! headword and the reading of their term, and the entries of that index are
//! written as bytes: a record ID in eight little-endian bytes, followed by the
//! other part of the term in UTF-8.

use vstd::bytes::{spec_u64_from_le_bytes, spec_u64_to_le_bytes, u64_from_le_bytes, u64_to_le_bytes};
use vstd::prelude::*;
use vstd::string::StringSliceAdditionalSpecFns;
use vstd::utf8::{decode_utf8, encode_utf8, valid_utf8};

use crate::record::RecordId;
use crate::term::{is_normalized, normalized, NormString, Term};

verus! {

/// Storage backend over LMDB.
#[derive(Debug, Clone, Copy)]
pub struct Heed;

/// Storage backend over SQLite.
#[derive(Debug, Clone, Copy)]
pub struct Libsql;

/// Storage backend over redb.
#[derive(Debug, Clone, Copy)]
pub struct Redb;

/// Storage backend over RocksDB.
#[derive(Debug, Clone, Copy)]
pub struct Rocksdb;

/// A table of the term index.
#[derive(Debug, Clone, Copy, PartialEq, Eq, Structural)]
pub enum TermTable {
    Headwords,
    Readings,
}

/// An entry of the term index under one part of a term: the record, and the
/// other part of the term (empty if the term has no other part).
#[derive(Debug)]
pub struct TermEntry {
    pub record_id: RecordId,
    pub secondary: String,
}

/// The text of an optional term part, or nothing.
pub open spec fn or_empty(p: Option<Seq<char>>) -> Seq<char> {
    match p {
        Some(x) => x,
        None => Seq::empty(),
    }
}

/// The entries that file record `id` under term `t`, as (table, key, other
/// part): under its headword with its reading, then under its reading with
/// its headword.
pub open spec fn term_entries_of(t: Term, id: RecordId) -> Seq<(TermTable, Seq<char>, Seq<char>)> {
    let h = match t.headword_of() {
        Some(hw) => seq![(TermTable::Headwords, hw, or_empty(t.reading_of()))],
        None => Seq::empty(),
    };
    let r = match t.reading_of() {
        Some(rd) => seq![(TermTable::Readings, rd, or_empty(t.headword_of()))],
        None => Seq::empty(),
    };
    h + r
}

fn part_or_empty(p: Option<&NormString>) -> (r: String)
    ensures
        r@ == or_empty(match p {
            Some(n) => Some(n@),
            None => None,
        }),
{
    match p {
        Some(n) => n.as_str().to_owned(),
        None => String::new(),
    }
}

/// The entries that file record `id` under `term` (see [`term_entries_of`]).
pub fn term_entries(term: &Term, id: RecordId) -> (r: Vec<(TermTable, String, TermEntry)>)
    ensures
        r@.map_values(|e: (TermTable, String, TermEntry)| (e.0, e.1@, e.2.secondary@)) == term_entries_of(
            *term,
            id,
        ),
        forall|i: int| 0 <= i < r@.len() ==> (#[trigger] r@[i]).2.record_id == id,
{
    let mut out: Vec<(TermTable, String, TermEntry)> = Vec::new();
    match term.headword() {
        Some(h) => {
            let secondary = part_or_empty(term.reading());
            out.push((TermTable::Headwords, h.as_str().to_owned(), TermEntry { record_id: id, secondary }));
        },
        None => {},
    }
    let ghost first = out@;
    match term.reading() {
        Some(r) => {
            let secondary = part_or_empty(term.headword());
            out.push((TermTable::Readings, r.as_str().to_owned(), TermEntry { record_id: id, secondary }));
        },
        None => {},
    }
    proof {
        assert(out@.map_values(|e: (TermTable, String, TermEntry)| (e.0, e.1@, e.2.secondary@)) =~= term_entries_of(
            *term,
            id,
        ));
    }
    out
}

/// The bytes of an index entry: the record ID in eight little-endian bytes,
/// then the other part of the term in UTF-8.
pub open spec fn entry_bytes(id: u64, secondary: Seq<char>) -> Seq<u8> {
    spec_u64_to_le_bytes(id) + encode_utf8(secondary)
}

/// The bytes of an index entry (see [`entry_bytes`]).
pub fn encode_term_entry(e: &TermEntry) -> (r: Vec<u8>)
    ensures
        r@ == entry_bytes(e.record_id.0, e.secondary@),
{
    let mut out = u64_to_le_bytes(e.record_id.0);
    let bytes = e.secondary.as_str().as_bytes();
    let mut i: usize = 0;
    let ghost start = out@;
    while i < bytes.len()
        invariant
            i <= bytes@.len(),
            bytes@ == encode_utf8(e.secondary@),
            out@ == start + bytes@.take(i as int),
        decreases bytes@.len() - i,
    {
        out.push(bytes[i]);
        proof {
            assert(bytes@.take(i as int + 1) =~= bytes@.take(i as int).push(bytes@[i as int]));
        }
        i = i + 1;
    }
    proof {
        assert(bytes@.take(bytes@.len() as int) =~= bytes@);
    }
    out
}

/// The string whose UTF-8 encoding is `bytes`, if they are valid UTF-8.
///
/// Trusted wrapper over `str::from_utf8`, which std documents as succeeding
/// exactly when the bytes are valid UTF-8, with a string slice holding those
/// same bytes.
#[verifier::external_body]
fn utf8_string(bytes: &[u8]) -> (r: Option<String>)
    ensures
        r is Some <==> valid_utf8(bytes@),
        r matches Some(s) ==> encode_utf8(s@) == bytes@,
{
    std::str::from_utf8(bytes).ok().map(|s| s.to_owned())
}

/// Why bytes are not an index entry.
#[derive(Debug, Clone, Copy, PartialEq, Eq, Structural)]
pub enum TermEntryError {
    /// Fewer than eight bytes: there is no record ID.
    MissingRecordId,
    /// The bytes after the record ID are not UTF-8.
    InvalidSecondary,
}

/// The bytes of `v` from `lo` to `hi`.
fn copy_range(v: &[u8], lo: usize, hi: usize) -> (r: Vec<u8>)
    requires
        lo <= hi <= v@.len(),
    ensures
        r@ == v@.subrange(lo as int, hi as int),
{
    let mut out: Vec<u8> = Vec::new();
    let mut i = lo;
    while i < hi
        invariant
            lo <= i <= hi <= v@.len(),
            out@ == v@.subrange(lo as int, i as int),
        decreases hi - i,
    {
        out.push(v[i]);
        proof {
            assert(v@.subrange(lo as int, i as int + 1) =~= v@.subrange(lo as int, i as int).push(v@[i as int]));
        }
        i = i + 1;
    }
    out
}

/// Reads an index entry from its bytes (see [`entry_bytes`]).
pub fn decode_term_entry(bytes: &[u8]) -> (r: Result<TermEntry, TermEntryError>)
    ensures
        bytes@.len() < 8 ==> r == Err::<TermEntry, TermEntryError>(TermEntryError::MissingRecordId),
        bytes@.len() >= 8 ==> (r is Ok <==> valid_utf8(bytes@.skip(8))),
        bytes@.len() >= 8 && !valid_utf8(bytes@.skip(8)) ==> r == Err::<TermEntry, TermEntryError>(
            TermEntryError::InvalidSecondary,
        ),
        r matches Ok(e) ==> e.record_id.0 == spec_u64_from_le_bytes(bytes@.take(8)) && e.secondary@
            == decode_utf8(bytes@.skip(8)),
{
    if bytes.len() < 8 {
        return Err(TermEntryError::MissingRecordId);
    }
    let id_bytes = copy_range(bytes, 0, 8);
    let id = u64_from_le_bytes(id_bytes.as_slice());
    let rest = copy_range(bytes, 8, bytes.len());
    proof {
        assert(id_bytes@ =~= bytes@.take(8));
        assert(rest@ =~= bytes@.skip(8));
    }
    match utf8_string(rest.as_slice()) {
        Some(s) => {
            proof {
                vstd::utf8::encode_utf8_decode_utf8(s@);
            }
            Ok(TermEntry { record_id: RecordId(id), secondary: s })
        },
        None => Err(TermEntryError::InvalidSecondary),
    }
}

/// Reading back the bytes of an index entry gives its record ID and its
/// other part: the first eight bytes hold the ID, and the rest is valid UTF-8
/// that decodes to the other part.
pub proof fn lemma_entry_roundtrip(id: u64, secondary: Seq<char>)
    ensures
        entry_bytes(id, secondary).len() >= 8,
        spec_u64_from_le_bytes(entry_bytes(id, secondary).take(8)) == id,
        valid_utf8(entry_bytes(id, secondary).skip(8)),
        decode_utf8(entry_bytes(id, secondary).skip(8)) == secondary,
{
    vstd::bytes::lemma_auto_spec_u64_to_from_le_bytes();
    let b = entry_bytes(id, secondary);
    assert(spec_u64_to_le_bytes(id).len() == 8);
    assert(b.take(8) =~= spec_u64_to_le_bytes(id));
    assert(b.skip(8) =~= encode_utf8(secondary));
    vstd::utf8::encode_utf8_valid_utf8(secondary);
    vstd::utf8::encode_utf8_decode_utf8(secondary);
}

/// The bytes of a list of record IDs: each in eight little-endian bytes, one
/// after the other.
pub open spec fn ids_bytes(ids: Seq<u64>) -> Seq<u8>
    decreases ids.len(),
{
    if ids.len() == 0 {
        Seq::empty()
    } else {
        ids_bytes(ids.drop_last()) + spec_u64_to_le_bytes(ids.last())
    }
}

/// The bytes of a record ID.
pub fn id_to_bytes(id: RecordId) -> (r: Vec<u8>)
    ensures
        r@ == spec_u64_to_le_bytes(id.0),
        r@.len() == 8,
{
    u64_to_le_bytes(id.0)
}

/// The record ID held in eight bytes.
pub fn bytes_to_id(bytes: &[u8]) -> (r: RecordId)
    requires
        bytes@.len() == 8,
    ensures
        r.0 == spec_u64_from_le_bytes(bytes@),
{
    RecordId(u64_from_le_bytes(bytes))
}

/// The byte length of a list of IDs is not a multiple of eight.
#[derive(Debug, Clone, Copy, PartialEq, Eq)]
pub struct BlobLengthError {
    pub len: usize,
}

/// The record IDs held in a list of IDs, each in eight bytes; an error if
/// its length is not a multiple of eight.
pub fn ids_from_blob(blob: &[u8]) -> (r: Result<Vec<RecordId>, BlobLengthError>)
    ensures
        r is Ok <==> blob@.len() % 8 == 0,
        r matches Err(e) ==> e.len == blob@.len(),
        r matches Ok(v) ==> v@.len() == blob@.len() / 8 && forall|i: int|
            0 <= i < v@.len() ==> (#[trigger] v@[i]).0 == spec_u64_from_le_bytes(blob@.subrange(8 * i, 8 * i + 8)),
{
    let n = blob.len();
    if n % 8 != 0 {
        return Err(BlobLengthError { len: n });
    }
    let mut out: Vec<RecordId> = Vec::new();
    let mut i: usize = 0;
    while i < n / 8
        invariant
            n == blob@.len(),
            n % 8 == 0,
            i <= n / 8,
            out@.len() == i,
            forall|k: int| 0 <= k < i ==> (#[trigger] out@[k]).0 == spec_u64_from_le_bytes(blob@.subrange(8 * k, 8 * k + 8)),
        decreases n / 8 - i,
    {
        let chunk = copy_range(blob, 8 * i, 8 * i + 8);
        out.push(bytes_to_id(chunk.as_slice()));
        i = i + 1;
    }
    Ok(out)
}

/// A list of record IDs written one after the other reads back as the same
/// list: it has eight bytes per ID, and each eight-byte chunk holds the ID at
/// its position.
pub proof fn lemma_ids_roundtrip(ids: Seq<u64>)
    ensures
        ids_bytes(ids).len() == 8 * ids.len(),
        forall|i: int| 0 <= i < ids.len() ==> spec_u64_from_le_bytes(#[trigger] ids_bytes(ids).subrange(8 * i, 8 * i + 8)) == ids[i],
    decreases ids.len(),
{
    vstd::bytes::lemma_auto_spec_u64_to_from_le_bytes();
    if ids.len() > 0 {
        let pre = ids.drop_last();
        lemma_ids_roundtrip(pre);
        let b = ids_bytes(ids);
        assert(spec_u64_to_le_bytes(ids.last()).len() == 8);
        assert forall|i: int| 0 <= i < ids.len() implies spec_u64_from_le_bytes(#[trigger] ids_bytes(ids).subrange(8 * i, 8 * i + 8)) == ids[i] by {
            if i < pre.len() {
                assert(b.subrange(8 * i, 8 * i + 8) =~= ids_bytes(pre).subrange(8 * i, 8 * i + 8));
                assert(pre[i] == ids[i]);
            } else {
                assert(b.subrange(8 * i, 8 * i + 8) =~= spec_u64_to_le_bytes(ids.last()));
            }
        }
    }
}

/// What the `concat` merge operator of the term index makes of a key's
/// existing value and its merge operands: all of them, one after the other.
pub open spec fn concat_of(existing: Option<Seq<u8>>, ops: Seq<Seq<u8>>) -> Seq<u8>
    decreases ops.len(),
{
    if ops.len() == 0 {
        match existing {
            Some(e) => e,
            None => Seq::empty(),
        }
    } else {
        concat_of(existing, ops.drop_last()) + ops.last()
    }
}

/// The bytes of each operand.
pub open spec fn operand_views(ops: Seq<Vec<u8>>) -> Seq<Seq<u8>> {
    ops.map_values(|v: Vec<u8>| v@)
}

/// Appends the bytes of `v` to `out`.
fn extend_bytes(out: &mut Vec<u8>, v: &[u8])
    ensures
        final(out)@ == old(out)@ + v@,
{
    let ghost start = out@;
    let mut i: usize = 0;
    while i < v.len()
        invariant
            i <= v@.len(),
            out@ == start + v@.take(i as int),
        decreases v@.len() - i,
    {
        out.push(v[i]);
        proof {
            assert(v@.take(i as int + 1) =~= v@.take(i as int).push(v@[i as int]));
        }
        i = i + 1;
    }
    proof {
        assert(v@.take(v@.len() as int) =~= v@);
    }
}

/// The `concat` merge operator: the existing value, if any, followed by
/// each operand (see [`concat_of`]).
pub fn concat_merge(existing: Option<&[u8]>, operands: &Vec<Vec<u8>>) -> (r: Vec<u8>)
    ensures
        r@ == concat_of(
            match existing {
                Some(e) => Some(e@),
                None => None,
            },
            operand_views(operands@),
        ),
{
    let ghost ex = match existing {
        Some(e) => Some(e@),
        None => None,
    };
    let ghost ops = operand_views(operands@);
    let mut result: Vec<u8> = Vec::new();
    match existing {
        Some(e) => extend_bytes(&mut result, e),
        None => {},
    }
    proof {
        assert(result@ =~= concat_of(ex, ops.take(0)));
    }
    let mut i: usize = 0;
    while i < operands.len()
        invariant
            i <= operands@.len(),
            ops == operand_views(operands@),
            result@ == concat_of(ex, ops.take(i as int)),
        decreases operands@.len() - i,
    {
        extend_bytes(&mut result, operands[i].as_slice());
        proof {
            let t = ops.take(i as int + 1);
            assert(t.drop_last() =~= ops.take(i as int));
            assert(t.last() == operands@[i as int]@);
        }
        i = i + 1;
    }
    proof {
        assert(ops.take(operands@.len() as int) =~= ops);
    }
    result
}

/// Merging the bytes of record IDs, one operand each, onto the bytes of a
/// list of IDs gives the bytes of the longer list: what the index holds for
/// a key reads back (by [`lemma_ids_roundtrip`]) as every ID filed under it,
/// in the order they were filed.
pub proof fn lemma_merge_ids(filed: Seq<u64>, added: Seq<u64>)
    ensures
        concat_of(
            Some(ids_bytes(filed)),
            added.map_values(|id: u64| spec_u64_to_le_bytes(id)),
        ) == ids_bytes(filed + added),
    decreases added.len(),
{
    let ops = added.map_values(|id: u64| spec_u64_to_le_bytes(id));
    if added.len() == 0 {
        assert(filed + added =~= filed);
    } else {
        let pre = added.drop_last();
        lemma_merge_ids(filed, pre);
        assert(ops.drop_last() =~= pre.map_values(|id: u64| spec_u64_to_le_bytes(id)));
        assert((filed + added).drop_last() =~= filed + pre);
        assert((filed + added).last() == added.last());
    }
}

/// Why a lookup could not make a term of an index entry.
#[derive(Debug, Clone, Copy, PartialEq, Eq)]
pub struct NoHeadwordOrReading;

/// The term of a headword and a reading: `None` when neither normalizes to
/// something.
pub open spec fn term_of(h: Seq<char>, r: Seq<char>) -> Option<(Option<Seq<char>>, Option<Seq<char>>)> {
    if normalized(h) is None && normalized(r) is None {
        None
    } else {
        Some((normalized(h), normalized(r)))
    }
}

/// The (headword, reading, record) of each entry found for `lemma`: first
/// those under it as a headword, then those under it as a reading.
pub open spec fn lookup_rows(lemma: Seq<char>, hs: Seq<TermEntry>, rs: Seq<TermEntry>) -> Seq<
    (Seq<char>, Seq<char>, RecordId),
> {
    hs.map_values(|e: TermEntry| (lemma, e.secondary@, e.record_id)) + rs.map_values(
        |e: TermEntry| (e.secondary@, lemma, e.record_id),
    )
}

/// Where the part `p` of a term is filed, the row it gives reads back as
/// that part: a normalized part normalizes to itself, and a missing part
/// (the empty string) to nothing.
proof fn lemma_part_reads_back(p: Option<Seq<char>>)
    requires
        p matches Some(x) ==> is_normalized(x),
    ensures
        normalized(or_empty(p)) == p,
{
    if p is None {
        assert(or_empty(p) =~= Seq::<char>::empty());
    }
}

/// A lookup finds what was filed. Take a term `t` (with normalized parts)
/// filed for record `id`, and entry `k` of [`term_entries_of`]`(t, id)`:
/// when the index under that entry's key holds the entry at position `j`
/// (of the headword table `hs` or the reading table `rs`, as the entry
/// says), the row that a lookup of the key makes of it gives back the term
/// `t` and the record `id`. Rows found through the headword table come
/// before those found through the reading table.
pub proof fn lemma_lookup_finds_filed(
    t: Term,
    id: RecordId,
    k: int,
    hs: Seq<TermEntry>,
    rs: Seq<TermEntry>,
    j: int,
)
    requires
        t.wf(),
        0 <= k < term_entries_of(t, id).len(),
        term_entries_of(t, id)[k].0 == TermTable::Headwords ==> 0 <= j < hs.len()
            && hs[j].secondary@ == term_entries_of(t, id)[k].2 && hs[j].record_id == id,
        term_entries_of(t, id)[k].0 == TermTable::Readings ==> 0 <= j < rs.len()
            && rs[j].secondary@ == term_entries_of(t, id)[k].2 && rs[j].record_id == id,
    ensures
        ({
            let (table, key, _) = term_entries_of(t, id)[k];
            let rows = lookup_rows(key, hs, rs);
            let i = if table == TermTable::Headwords {
                j
            } else {
                hs.len() + j
            };
            &&& 0 <= i < rows.len()
            &&& (i < hs.len() <==> table == TermTable::Headwords)
            &&& term_of(rows[i].0, rows[i].1) == Some((t.headword_of(), t.reading_of()))
            &&& rows[i].2 == id
        }),
{
    let (table, key, sec) = term_entries_of(t, id)[k];
    let rows = lookup_rows(key, hs, rs);
    lemma_part_reads_back(t.headword_of());
    lemma_part_reads_back(t.reading_of());
    crate::term::lemma_term_has_part(t);
    if table == TermTable::Headwords {
        assert(t.headword_of() is Some);
        assert(key == t.headword_of()->0);
        assert(sec == or_empty(t.reading_of()));
        assert(rows[j] == (key, hs[j].secondary@, hs[j].record_id));
        assert(normalized(key) == t.headword_of());
    } else {
        assert(t.reading_of() is Some);
        assert(key == t.reading_of()->0);
        assert(sec == or_empty(t.headword_of()));
        assert(rows[hs.len() + j] == (rs[j].secondary@, key, rs[j].record_id));
        assert(normalized(key) == t.reading_of());
    }
}

/// The terms and records of the entries found for `lemma`: the headword
/// entries give terms with `lemma` as headword, the reading entries terms
/// with `lemma` as reading. Fails if an entry gives no term.
pub fn lookup_terms(lemma: &str, headword_rows: &Vec<TermEntry>, reading_rows: &Vec<TermEntry>) -> (r: Result<
    Vec<(Term, RecordId)>,
    NoHeadwordOrReading,
>)
    ensures
        ({
            let rows = lookup_rows(lemma@, headword_rows@, reading_rows@);
            &&& r is Err <==> exists|i: int| 0 <= i < rows.len() && term_of((#[trigger] rows[i]).0, rows[i].1) is None
            &&& r matches Ok(v) ==> v@.len() == rows.len() && forall|i: int|
                0 <= i < v@.len() ==> Some(((#[trigger] v@[i]).0.headword_of(), v@[i].0.reading_of())) == term_of(
                    rows[i].0,
                    rows[i].1,
                ) && v@[i].1 == rows[i].2
        }),
{
    let ghost rows = lookup_rows(lemma@, headword_rows@, reading_rows@);
    let ghost nh = headword_rows@.len();
    let mut out: Vec<(Term, RecordId)> = Vec::new();
    let mut i: usize = 0;
    while i < headword_rows.len()
        invariant
            i <= headword_rows@.len(),
            nh == headword_rows@.len(),
            rows == lookup_rows(lemma@, headword_rows@, reading_rows@),
            out@.len() == i,
            forall|k: int| 0 <= k < i ==> term_of((#[trigger] rows[k]).0, rows[k].1) is Some,
            forall|k: int|
                0 <= k < i ==> Some(((#[trigger] out@[k]).0.headword_of(), out@[k].0.reading_of())) == term_of(
                    rows[k].0,
                    rows[k].1,
                ) && out@[k].1 == rows[k].2,
        decreases headword_rows@.len() - i,
    {
        let e = &headword_rows[i];
        proof {
            assert(rows[i as int] == (lemma@, e.secondary@, e.record_id));
        }
        match Term::new(lemma, e.secondary.as_str()) {
            Some(t) => {
                out.push((t, e.record_id));
            },
            None => {
                return Err(NoHeadwordOrReading);
            },
        }
        i = i + 1;
    }
    let mut j: usize = 0;
    while j < reading_rows.len()
        invariant
            j <= reading_rows@.len(),
            nh == headword_rows@.len(),
            rows == lookup_rows(lemma@, headword_rows@, reading_rows@),
            rows.len() == nh + reading_rows@.len(),
            out@.len() == nh + j,
            forall|k: int| 0 <= k < nh + j ==> term_of((#[trigger] rows[k]).0, rows[k].1) is Some,
            forall|k: int|
                0 <= k < nh + j ==> Some(((#[trigger] out@[k]).0.headword_of(), out@[k].0.reading_of())) == term_of(
                    rows[k].0,
                    rows[k].1,
                ) && out@[k].1 == rows[k].2,
        decreases reading_rows@.len() - j,
    {
        let e = &reading_rows[j];
        proof {
            assert(rows[nh + j] == (e.secondary@, lemma@, e.record_id));
        }
        match Term::new(e.secondary.as_str(), lemma) {
            Some(t) => {
                out.push((t, e.record_id));
            },
            None => {
                return Err(NoHeadwordOrReading);
            },
        }
        j = j + 1;
    }
    Ok(out)
}

/// The source of the IDs of the records of an import: each record gets the
/// next ID, counting up from zero (wrapping around past `u64::MAX`).
#[derive(Debug)]
pub struct RecordIds {
    pub next: u64,
}

impl RecordIds {
    /// IDs counting from zero.
    pub fn new() -> (r: RecordIds)
        ensures
            r.next == 0,
    {
        RecordIds { next: 0 }
    }

    /// The next ID.
    pub fn next_id(&mut self) -> (r: RecordId)
        ensures
            r.0 == old(self).next,
            final(self).next == (if old(self).next == u64::MAX {
                0
            } else {
                old(self).next + 1
            }),
    {
        let id = self.next;
        self.next = if id == u64::MAX {
            0
        } else {
            id + 1
        };
        RecordId(id)
    }
}

/// The ID handed out `n` calls after one counter stood at `start`.
pub open spec fn advance(start: u64, n: nat) -> u64 {
    ((start as nat + n) % 0x1_0000_0000_0000_0000) as u64
}

/// One call moves a counter one step further: starting at `start`, the ID
/// handed out by the call after `n` calls is `advance(start, n)`, and the
/// counter then stands at `advance(start, n + 1)`.
pub proof fn lemma_advance_step(start: u64, n: nat)
    ensures
        (if advance(start, n) == u64::MAX {
            0
        } else {
            advance(start, n) + 1
        }) == advance(start, n + 1),
{
    let m: int = 0x1_0000_0000_0000_0000;
    let a: int = start as int + n;
    vstd::arithmetic::div_mod::lemma_add_mod_noop(a, 1, m);
    vstd::arithmetic::div_mod::lemma_small_mod(1, m as nat);
    vstd::arithmetic::div_mod::lemma_mod_bound(a, m);
    if a % m == m - 1 {
        vstd::arithmetic::div_mod::lemma_mod_self_0(m);
    } else {
        vstd::arithmetic::div_mod::lemma_small_mod((a % m + 1) as nat, m as nat);
    }
}

/// Each record gets a unique ID: a counter hands out no ID twice before it
/// has handed out 2^64 of them.
pub proof fn lemma_record_ids_unique(start: u64, i: nat, j: nat)
    requires
        i < j < 0x1_0000_0000_0000_0000,
    ensures
        advance(start, i) != advance(start, j),
{
    let m: int = 0x1_0000_0000_0000_0000;
    let a: int = start as int + i;
    let b: int = start as int + j;
    vstd::arithmetic::div_mod::lemma_mod_bound(a, m);
    vstd::arithmetic::div_mod::lemma_mod_bound(b, m);
    if a % m == b % m {
        vstd::arithmetic::div_mod::lemma_fundamental_div_mod(a, m);
        vstd::arithmetic::div_mod::lemma_fundamental_div_mod(b, m);
        assert(m * (b / m) - m * (a / m) == b - a);
        vstd::arithmetic::mul::lemma_mul_is_distributive_sub(m, b / m, a / m);
        assert(m * (b / m - a / m) == b - a);
        assert(0 < b - a < m);
        if b / m - a / m >= 1 {
            vstd::arithmetic::mul::lemma_mul_inequality(1, b / m - a / m, m);
            vstd::arithmetic::mul::lemma_mul_is_commutative(m, b / m - a / m);
        } else {
            vstd::arithmetic::mul::lemma_mul_inequality(b / m - a / m, 0, m);
            vstd::arithmetic::mul::lemma_mul_is_commutative(m, b / m - a / m);
        }
    }
}

/// The term of a row of an SQL term table, from its optional headword and
/// reading columns; fails if neither normalizes to something.
pub fn row_term(headword: Option<String>, reading: Option<String>) -> (r: Result<Term, NoHeadwordOrReading>)
    ensures
        match r {
            Ok(t) => t.headword_of() == crate::term::TermPart::part(headword) && t.reading_of()
                == crate::term::TermPart::part(reading) && (t.headword_of() is Some || t.reading_of() is Some),
            Err(_) => crate::term::TermPart::part(headword) is None && crate::term::TermPart::part(reading) is None,
        },
{
    match Term::new(headword, reading) {
        Some(t) => Ok(t),
        None => Err(NoHeadwordOrReading),
    }
}

} // verus!
