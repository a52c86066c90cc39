//! Batching of rows into multi-row `INSERT` statements.
//!
//! SQLite caps the number of values bound to one statement; rows are
//! gathered here and handed back, batch by batch, for the statement that
//! writes them.

use vstd::prelude::*;

use crate::dictionary::yomitan::FrequencyMode;
use crate::import::yomitan::{
    meta_import_ok, term_meta_records, FrequencyValue, MetaRecord, NoHeadwordOrReading, TermMetaEntry,
};
use crate::record::{DictionaryId, RecordKind};
use crate::term::{opt_view, NormString, Term};

verus! {

/// Most values one statement may bind.
pub const BIND_LIMIT: usize = 32766;

/// Values bound for each row of a record or frequency insert.
pub const ROW_BINDS: usize = 5;

/// The character sequence of an optional string.
pub open spec fn opt_string_view(o: Option<String>) -> Option<Seq<char>> {
    match o {
        Some(s) => Some(s@),
        None => None,
    }
}

fn opt_inner(o: Option<NormString>) -> (r: Option<String>)
    ensures
        opt_string_view(r) == opt_view(o),
{
    match o {
        Some(n) => Some(n.into_inner()),
        None => None,
    }
}

/// One row of the `record` table.
#[derive(Debug)]
pub struct RecordRow {
    pub source: u64,
    pub headword: Option<String>,
    pub reading: Option<String>,
    pub kind: RecordKind,
    pub data: Vec<u8>,
}

/// The row that stores a record of `kind`, serialized as `data`, for
/// `term` in dictionary `source`.
pub fn record_row(source: DictionaryId, term: Term, kind: RecordKind, data: Vec<u8>) -> (r:
    RecordRow)
    ensures
        r.source == source.0,
        opt_string_view(r.headword) == term.headword_of(),
        opt_string_view(r.reading) == term.reading_of(),
        r.kind == kind,
        r.data@ == data@,
{
    let (headword, reading) = term.into_parts();
    RecordRow { source: source.0, headword: opt_inner(headword), reading: opt_inner(reading), kind, data }
}

/// The `mode` and `value` columns of a frequency: mode 0 for a rank, 1 for
/// an occurrence count.
pub open spec fn frequency_columns_of(f: FrequencyValue) -> (i64, i64) {
    match f {
        FrequencyValue::Rank(n) => (0, n),
        FrequencyValue::Occurrence(n) => (1, n),
    }
}

/// See [`frequency_columns_of`].
pub fn frequency_columns(f: FrequencyValue) -> (r: (i64, i64))
    ensures
        r == frequency_columns_of(f),
{
    match f {
        FrequencyValue::Rank(n) => (0, n),
        FrequencyValue::Occurrence(n) => (1, n),
    }
}

/// One row of the `frequency` table.
#[derive(Debug)]
pub struct FrequencyRow {
    pub source: u64,
    pub headword: Option<String>,
    pub reading: Option<String>,
    pub mode: i64,
    pub value: i64,
}

/// The row that stores `frequency` for `term` in dictionary `source`.
pub fn frequency_row(source: DictionaryId, term: Term, frequency: FrequencyValue) -> (r:
    FrequencyRow)
    ensures
        r.source == source.0,
        opt_string_view(r.headword) == term.headword_of(),
        opt_string_view(r.reading) == term.reading_of(),
        (r.mode, r.value) == frequency_columns_of(frequency),
{
    let (mode, value) = frequency_columns(frequency);
    let (headword, reading) = term.into_parts();
    FrequencyRow {
        source: source.0,
        headword: opt_inner(headword),
        reading: opt_inner(reading),
        mode,
        value,
    }
}

/// The view of a frequency row: source, headword, reading, mode and value.
pub open spec fn frequency_row_view(r: FrequencyRow) -> (u64, Option<Seq<char>>, Option<Seq<char>>, i64, i64) {
    (r.source, opt_string_view(r.headword), opt_string_view(r.reading), r.mode, r.value)
}

/// The frequency rows to write for the records made of term metadata, in
/// order: one for each frequency record that has a value, for its term, and
/// none for a frequency record without a value or for a pitch record.
pub open spec fn frequency_rows_of(source: DictionaryId, recs: Seq<(Term, MetaRecord)>) -> Seq<
    (u64, Option<Seq<char>>, Option<Seq<char>>, i64, i64),
>
    decreases recs.len(),
{
    if recs.len() == 0 {
        Seq::empty()
    } else {
        let rest = frequency_rows_of(source, recs.drop_last());
        let (t, rec) = recs.last();
        match rec {
            MetaRecord::Frequency(fr) => match fr.value {
                Some(v) => rest.push(
                    (
                        source.0,
                        t.headword_of(),
                        t.reading_of(),
                        frequency_columns_of(v).0,
                        frequency_columns_of(v).1,
                    ),
                ),
                None => rest,
            },
            MetaRecord::Pitch(_) => rest,
        }
    }
}

/// The frequency rows to write for the records of a term-meta entry (see
/// [`frequency_rows_of`]): a frequency row is written exactly when a
/// frequency record has a value.
pub fn frequency_rows(source: DictionaryId, recs: &Vec<(Term, MetaRecord)>) -> (r: Vec<FrequencyRow>)
    ensures
        r@.map_values(|x: FrequencyRow| frequency_row_view(x)) == frequency_rows_of(source, recs@),
{
    let mut out: Vec<FrequencyRow> = Vec::new();
    let mut i: usize = 0;
    while i < recs.len()
        invariant
            i <= recs@.len(),
            out@.map_values(|x: FrequencyRow| frequency_row_view(x)) == frequency_rows_of(
                source,
                recs@.take(i as int),
            ),
        decreases recs@.len() - i,
    {
        let ghost before = out@;
        let ghost t = recs@.take(i as int + 1);
        proof {
            assert(t.drop_last() =~= recs@.take(i as int));
            assert(t.last() == recs@[i as int]);
        }
        match &recs[i].1 {
            MetaRecord::Frequency(fr) => match fr.value {
                Some(v) => {
                    let row = frequency_row(source, recs[i].0.clone(), v);
                    out.push(row);
                    proof {
                        assert(out@.map_values(|x: FrequencyRow| frequency_row_view(x)) =~= before.map_values(
                            |x: FrequencyRow| frequency_row_view(x),
                        ).push(frequency_row_view(row)));
                    }
                },
                None => {},
            },
            MetaRecord::Pitch(_) => {},
        }
        i = i + 1;
    }
    proof {
        assert(recs@.take(recs@.len() as int) =~= recs@);
    }
    out
}

/// What importing a term-meta entry of dictionary `source` writes: its
/// records with their terms (see [`term_meta_records`]), and the frequency
/// rows of those records (see [`frequency_rows_of`]); an error when the
/// entry gives no term.
pub fn term_meta_rows(source: DictionaryId, mode: Option<FrequencyMode>, meta: TermMetaEntry) -> (r:
    Result<(Vec<(Term, MetaRecord)>, Vec<FrequencyRow>), NoHeadwordOrReading>)
    ensures
        meta_import_ok(
            mode,
            meta,
            match r {
                Ok((recs, _)) => Ok(recs),
                Err(e) => Err(e),
            },
        ),
        r matches Ok((recs, rows)) ==> rows@.map_values(|x: FrequencyRow| frequency_row_view(x))
            == frequency_rows_of(source, recs@),
{
    match term_meta_records(mode, meta) {
        Ok(recs) => {
            let rows = frequency_rows(source, &recs);
            Ok((recs, rows))
        },
        Err(e) => Err(e),
    }
}

/// Rows gathered for one multi-row statement.
pub struct Insert<T> {
    rows: Vec<T>,
}

impl<T> Insert<T> {
    /// The rows gathered and not yet handed out.
    pub closed spec fn pending(&self) -> Seq<T> {
        self.rows@
    }

    /// Whether the gathered rows fit in one statement.
    pub open spec fn wf(&self) -> bool {
        ROW_BINDS * self.pending().len() < BIND_LIMIT
    }

    /// An empty batch.
    pub fn new() -> (r: Insert<T>)
        ensures
            r.pending() == Seq::<T>::empty(),
            r.wf(),
    {
        Insert { rows: Vec::new() }
    }

    /// Values the gathered rows bind.
    pub fn binds(&self) -> (r: usize)
        requires
            self.wf(),
        ensures
            r == ROW_BINDS * self.pending().len(),
    {
        ROW_BINDS * self.rows.len()
    }

    /// Hands out the gathered rows, if there are any, for one statement.
    pub fn flush(&mut self) -> (batch: Option<Vec<T>>)
        ensures
            old(self).pending().len() == 0 ==> batch is None && final(self).pending()
                == old(self).pending(),
            old(self).pending().len() > 0 ==> (batch matches Some(b) && b@ == old(
                self,
            ).pending() && final(self).pending() == Seq::<T>::empty()),
            final(self).wf(),
    {
        if self.rows.len() == 0 {
            return None;
        }
        let mut rows = Vec::new();
        std::mem::swap(&mut rows, &mut self.rows);
        Some(rows)
    }

    /// Adds a row. Where the row would take the statement to the bind
    /// limit, the rows gathered before it are first handed out, to be
    /// written by a statement of their own (see [`insert_outcome`]).
    pub fn insert(&mut self, row: T) -> (flushed: Option<Vec<T>>)
        requires
            old(self).wf(),
        ensures
            (match flushed {
                Some(b) => Some(b@),
                None => None,
            }, final(self).pending()) == insert_outcome(old(self).pending(), row),
            final(self).wf(),
    {
        let mut flushed: Option<Vec<T>> = None;
        if ROW_BINDS * self.rows.len() + ROW_BINDS >= BIND_LIMIT {
            flushed = self.flush();
        }
        self.rows.push(row);
        flushed
    }
}

/// What adding `row` to the gathered rows `before` hands out and keeps: when
/// the row would take the statement to the bind limit, `before` is handed
/// out and the row alone is kept; otherwise nothing is handed out and the
/// row is kept behind `before`.
pub open spec fn insert_outcome<T>(before: Seq<T>, row: T) -> (Option<Seq<T>>, Seq<T>) {
    if ROW_BINDS * (before.len() + 1) >= BIND_LIMIT {
        (Some(before), seq![row])
    } else {
        (None, before.push(row))
    }
}

/// No row is lost, duplicated or reordered by an insert: what is handed
/// out, followed by what stays gathered, is what was gathered before with
/// the new row behind it; and both a batch handed out and what stays
/// gathered bind fewer values than the limit.
pub proof fn insert_keeps_rows<T>(before: Seq<T>, row: T)
    requires
        ROW_BINDS * before.len() < BIND_LIMIT,
    ensures
        ({
            let (flushed, after) = insert_outcome(before, row);
            &&& ROW_BINDS * after.len() < BIND_LIMIT
            &&& match flushed {
                Some(b) => b + after == before.push(row) && ROW_BINDS * b.len() < BIND_LIMIT,
                None => after == before.push(row),
            }
        }),
{
    if ROW_BINDS * (before.len() + 1) >= BIND_LIMIT {
        assert(before + seq![row] =~= before.push(row));
    }
}

} // verus!
