//! Dictionary import: deciding an archive's format, and the per-format record
//! conversions.

pub mod yomitan;
pub mod yomichan_audio;
pub mod insert;

use vstd::prelude::*;

use crate::record::DictionaryId;
use crate::term::{DictionaryKind, DictionaryMeta};
use crate::text::push_str;

verus! {

/// Why an archive's dictionary kind could not be determined.
#[derive(Debug)]
pub enum GetKindError {
    /// No importer accepted the archive; each importer's reason is given.
    NoFormat(Vec<(DictionaryKind, String)>),
    /// More than one importer accepted the archive.
    MultipleFormats(Vec<DictionaryKind>),
}

/// The name a dictionary kind is shown with.
pub open spec fn kind_name(k: DictionaryKind) -> Seq<char> {
    match k {
        DictionaryKind::Yomitan => "Yomitan"@,
        DictionaryKind::YomichanAudio => "YomichanAudio"@,
    }
}

fn kind_str(k: DictionaryKind) -> (r: &'static str)
    ensures
        r@ == kind_name(k),
{
    match k {
        DictionaryKind::Yomitan => "Yomitan",
        DictionaryKind::YomichanAudio => "YomichanAudio",
    }
}

/// The line that says why an archive is not of kind `k`.
pub open spec fn error_line(k: DictionaryKind, reason: Seq<char>) -> Seq<char> {
    "does not represent a `"@ + kind_name(k) + "` dictionary: "@ + reason + "\n"@
}

/// The lines of each kind's reason, separated by blank lines.
pub open spec fn error_lines(errs: Seq<(DictionaryKind, Seq<char>)>) -> Seq<char>
    decreases errs.len(),
{
    if errs.len() == 0 {
        Seq::empty()
    } else if errs.len() == 1 {
        error_line(errs[0].0, errs[0].1)
    } else {
        error_lines(errs.drop_last()) + "\n"@ + error_line(errs.last().0, errs.last().1)
    }
}

/// The names of kinds in brackets, separated by commas.
pub open spec fn kind_list(ks: Seq<DictionaryKind>) -> Seq<char> {
    "["@ + kind_names(ks) + "]"@
}

/// The names of kinds, separated by `, `.
pub open spec fn kind_names(ks: Seq<DictionaryKind>) -> Seq<char>
    decreases ks.len(),
{
    if ks.len() == 0 {
        Seq::empty()
    } else if ks.len() == 1 {
        kind_name(ks[0])
    } else {
        kind_names(ks.drop_last()) + ", "@ + kind_name(ks.last())
    }
}

/// The reasons given with [`GetKindError::NoFormat`].
pub open spec fn reasons_view(errs: Seq<(DictionaryKind, String)>) -> Seq<(DictionaryKind, Seq<char>)> {
    errs.map_values(|p: (DictionaryKind, String)| (p.0, p.1@))
}

/// The text of an error: for `NoFormat`, a first line and then each kind's
/// reason; for `MultipleFormats`, the kinds that accepted the archive.
pub open spec fn get_kind_message(e: GetKindError) -> Seq<char> {
    match e {
        GetKindError::NoFormat(errs) => "archive does not represent a valid dictionary kind\n"@
            + error_lines(reasons_view(errs@)),
        GetKindError::MultipleFormats(kinds) => "archive represents multiple dictionary kinds: "@
            + kind_list(kinds@),
    }
}

impl GetKindError {
    /// The text of this error (see [`get_kind_message`]).
    pub fn message(&self) -> (r: String)
        ensures
            r@ == get_kind_message(*self),
    {
        let mut out = String::new();
        match self {
            GetKindError::NoFormat(errs) => {
                push_str(&mut out, "archive does not represent a valid dictionary kind\n");
                let ghost head = out@;
                let ghost ev = reasons_view(errs@);
                let mut i: usize = 0;
                proof {
                    assert(out@ =~= head + error_lines(ev.take(0)));
                }
                while i < errs.len()
                    invariant
                        i <= errs@.len(),
                        ev == reasons_view(errs@),
                        out@ == head + error_lines(ev.take(i as int)),
                    decreases errs@.len() - i,
                {
                    if i > 0 {
                        push_str(&mut out, "\n");
                    }
                    push_str(&mut out, "does not represent a `");
                    push_str(&mut out, kind_str(errs[i].0));
                    push_str(&mut out, "` dictionary: ");
                    push_str(&mut out, errs[i].1.as_str());
                    push_str(&mut out, "\n");
                    proof {
                        let t = ev.take(i as int + 1);
                        assert(t.drop_last() =~= ev.take(i as int));
                        assert(t.last() == (errs@[i as int].0, errs@[i as int].1@));
                        if i == 0 {
                            assert(t.len() == 1);
                            assert(error_lines(ev.take(0)) =~= Seq::<char>::empty());
                        }
                        assert(out@ =~= head + error_lines(t));
                    }
                    i = i + 1;
                }
                proof {
                    assert(ev.take(errs@.len() as int) =~= ev);
                }
            },
            GetKindError::MultipleFormats(kinds) => {
                push_str(&mut out, "archive represents multiple dictionary kinds: [");
                let ghost head = out@;
                let mut i: usize = 0;
                proof {
                    assert(out@ =~= head + kind_names(kinds@.take(0)));
                }
                while i < kinds.len()
                    invariant
                        i <= kinds@.len(),
                        out@ == head + kind_names(kinds@.take(i as int)),
                    decreases kinds@.len() - i,
                {
                    if i > 0 {
                        push_str(&mut out, ", ");
                    }
                    push_str(&mut out, kind_str(kinds[i]));
                    proof {
                        let t = kinds@.take(i as int + 1);
                        assert(t.drop_last() =~= kinds@.take(i as int));
                        if i == 0 {
                            assert(t.len() == 1);
                        }
                        assert(out@ =~= head + kind_names(t));
                    }
                    i = i + 1;
                }
                push_str(&mut out, "]");
                proof {
                    reveal_strlit("archive represents multiple dictionary kinds: [");
                    reveal_strlit("archive represents multiple dictionary kinds: ");
                    reveal_strlit("[");
                    reveal_strlit("]");
                    assert(kinds@.take(kinds@.len() as int) =~= kinds@);
                    assert(out@ =~= get_kind_message(*self));
                }
            },
        }
        out
    }
}

/// The kinds whose check succeeded, in order.
pub open spec fn accepted(results: Seq<(DictionaryKind, Result<(), String>)>) -> Seq<DictionaryKind>
    decreases results.len(),
{
    if results.len() == 0 {
        Seq::empty()
    } else {
        let rest = accepted(results.drop_last());
        match results.last().1 {
            Ok(()) => rest.push(results.last().0),
            Err(_) => rest,
        }
    }
}

/// The kinds whose check failed, with their reasons, in order.
pub open spec fn rejected(results: Seq<(DictionaryKind, Result<(), String>)>) -> Seq<(DictionaryKind, Seq<char>)>
    decreases results.len(),
{
    if results.len() == 0 {
        Seq::empty()
    } else {
        let rest = rejected(results.drop_last());
        match results.last().1 {
            Ok(()) => rest,
            Err(e) => rest.push((results.last().0, e@)),
        }
    }
}

/// Decides an archive's kind from each importer's check: the one kind that
/// accepted it; `NoFormat` with every reason when none did; or
/// `MultipleFormats` with the accepting kinds when several did.
pub fn decide_kind(results: Vec<(DictionaryKind, Result<(), String>)>) -> (r: Result<
    DictionaryKind,
    GetKindError,
>)
    ensures
        accepted(results@).len() == 1 ==> r == Ok::<DictionaryKind, GetKindError>(accepted(results@)[0]),
        accepted(results@).len() == 0 ==> (r matches Err(GetKindError::NoFormat(errs)) && errs@.map_values(
            |p: (DictionaryKind, String)| (p.0, p.1@),
        ) == rejected(results@)),
        accepted(results@).len() > 1 ==> (r matches Err(GetKindError::MultipleFormats(kinds)) && kinds@
            == accepted(results@)),
{
    let mut valid: Vec<DictionaryKind> = Vec::new();
    let mut errors: Vec<(DictionaryKind, String)> = Vec::new();
    let mut rest = results;
    let ghost all = rest@;
    let n = rest.len();
    let mut i: usize = 0;
    proof {
        assert(errors@.map_values(|p: (DictionaryKind, String)| (p.0, p.1@)) =~= rejected(all.take(0)));
    }
    while i < n
        invariant
            n == all.len(),
            i <= n,
            rest@ == all.skip(i as int),
            valid@ == accepted(all.take(i as int)),
            errors@.map_values(|p: (DictionaryKind, String)| (p.0, p.1@)) == rejected(all.take(i as int)),
        decreases n - i,
    {
        let (kind, result) = rest.remove(0);
        let ghost before = errors@;
        proof {
            assert((kind, result) == all[i as int]);
            assert(rest@ =~= all.skip(i as int + 1));
            let t = all.take(i as int + 1);
            assert(t.drop_last() =~= all.take(i as int));
            assert(t.last() == all[i as int]);
        }
        match result {
            Ok(()) => valid.push(kind),
            Err(e) => {
                let ghost ev = e@;
                errors.push((kind, e));
                proof {
                    assert(errors@.map_values(|p: (DictionaryKind, String)| (p.0, p.1@)) =~= before.map_values(
                        |p: (DictionaryKind, String)| (p.0, p.1@),
                    ).push((kind, ev)));
                }
            },
        }
        i = i + 1;
    }
    proof {
        assert(all.take(n as int) =~= all);
    }
    if valid.len() == 0 {
        Err(GetKindError::NoFormat(errors))
    } else if valid.len() == 1 {
        Ok(valid[0])
    } else {
        Err(GetKindError::MultipleFormats(valid))
    }
}

/// The importer of a dictionary kind.
#[derive(Debug, Clone, Copy, PartialEq, Eq, Structural)]
pub enum Importer {
    Yomitan,
    YomichanAudio,
}

/// The importer of each kind: every kind has one.
pub fn importer_for(kind: DictionaryKind) -> (r: Option<Importer>)
    ensures
        r == Some(match kind {
            DictionaryKind::Yomitan => Importer::Yomitan,
            DictionaryKind::YomichanAudio => Importer::YomichanAudio,
        }),
{
    match kind {
        DictionaryKind::Yomitan => Some(Importer::Yomitan),
        DictionaryKind::YomichanAudio => Some(Importer::YomichanAudio),
    }
}

/// Why an import failed.
#[derive(Debug)]
pub enum ImportError {
    /// The archive's kind could not be determined.
    GetKind(GetKindError),
    /// No importer handles the kind.
    NoImporter { kind: DictionaryKind },
    /// The archive's metadata could not be read.
    ParseMeta { kind: DictionaryKind, source: String },
    /// A dictionary of this name already exists.
    AlreadyExists,
    /// Importing the records failed.
    Import { kind: DictionaryKind, source: String },
    /// The steps of the import came in an order that cannot happen.
    OutOfOrder,
}

/// Where an import stands.
#[derive(Debug, Clone, Copy, PartialEq, Eq, Structural)]
pub enum ImportState {
    /// Waiting for the archive's kind.
    Start,
    /// The kind is known; waiting for the archive's metadata.
    KindKnown(DictionaryKind),
    /// The metadata is known; waiting to learn if the name is taken.
    MetaParsed(DictionaryKind),
    /// Records are being imported.
    Importing(DictionaryKind),
    /// The dictionary was imported.
    Done(DictionaryId),
    /// The import failed.
    Failed,
}

/// What has just happened in an import.
#[derive(Debug)]
pub enum ImportStep {
    /// The archive's kind was determined, or could not be.
    Kind(Result<DictionaryKind, GetKindError>),
    /// The importer read the archive's metadata, or failed to.
    Meta(Result<DictionaryMeta, String>),
    /// Whether a dictionary of that name already exists.
    NameTaken(bool),
    /// The records were imported, or failed to be.
    Finished(Result<DictionaryId, String>),
}

/// What to do next in an import.
#[derive(Debug)]
pub enum ImportAction {
    /// Report the kind, and start the importer to read the metadata.
    StartImport { kind: DictionaryKind, importer: Importer },
    /// Report the metadata, and check whether its name is taken.
    CheckName { meta: DictionaryMeta },
    /// Import the records, reporting progress.
    ImportRecords,
    /// Refresh the list of dictionaries, and report the new one.
    Done(DictionaryId),
    /// Stop with an error.
    Fail(ImportError),
}

/// The next state of an import, and what to do, after `step`.
pub fn import_step(state: ImportState, step: ImportStep) -> (r: (ImportState, ImportAction))
    ensures
        match (state, step) {
            (ImportState::Start, ImportStep::Kind(Ok(kind))) => r.0 == ImportState::KindKnown(kind)
                && (r.1 matches ImportAction::StartImport { kind: k, importer: i } && k == kind && Some(i)
                == Some(match kind {
                DictionaryKind::Yomitan => Importer::Yomitan,
                DictionaryKind::YomichanAudio => Importer::YomichanAudio,
            })),
            (ImportState::Start, ImportStep::Kind(Err(e))) => r.0 == ImportState::Failed
                && (r.1 matches ImportAction::Fail(ImportError::GetKind(x)) && x == e),
            (ImportState::KindKnown(kind), ImportStep::Meta(Ok(meta))) => r.0 == ImportState::MetaParsed(kind)
                && (r.1 matches ImportAction::CheckName { meta: m } && m == meta),
            (ImportState::KindKnown(kind), ImportStep::Meta(Err(e))) => r.0 == ImportState::Failed
                && (r.1 matches ImportAction::Fail(ImportError::ParseMeta { kind: k, source: s }) && k == kind
                && s == e),
            (ImportState::MetaParsed(kind), ImportStep::NameTaken(true)) => r.0 == ImportState::Failed
                && (r.1 matches ImportAction::Fail(ImportError::AlreadyExists)),
            (ImportState::MetaParsed(kind), ImportStep::NameTaken(false)) => r.0 == ImportState::Importing(kind)
                && (r.1 matches ImportAction::ImportRecords),
            (ImportState::Importing(kind), ImportStep::Finished(Ok(id))) => r.0 == ImportState::Done(id)
                && (r.1 matches ImportAction::Done(i) && i == id),
            (ImportState::Importing(kind), ImportStep::Finished(Err(e))) => r.0 == ImportState::Failed
                && (r.1 matches ImportAction::Fail(ImportError::Import { kind: k, source: s }) && k == kind
                && s == e),
            _ => r.0 == ImportState::Failed && (r.1 matches ImportAction::Fail(ImportError::OutOfOrder)),
        },
{
    match (state, step) {
        (ImportState::Start, ImportStep::Kind(Ok(kind))) => match importer_for(kind) {
            Some(importer) => (ImportState::KindKnown(kind), ImportAction::StartImport { kind, importer }),
            None => (ImportState::Failed, ImportAction::Fail(ImportError::NoImporter { kind })),
        },
        (ImportState::Start, ImportStep::Kind(Err(e))) => (
            ImportState::Failed,
            ImportAction::Fail(ImportError::GetKind(e)),
        ),
        (ImportState::KindKnown(kind), ImportStep::Meta(Ok(meta))) => (
            ImportState::MetaParsed(kind),
            ImportAction::CheckName { meta },
        ),
        (ImportState::KindKnown(kind), ImportStep::Meta(Err(source))) => (
            ImportState::Failed,
            ImportAction::Fail(ImportError::ParseMeta { kind, source }),
        ),
        (ImportState::MetaParsed(_), ImportStep::NameTaken(true)) => (
            ImportState::Failed,
            ImportAction::Fail(ImportError::AlreadyExists),
        ),
        (ImportState::MetaParsed(kind), ImportStep::NameTaken(false)) => (
            ImportState::Importing(kind),
            ImportAction::ImportRecords,
        ),
        (ImportState::Importing(_), ImportStep::Finished(Ok(id))) => (ImportState::Done(id), ImportAction::Done(id)),
        (ImportState::Importing(kind), ImportStep::Finished(Err(source))) => (
            ImportState::Failed,
            ImportAction::Fail(ImportError::Import { kind, source }),
        ),
        _ => (ImportState::Failed, ImportAction::Fail(ImportError::OutOfOrder)),
    }
}

} // verus!
