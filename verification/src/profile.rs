//! Profiles: user settings that can be switched between, read back from the
//! rows of a database query that joins each profile with its enabled
//! dictionaries.

use vstd::prelude::*;

use crate::record::DictionaryId;
use crate::term::{normalized, opt_view, NormString};

verus! {

/// Identifier of a profile.
#[derive(Debug, Clone, Copy, PartialEq, Eq, Hash, Structural)]
pub struct ProfileId(pub i64);

/// A collection of user settings.
#[derive(Debug, Clone)]
pub struct Profile {
    pub id: ProfileId,
    /// The name; the default profile has none.
    pub name: Option<NormString>,
    /// The dictionary whose frequencies sort records.
    pub sorting_dictionary: Option<DictionaryId>,
    pub font_family: Option<String>,
    pub anki_deck: Option<String>,
    pub anki_note_type: Option<String>,
    /// The dictionaries used for lookups under this profile, in order.
    pub enabled_dictionaries: Vec<DictionaryId>,
}

impl Profile {
    /// A profile with nothing set.
    pub fn new(id: ProfileId) -> (r: Profile)
        ensures
            r.id == id,
            r.name is None,
            r.sorting_dictionary is None,
            r.font_family is None,
            r.anki_deck is None,
            r.anki_note_type is None,
            r.enabled_dictionaries@.len() == 0,
    {
        Profile {
            id,
            name: None,
            sorting_dictionary: None,
            font_family: None,
            anki_deck: None,
            anki_note_type: None,
            enabled_dictionaries: Vec::new(),
        }
    }
}

/// One row of the profiles query: a profile's settings, and one of its
/// enabled dictionaries if it has any.
#[derive(Debug, Clone)]
pub struct ProfileRow {
    pub id: ProfileId,
    pub name: Option<String>,
    pub sorting_dictionary: Option<DictionaryId>,
    pub font_family: Option<String>,
    pub anki_deck: Option<String>,
    pub anki_note_type: Option<String>,
    pub dictionary: Option<DictionaryId>,
}

/// The characters of an optional string.
pub open spec fn ostr(o: Option<String>) -> Option<Seq<char>> {
    match o {
        Some(s) => Some(s@),
        None => None,
    }
}

/// Whether some row at one of `idxs` has ID `id`.
pub open spec fn id_seen(rows: Seq<ProfileRow>, idxs: Seq<int>, id: ProfileId) -> bool {
    exists|j: int| 0 <= j < idxs.len() && (#[trigger] rows[idxs[j]]).id == id
}

/// The index of the first row of each distinct profile, in order.
pub open spec fn first_rows(rows: Seq<ProfileRow>) -> Seq<int>
    decreases rows.len(),
{
    if rows.len() == 0 {
        Seq::empty()
    } else {
        let rest = first_rows(rows.drop_last());
        if id_seen(rows, rest, rows.last().id) {
            rest
        } else {
            rest.push(rows.len() - 1)
        }
    }
}

/// The enabled dictionaries that the rows give profile `id`, in order.
pub open spec fn enabled_of(rows: Seq<ProfileRow>, id: ProfileId) -> Seq<DictionaryId>
    decreases rows.len(),
{
    if rows.len() == 0 {
        Seq::empty()
    } else {
        let rest = enabled_of(rows.drop_last(), id);
        match rows.last().dictionary {
            Some(d) => if rows.last().id == id {
                rest.push(d)
            } else {
                rest
            },
            None => rest,
        }
    }
}

/// Whether `p` is the profile that the rows give, with `first` its first
/// row: its settings from that row (the name normalized), and its enabled
/// dictionaries from all of its rows.
pub open spec fn profile_ok(p: Profile, rows: Seq<ProfileRow>, first: ProfileRow) -> bool {
    &&& p.id == first.id
    &&& opt_view(p.name) == match first.name {
        Some(n) => normalized(n@),
        None => None,
    }
    &&& p.sorting_dictionary == first.sorting_dictionary
    &&& ostr(p.font_family) == ostr(first.font_family)
    &&& ostr(p.anki_deck) == ostr(first.anki_deck)
    &&& ostr(p.anki_note_type) == ostr(first.anki_note_type)
    &&& p.enabled_dictionaries@ == enabled_of(rows, first.id)
}

proof fn lemma_first_rows_bound(rows: Seq<ProfileRow>)
    ensures
        forall|j: int| 0 <= j < first_rows(rows).len() ==> 0 <= #[trigger] first_rows(rows)[j] < rows.len(),
    decreases rows.len(),
{
    if rows.len() > 0 {
        lemma_first_rows_bound(rows.drop_last());
        let rest = first_rows(rows.drop_last());
        assert forall|j: int| 0 <= j < first_rows(rows).len() implies 0 <= #[trigger] first_rows(rows)[j] < rows.len() by {
            if j < rest.len() {
                assert(first_rows(rows)[j] == rest[j]);
            }
        }
    }
}

/// Each profile is built once: the first rows of two profiles have
/// different IDs, and come in the order the profiles first occur.
#[verifier::spinoff_prover]
pub proof fn lemma_first_rows_distinct(rows: Seq<ProfileRow>)
    ensures
        forall|a: int, b: int|
            0 <= a < b < first_rows(rows).len() ==> first_rows(rows)[a] < first_rows(rows)[b]
                && rows[#[trigger] first_rows(rows)[a]].id != rows[#[trigger] first_rows(rows)[b]].id,
    decreases rows.len(),
{
    if rows.len() > 0 {
        let d = rows.drop_last();
        let rest = first_rows(d);
        let f = first_rows(rows);
        let last = rows.len() - 1;
        lemma_first_rows_distinct(d);
        lemma_first_rows_bound(d);
        if !id_seen(rows, rest, rows.last().id) {
            assert(f == rest.push(last));
        } else {
            assert(f == rest);
        }
        assert forall|a: int, b: int| 0 <= a < b < f.len() implies f[a] < f[b] && rows[
            #[trigger] f[a]
        ].id != rows[#[trigger] f[b]].id by {
            assert(f[a] == rest[a]);
            assert(0 <= rest[a] < d.len());
            assert(rows[rest[a]] == d[rest[a]]);
            if b < rest.len() {
                assert(f[b] == rest[b]);
                assert(0 <= rest[b] < d.len());
                assert(rows[rest[b]] == d[rest[b]]);
            } else {
                assert(f[b] == last);
                if rows[f[a]].id == rows[f[b]].id {
                    assert(id_seen(rows, rest, rows.last().id));
                }
            }
        }
    }
}

/// The profile of row `k`: one whose first row is at or before `k` and has
/// the same ID.
proof fn profile_of_row(rows: Seq<ProfileRow>, k: int) -> (g: int)
    requires
        0 <= k < rows.len(),
    ensures
        0 <= g < first_rows(rows).len(),
        first_rows(rows)[g] <= k,
        rows[first_rows(rows)[g]].id == rows[k].id,
    decreases rows.len(),
{
    let d = rows.drop_last();
    let rest = first_rows(d);
    let last = rows.len() - 1;
    lemma_first_rows_bound(d);
    if k < last {
        let g = profile_of_row(d, k);
        assert(0 <= rest[g] < d.len());
        assert(rows[rest[g]] == d[rest[g]]);
        assert(d[k] == rows[k]);
        if id_seen(rows, rest, rows.last().id) {
            assert(first_rows(rows) == rest);
        } else {
            assert(first_rows(rows) == rest.push(last));
            assert(first_rows(rows)[g] == rest[g]);
        }
        g
    } else if id_seen(rows, rest, rows.last().id) {
        let j = choose|j: int| 0 <= j < rest.len() && (#[trigger] rows[rest[j]]).id == rows.last().id;
        assert(first_rows(rows) == rest);
        assert(0 <= rest[j] < d.len());
        j
    } else {
        assert(first_rows(rows) == rest.push(last));
        rest.len() as int
    }
}

/// Every row belongs to a built profile: the profile with its ID, whose first
/// row is at or before it.
pub proof fn lemma_first_rows_cover(rows: Seq<ProfileRow>)
    ensures
        forall|k: int|
            0 <= k < rows.len() ==> exists|g: int|
                0 <= g < first_rows(rows).len() && first_rows(rows)[g] <= k && (#[trigger] rows[
                    first_rows(rows)[g]
                ]).id == (#[trigger] rows[k]).id,
{
    assert forall|k: int| 0 <= k < rows.len() implies exists|g: int|
        0 <= g < first_rows(rows).len() && first_rows(rows)[g] <= k && (#[trigger] rows[
            first_rows(rows)[g]
        ]).id == (#[trigger] rows[k]).id by {
        let g = profile_of_row(rows, k);
        assert(rows[first_rows(rows)[g]].id == rows[k].id);
    }
}

fn copy_opt(o: &Option<String>) -> (r: Option<String>)
    ensures
        ostr(r) == ostr(*o),
{
    match o {
        Some(s) => Some(s.clone()),
        None => None,
    }
}

/// The profile that the rows give for the row at `f` (see [`profile_ok`]).
fn profile_of(rows: &Vec<ProfileRow>, f: usize) -> (r: Profile)
    requires
        f < rows@.len(),
    ensures
        profile_ok(r, rows@, rows@[f as int]),
{
    let row = &rows[f];
    let name = match &row.name {
        Some(n) => NormString::new(n.as_str()),
        None => None,
    };
    let mut enabled: Vec<DictionaryId> = Vec::new();
    let mut i: usize = 0;
    while i < rows.len()
        invariant
            i <= rows@.len(),
            f < rows@.len(),
            enabled@ == enabled_of(rows@.take(i as int), rows@[f as int].id),
        decreases rows@.len() - i,
    {
        proof {
            let t = rows@.take(i as int + 1);
            assert(t.drop_last() =~= rows@.take(i as int));
            assert(t.last() == rows@[i as int]);
        }
        match rows[i].dictionary {
            Some(d) => {
                if rows[i].id.0 == rows[f].id.0 {
                    enabled.push(d);
                }
            },
            None => {},
        }
        i = i + 1;
    }
    proof {
        assert(rows@.take(rows@.len() as int) =~= rows@);
    }
    Profile {
        id: row.id,
        name,
        sorting_dictionary: row.sorting_dictionary,
        font_family: copy_opt(&row.font_family),
        anki_deck: copy_opt(&row.anki_deck),
        anki_note_type: copy_opt(&row.anki_note_type),
        enabled_dictionaries: enabled,
    }
}

/// The profiles that the rows of the profiles query give: one per distinct
/// ID, in the order IDs first occur, with its settings from its first row and
/// its enabled dictionaries from all of its rows.
pub fn profiles_from_rows(rows: &Vec<ProfileRow>) -> (r: Vec<Profile>)
    ensures
        r@.len() == first_rows(rows@).len(),
        forall|g: int| 0 <= g < r@.len() ==> profile_ok(#[trigger] r@[g], rows@, rows@[first_rows(rows@)[g]]),
{
    let mut firsts: Vec<usize> = Vec::new();
    let mut i: usize = 0;
    while i < rows.len()
        invariant
            i <= rows@.len(),
            firsts@.map_values(|x: usize| x as int) == first_rows(rows@.take(i as int)),
            forall|j: int| 0 <= j < firsts@.len() ==> #[trigger] firsts@[j] < i,
        decreases rows@.len() - i,
    {
        let ghost t1 = rows@.take(i as int + 1);
        let ghost idx = firsts@.map_values(|x: usize| x as int);
        proof {
            assert(t1.drop_last() =~= rows@.take(i as int));
            assert(t1.last() == rows@[i as int]);
        }
        let mut found = false;
        let mut k: usize = 0;
        while k < firsts.len()
            invariant
                k <= firsts@.len(),
                i < rows@.len(),
                idx == firsts@.map_values(|x: usize| x as int),
                forall|j: int| 0 <= j < firsts@.len() ==> #[trigger] firsts@[j] < i,
                t1 == rows@.take(i as int + 1),
                found == (exists|j: int| 0 <= j < k && (#[trigger] t1[idx[j]]).id == rows@[i as int].id),
            decreases firsts@.len() - k,
        {
            let f = firsts[k];
            proof {
                assert(idx[k as int] == f as int);
                assert(t1[f as int] == rows@[f as int]);
            }
            if rows[f].id.0 == rows[i].id.0 {
                found = true;
            }
            k = k + 1;
        }
        proof {
            assert(id_seen(t1, idx, t1.last().id) == found);
        }
        if !found {
            firsts.push(i);
            proof {
                assert(firsts@.map_values(|x: usize| x as int) =~= idx.push(i as int));
            }
        }
        i = i + 1;
    }
    proof {
        assert(rows@.take(rows@.len() as int) =~= rows@);
        lemma_first_rows_bound(rows@);
    }
    let ghost fr = first_rows(rows@);
    let mut out: Vec<Profile> = Vec::new();
    let mut g: usize = 0;
    while g < firsts.len()
        invariant
            g <= firsts@.len(),
            fr == first_rows(rows@),
            firsts@.map_values(|x: usize| x as int) == fr,
            forall|j: int| 0 <= j < firsts@.len() ==> #[trigger] firsts@[j] < rows@.len(),
            out@.len() == g,
            forall|h: int| 0 <= h < g ==> profile_ok(#[trigger] out@[h], rows@, rows@[fr[h]]),
        decreases firsts@.len() - g,
    {
        let f = firsts[g];
        proof {
            assert(fr[g as int] == f as int);
        }
        out.push(profile_of(rows, f));
        g = g + 1;
    }
    out
}

/// What changed in a profile.
#[derive(Debug, Clone, Copy, PartialEq, Eq, Structural)]
pub enum ProfileEvent {
    Added { id: ProfileId },
    Copied { src_id: ProfileId, new_id: ProfileId },
    Removed { id: ProfileId },
    NameSet { id: ProfileId },
}

/// What changed in the dictionaries.
#[derive(Debug, Clone, Copy, PartialEq, Eq, Structural)]
pub enum DictionaryEvent {
    Added { id: DictionaryId },
    Removed { id: DictionaryId },
    PositionsSwapped { a_id: DictionaryId, b_id: DictionaryId },
    Enabled { profile_id: ProfileId, dictionary_id: DictionaryId },
    Disabled { profile_id: ProfileId, dictionary_id: DictionaryId },
}

/// Something that happened in the engine.
#[derive(Debug, Clone)]
pub enum EngineEvent {
    Profile(ProfileEvent),
    Dictionary(DictionaryEvent),
    FontFamilySet { profile_id: ProfileId },
    SortingDictionarySet { profile_id: ProfileId, dictionary_id: Option<DictionaryId> },
    AnkiDeckSet { profile_id: ProfileId },
    AnkiNoteTypeSet { profile_id: ProfileId },
    TexthookerConnected,
    TexthookerDisconnected,
    Sentence(crate::protocol::TexthookerSentence),
}

/// A profile or dictionary was not found.
#[derive(Debug, Clone, Copy, PartialEq, Eq)]
pub struct NotFound;

/// The outcome of removing a profile: an error if no row was deleted.
pub fn removed(rows_affected: u64) -> (r: Result<(), NotFound>)
    ensures
        r is Err <==> rows_affected == 0,
{
    if rows_affected == 0 {
        Err(NotFound)
    } else {
        Ok(())
    }
}

} // verus!
