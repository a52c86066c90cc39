//! Reverse indexes of a Yomichan local-audio archive: from the path of an
//! audio file to what is known of it (its terms and pitch).

use vstd::prelude::*;

use super::schema::{FileInfo, GenericIndex, Nhk16Accent, Nhk16Entry, Nhk16Index, Nhk16Pitch};
use crate::num::{parse_u64, parsed_u64};
use crate::term::{normalized, opt_view, NormString, Term};
use crate::text::str_eq;

verus! {

/// A map from audio file paths to what is known of each file; no path occurs
/// twice.
#[derive(Debug)]
pub struct RevIndex<Rev> {
    pub for_path: Vec<(String, Rev)>,
}

/// Whether no path occurs twice in `v`.
pub open spec fn keys_distinct<R>(v: Seq<(String, R)>) -> bool {
    forall|i: int, j: int| 0 <= i < j < v.len() ==> (#[trigger] v[i]).0@ != (#[trigger] v[j]).0@
}

/// Whether some entry of `v` has path `k`.
pub open spec fn has_key<R>(v: Seq<(String, R)>, k: Seq<char>) -> bool {
    exists|i: int| 0 <= i < v.len() && (#[trigger] v[i]).0@ == k
}

/// The index of the entry for `key`, added with `fresh` if there is none.
fn entry_index<R>(v: &mut Vec<(String, R)>, key: &str, fresh: R) -> (r: usize)
    requires
        keys_distinct(old(v)@),
    ensures
        keys_distinct(final(v)@),
        r < final(v)@.len(),
        final(v)@[r as int].0@ == key@,
        has_key(old(v)@, key@) ==> final(v)@ == old(v)@,
        !has_key(old(v)@, key@) ==> final(v)@ == old(v)@.push((final(v)@[r as int].0, fresh)),
{
    let mut i: usize = 0;
    while i < v.len()
        invariant
            i <= v@.len(),
            v@ == old(v)@,
            keys_distinct(old(v)@),
            forall|j: int| 0 <= j < i ==> (#[trigger] v@[j]).0@ != key@,
        decreases v@.len() - i,
    {
        if str_eq(v[i].0.as_str(), key) {
            return i;
        }
        i = i + 1;
    }
    let ghost before = v@;
    v.push((key.to_owned(), fresh));
    proof {
        assert forall|a: int, b: int| 0 <= a < b < v@.len() implies (#[trigger] v@[a]).0@ != (#[trigger] v@[b]).0@ by {
            if b == before.len() {
                assert(v@[a] == before[a]);
            } else {
                assert(v@[a] == before[a]);
                assert(v@[b] == before[b]);
            }
        }
    }
    i
}

/// What is known of a JapanesePod101 or Shin Meikai audio file: its term,
/// its pitch pattern and its pitch number.
#[derive(Debug, Clone, Default)]
pub struct GenericInfo {
    pub term: Option<Term>,
    pub pitch_pattern: Option<NormString>,
    pub pitch_number: Option<u64>,
}

/// The view of an optional term: its headword and its reading.
pub open spec fn term_view(t: Option<Term>) -> Option<(Option<Seq<char>>, Option<Seq<char>>)> {
    match t {
        Some(x) => Some((x.headword_of(), x.reading_of())),
        None => None,
    }
}

/// The view of what is known of a file.
pub open spec fn generic_view(i: GenericInfo) -> (
    Option<(Option<Seq<char>>, Option<Seq<char>>)>,
    Option<Seq<char>>,
    Option<u64>,
) {
    (term_view(i.term), opt_view(i.pitch_pattern), i.pitch_number)
}

/// The (headword, path) pairs of an index, in order.
pub open spec fn hw_pairs(hs: Seq<(String, Vec<String>)>) -> Seq<(Seq<char>, Seq<char>)>
    decreases hs.len(),
{
    if hs.len() == 0 {
        Seq::empty()
    } else {
        hw_pairs(hs.drop_last()) + hs.last().1@.map_values(|p: String| (hs.last().0@, p@))
    }
}

/// The normalized headword of the last pair for path `k` whose headword
/// normalizes to something.
pub open spec fn headword_for(ps: Seq<(Seq<char>, Seq<char>)>, k: Seq<char>) -> Option<Seq<char>>
    decreases ps.len(),
{
    if ps.len() == 0 {
        None
    } else if ps.last().1 == k && normalized(ps.last().0) is Some {
        normalized(ps.last().0)
    } else {
        headword_for(ps.drop_last(), k)
    }
}

/// The normalized reading of the last file entry for `k` that has one.
pub open spec fn reading_for(fs: Seq<(String, FileInfo)>, k: Seq<char>) -> Option<Seq<char>>
    decreases fs.len(),
{
    if fs.len() == 0 {
        None
    } else {
        let (p, info) = fs.last();
        match info.kana_reading {
            Some(r) => if p@ == k && normalized(r@) is Some {
                normalized(r@)
            } else {
                reading_for(fs.drop_last(), k)
            },
            None => reading_for(fs.drop_last(), k),
        }
    }
}

/// The normalized pitch pattern of the last file entry for `k` that has one.
pub open spec fn pattern_for(fs: Seq<(String, FileInfo)>, k: Seq<char>) -> Option<Seq<char>>
    decreases fs.len(),
{
    if fs.len() == 0 {
        None
    } else {
        let (p, info) = fs.last();
        match info.pitch_pattern {
            Some(r) => if p@ == k && normalized(r@) is Some {
                normalized(r@)
            } else {
                pattern_for(fs.drop_last(), k)
            },
            None => pattern_for(fs.drop_last(), k),
        }
    }
}

/// The pitch number of the last file entry for `k` whose pitch number is a
/// decimal `u64`.
pub open spec fn number_for(fs: Seq<(String, FileInfo)>, k: Seq<char>) -> Option<u64>
    decreases fs.len(),
{
    if fs.len() == 0 {
        None
    } else {
        let (p, info) = fs.last();
        match info.pitch_number {
            Some(r) => if p@ == k && parsed_u64(r@) is Some {
                parsed_u64(r@)
            } else {
                number_for(fs.drop_last(), k)
            },
            None => number_for(fs.drop_last(), k),
        }
    }
}

/// Whether some pair lists path `k` under a headword that normalizes to
/// something.
pub open spec fn listed(ps: Seq<(Seq<char>, Seq<char>)>, k: Seq<char>) -> bool {
    exists|i: int| 0 <= i < ps.len() && (#[trigger] ps[i]).1 == k && normalized(ps[i].0) is Some
}

/// Whether some file entry is for path `k`.
pub open spec fn has_file(fs: Seq<(String, FileInfo)>, k: Seq<char>) -> bool {
    exists|i: int| 0 <= i < fs.len() && (#[trigger] fs[i]).0@ == k
}

/// The term of a file from its headword and reading, if it has either.
pub open spec fn file_term(h: Option<Seq<char>>, r: Option<Seq<char>>) -> Option<(Option<Seq<char>>, Option<Seq<char>>)> {
    if h is None && r is None {
        None
    } else {
        Some((h, r))
    }
}

/// What is known of the file at path `k`: its term from the last headword
/// listing it and the last reading given for it, and the last pitch pattern
/// and pitch number given for it.
pub open spec fn generic_expected(ps: Seq<(Seq<char>, Seq<char>)>, fs: Seq<(String, FileInfo)>, k: Seq<char>) -> (
    Option<(Option<Seq<char>>, Option<Seq<char>>)>,
    Option<Seq<char>>,
    Option<u64>,
) {
    (file_term(headword_for(ps, k), reading_for(fs, k)), pattern_for(fs, k), number_for(fs, k))
}

/// Whether `v` is the reverse index of the headword pairs `ps` and file
/// entries `fs`: one entry for each path that is listed under a headword or
/// has a file entry, holding what is known of that file.
pub open spec fn generic_index_ok(
    v: Seq<(String, GenericInfo)>,
    ps: Seq<(Seq<char>, Seq<char>)>,
    fs: Seq<(String, FileInfo)>,
) -> bool {
    &&& keys_distinct(v)
    &&& forall|i: int|
        0 <= i < v.len() ==> (listed(ps, (#[trigger] v[i]).0@) || has_file(fs, v[i].0@))
            && generic_view(v[i].1) == generic_expected(ps, fs, v[i].0@)
    &&& forall|k: Seq<char>| (listed(ps, k) || has_file(fs, k)) ==> #[trigger] has_key(v, k)
}

proof fn lemma_pairs_push(ps: Seq<(Seq<char>, Seq<char>)>, x: (Seq<char>, Seq<char>), k: Seq<char>)
    ensures
        headword_for(ps.push(x), k) == (if x.1 == k && normalized(x.0) is Some {
            normalized(x.0)
        } else {
            headword_for(ps, k)
        }),
        listed(ps.push(x), k) <==> (listed(ps, k) || (x.1 == k && normalized(x.0) is Some)),
{
    assert(ps.push(x).drop_last() =~= ps);
    assert(ps.push(x).last() == x);
    if listed(ps, k) {
        let i = choose|i: int| 0 <= i < ps.len() && (#[trigger] ps[i]).1 == k && normalized(ps[i].0) is Some;
        assert(ps.push(x)[i] == ps[i]);
    }
    if x.1 == k && normalized(x.0) is Some {
        assert(ps.push(x)[ps.len() as int] == x);
    }
    if listed(ps.push(x), k) && !(x.1 == k && normalized(x.0) is Some) {
        let i = choose|i: int| 0 <= i < ps.push(x).len() && (#[trigger] ps.push(x)[i]).1 == k && normalized(ps.push(x)[i].0) is Some;
        assert(i < ps.len());
        assert(ps[i] == ps.push(x)[i]);
    }
}

proof fn lemma_files_push(fs: Seq<(String, FileInfo)>, x: (String, FileInfo), k: Seq<char>)
    ensures
        reading_for(fs.push(x), k) == (match x.1.kana_reading {
            Some(r) => if x.0@ == k && normalized(r@) is Some {
                normalized(r@)
            } else {
                reading_for(fs, k)
            },
            None => reading_for(fs, k),
        }),
        pattern_for(fs.push(x), k) == (match x.1.pitch_pattern {
            Some(r) => if x.0@ == k && normalized(r@) is Some {
                normalized(r@)
            } else {
                pattern_for(fs, k)
            },
            None => pattern_for(fs, k),
        }),
        number_for(fs.push(x), k) == (match x.1.pitch_number {
            Some(r) => if x.0@ == k && parsed_u64(r@) is Some {
                parsed_u64(r@)
            } else {
                number_for(fs, k)
            },
            None => number_for(fs, k),
        }),
        has_file(fs.push(x), k) <==> (has_file(fs, k) || x.0@ == k),
{
    assert(fs.push(x).drop_last() =~= fs);
    assert(fs.push(x).last() == x);
    if has_file(fs, k) {
        let i = choose|i: int| 0 <= i < fs.len() && (#[trigger] fs[i]).0@ == k;
        assert(fs.push(x)[i] == fs[i]);
    }
    if x.0@ == k {
        assert(fs.push(x)[fs.len() as int] == x);
    }
    if has_file(fs.push(x), k) && x.0@ != k {
        let i = choose|i: int| 0 <= i < fs.push(x).len() && (#[trigger] fs.push(x)[i]).0@ == k;
        assert(i < fs.len());
        assert(fs[i] == fs.push(x)[i]);
    }
}

/// The reverse index of a JapanesePod101 or Shin Meikai index: for each
/// path, its term (from the last headword listing it, with the last reading
/// given for it), its pitch pattern and its pitch number; the headwords and
/// readings normalized, and headwords that normalize to nothing left out.
pub fn generic_rev_index(index: &GenericIndex) -> (r: RevIndex<GenericInfo>)
    ensures
        generic_index_ok(r.for_path@, hw_pairs(index.headwords@), index.files@),
{
    let ghost no_files = Seq::<(String, FileInfo)>::empty();
    let mut v: Vec<(String, GenericInfo)> = Vec::new();
    let mut i: usize = 0;
    while i < index.headwords.len()
        invariant
            i <= index.headwords@.len(),
            no_files == Seq::<(String, FileInfo)>::empty(),
            generic_index_ok(v@, hw_pairs(index.headwords@.take(i as int)), no_files),
        decreases index.headwords@.len() - i,
    {
        let (ref headword, ref paths) = index.headwords[i];
        let ghost pre = hw_pairs(index.headwords@.take(i as int));
        proof {
            let t = index.headwords@.take(i as int + 1);
            assert(t.drop_last() =~= index.headwords@.take(i as int));
            assert(t.last() == index.headwords@[i as int]);
            assert(hw_pairs(t) == pre + paths@.map_values(|p: String| (headword@, p@)));
        }
        match NormString::new(headword.as_str()) {
            None => {
                proof {
                    assert forall|k: Seq<char>| listed(pre + paths@.map_values(|p: String| (headword@, p@)), k)
                        == listed(pre, k) by {
                        let full = pre + paths@.map_values(|p: String| (headword@, p@));
                        if listed(full, k) {
                            let m = choose|m: int| 0 <= m < full.len() && (#[trigger] full[m]).1 == k && normalized(full[m].0) is Some;
                            assert(m < pre.len());
                            assert(pre[m] == full[m]);
                        }
                        if listed(pre, k) {
                            let m = choose|m: int| 0 <= m < pre.len() && (#[trigger] pre[m]).1 == k && normalized(pre[m].0) is Some;
                            assert(full[m] == pre[m]);
                        }
                    }
                    assert forall|k: Seq<char>| headword_for(pre + paths@.map_values(|p: String| (headword@, p@)), k)
                        == headword_for(pre, k) by {
                        let mut j = paths@.len() as int;
                        lemma_headword_for_tail(pre, headword@, paths@, k);
                    }
                }
            },
            Some(nh) => {
                let term = Term::Headword { headword: nh };
                let mut j: usize = 0;
                proof {
                    assert(pre + paths@.take(0).map_values(|p: String| (headword@, p@)) =~= pre);
                }
                while j < paths.len()
                    invariant
                        j <= paths@.len(),
                        no_files == Seq::<(String, FileInfo)>::empty(),
                        term.headword_of() == normalized(headword@),
                        term.reading_of() is None,
                        normalized(headword@) is Some,
                        generic_index_ok(v@, pre + paths@.take(j as int).map_values(|p: String| (headword@, p@)), no_files),
                    decreases paths@.len() - j,
                {
                    let ghost cur = pre + paths@.take(j as int).map_values(|p: String| (headword@, p@));
                    let ghost x = (headword@, paths@[j as int]@);
                    proof {
                        assert(pre + paths@.take(j as int + 1).map_values(|p: String| (headword@, p@)) =~= cur.push(x));
                    }
                    let ghost v0 = v@;
                    let idx = entry_index(&mut v, paths[j].as_str(), GenericInfo { term: None, pitch_pattern: None, pitch_number: None });
                    let ghost v1 = v@;
                    let (key, info) = v.remove(idx);
                    let info2 = GenericInfo { term: Some(term.clone()), pitch_pattern: info.pitch_pattern, pitch_number: info.pitch_number };
                    v.insert(idx, (key, info2));
                    proof {
                        assert(v@ =~= v1.update(idx as int, (key, info2)));
                        assert(key@ == paths@[j as int]@);
                        assert forall|k: Seq<char>| true implies {
                            &&& headword_for(cur.push(x), k) == (if x.1 == k { normalized(headword@) } else { headword_for(cur, k) })
                            &&& (listed(cur.push(x), k) <==> (listed(cur, k) || x.1 == k))
                        } by {
                            lemma_pairs_push(cur, x, k);
                        }
                        assert forall|a: int, b: int| 0 <= a < b < v@.len() implies (#[trigger] v@[a]).0@ != (#[trigger] v@[b]).0@ by {
                            assert(v@[a].0 == v1[a].0);
                            assert(v@[b].0 == v1[b].0);
                        }
                        assert forall|m: int| 0 <= m < v@.len() implies (listed(cur.push(x), (#[trigger] v@[m]).0@) || has_file(no_files, v@[m].0@))
                            && generic_view(v@[m].1) == generic_expected(cur.push(x), no_files, v@[m].0@) by {
                            if m == idx {
                                if has_key(v0, x.1) {
                                    assert(v1 == v0);
                                    assert(generic_view(v0[m].1) == generic_expected(cur, no_files, v0[m].0@));
                                } else {
                                    assert(v1 == v0.push((v1[idx as int].0, GenericInfo { term: None, pitch_pattern: None, pitch_number: None })));
                                }
                            } else {
                                assert(v@[m] == v1[m]);
                                if m < v0.len() {
                                    assert(v1[m] == v0[m]);
                                    assert(v0[m].0@ != x.1);
                                }
                            }
                        }
                        assert forall|k: Seq<char>| (listed(cur.push(x), k) || has_file(no_files, k)) implies #[trigger] has_key(v@, k) by {
                            if k == x.1 {
                                assert(v@[idx as int].0@ == k);
                            } else {
                                assert(listed(cur, k));
                                assert(has_key(v0, k));
                                let m = choose|m: int| 0 <= m < v0.len() && (#[trigger] v0[m]).0@ == k;
                                assert(v1[m] == v0[m]);
                                if m == idx {
                                    assert(v@[m].0 == v1[m].0);
                                } else {
                                    assert(v@[m] == v1[m]);
                                }
                            }
                        }
                    }
                    j = j + 1;
                }
                proof {
                    assert(paths@.take(paths@.len() as int) =~= paths@);
                }
            },
        }
        i = i + 1;
    }
    proof {
        assert(index.headwords@.take(index.headwords@.len() as int) =~= index.headwords@);
    }
    let ghost ps = hw_pairs(index.headwords@);
    let mut i: usize = 0;
    proof {
        assert(index.files@.take(0) =~= no_files);
    }
    while i < index.files.len()
        invariant
            i <= index.files@.len(),
            ps == hw_pairs(index.headwords@),
            generic_index_ok(v@, ps, index.files@.take(i as int)),
        decreases index.files@.len() - i,
    {
        let ghost fs = index.files@.take(i as int);
        let ghost x = index.files@[i as int];
        proof {
            assert(index.files@.take(i as int + 1) =~= fs.push(x));
        }
        let (ref path, ref fi) = index.files[i];
        let ghost v0 = v@;
        let idx = entry_index(&mut v, path.as_str(), GenericInfo { term: None, pitch_pattern: None, pitch_number: None });
        let ghost v1 = v@;
        let (key, gi) = v.remove(idx);
        let ghost gi0 = gi;
        let reading = match &fi.kana_reading {
            Some(k) => NormString::new(k.as_str()),
            None => None,
        };
        let term = match reading {
            Some(r) => match gi.term {
                Some(t) => {
                    let mut t = t;
                    t.set_reading(r);
                    Some(t)
                },
                None => Some(Term::Reading { reading: r }),
            },
            None => gi.term,
        };
        let pattern = match &fi.pitch_pattern {
            Some(p) => match NormString::new(p.as_str()) {
                Some(n) => Some(n),
                None => gi.pitch_pattern,
            },
            None => gi.pitch_pattern,
        };
        let number = match &fi.pitch_number {
            Some(n) => match parse_u64(n.as_str()) {
                Some(m) => Some(m),
                None => gi.pitch_number,
            },
            None => gi.pitch_number,
        };
        let gi2 = GenericInfo { term, pitch_pattern: pattern, pitch_number: number };
        v.insert(idx, (key, gi2));
        proof {
            assert(v@ =~= v1.update(idx as int, (key, gi2)));
            assert(key@ == x.0@);
            lemma_files_push(fs, x, x.0@);
            lemma_for_some(ps, fs, x.0@);
            if !has_key(v0, x.0@) {
                assert(gi0 == GenericInfo { term: None, pitch_pattern: None, pitch_number: None });
            } else {
                assert(v1 == v0);
                assert(generic_view(gi0) == generic_expected(ps, fs, x.0@));
            }
            let k0 = x.0@;
            assert(*fi == x.1);
            assert(match reading {
                Some(r) => x.1.kana_reading is Some && normalized(x.1.kana_reading->0@) == Some(r@),
                None => x.1.kana_reading is None || normalized(x.1.kana_reading->0@) is None,
            });
            assert(generic_view(gi0) == generic_expected(ps, fs, k0));
            assert(term_view(gi2.term) == file_term(headword_for(ps, k0), reading_for(fs.push(x), k0)));
            assert(opt_view(gi2.pitch_pattern) == pattern_for(fs.push(x), k0));
            assert(gi2.pitch_number == number_for(fs.push(x), k0));
            assert(generic_view(gi2) == generic_expected(ps, fs.push(x), x.0@));
            assert forall|a: int, b: int| 0 <= a < b < v@.len() implies (#[trigger] v@[a]).0@ != (#[trigger] v@[b]).0@ by {
                assert(v@[a].0 == v1[a].0);
                assert(v@[b].0 == v1[b].0);
            }
            assert forall|m: int| 0 <= m < v@.len() implies (listed(ps, (#[trigger] v@[m]).0@) || has_file(fs.push(x), v@[m].0@))
                && generic_view(v@[m].1) == generic_expected(ps, fs.push(x), v@[m].0@) by {
                lemma_files_push(fs, x, v@[m].0@);
                if m != idx {
                    assert(v@[m] == v1[m]);
                    if m < v0.len() {
                        assert(v1[m] == v0[m]);
                        assert(v0[m].0@ != x.0@);
                    }
                }
            }
            assert forall|k: Seq<char>| (listed(ps, k) || has_file(fs.push(x), k)) implies #[trigger] has_key(v@, k) by {
                lemma_files_push(fs, x, k);
                if k == x.0@ {
                    assert(v@[idx as int].0@ == k);
                } else {
                    assert(has_key(v0, k));
                    let m = choose|m: int| 0 <= m < v0.len() && (#[trigger] v0[m]).0@ == k;
                    assert(v1[m] == v0[m]);
                    if m == idx {
                        assert(v@[m].0 == v1[m].0);
                    } else {
                        assert(v@[m] == v1[m]);
                    }
                }
            }
        }
        i = i + 1;
    }
    proof {
        assert(index.files@.take(index.files@.len() as int) =~= index.files@);
    }
    RevIndex { for_path: v }
}

proof fn lemma_for_some(ps: Seq<(Seq<char>, Seq<char>)>, fs: Seq<(String, FileInfo)>, k: Seq<char>)
    ensures
        headword_for(ps, k) is Some ==> listed(ps, k),
        reading_for(fs, k) is Some ==> has_file(fs, k),
        pattern_for(fs, k) is Some ==> has_file(fs, k),
        number_for(fs, k) is Some ==> has_file(fs, k),
    decreases ps.len() + fs.len(),
{
    if ps.len() > 0 {
        lemma_for_some(ps.drop_last(), fs, k);
        if headword_for(ps, k) is Some {
            if ps.last().1 == k && normalized(ps.last().0) is Some {
                assert(ps[ps.len() - 1] == ps.last());
            } else {
                let i = choose|i: int| 0 <= i < ps.drop_last().len() && (#[trigger] ps.drop_last()[i]).1 == k && normalized(ps.drop_last()[i].0) is Some;
                assert(ps[i] == ps.drop_last()[i]);
            }
        }
    }
    if fs.len() > 0 {
        lemma_for_some(Seq::empty(), fs.drop_last(), k);
        let x = fs.last();
        if x.0@ == k {
            assert(fs[fs.len() - 1] == x);
        } else {
            if has_file(fs.drop_last(), k) {
                let i = choose|i: int| 0 <= i < fs.drop_last().len() && (#[trigger] fs.drop_last()[i]).0@ == k;
                assert(fs[i] == fs.drop_last()[i]);
            }
        }
    }
}

/// Headwords that normalize to nothing add nothing to [`headword_for`].
proof fn lemma_headword_for_tail(pre: Seq<(Seq<char>, Seq<char>)>, h: Seq<char>, paths: Seq<String>, k: Seq<char>)
    requires
        normalized(h) is None,
    ensures
        headword_for(pre + paths.map_values(|p: String| (h, p@)), k) == headword_for(pre, k),
    decreases paths.len(),
{
    if paths.len() == 0 {
        assert(pre + paths.map_values(|p: String| (h, p@)) =~= pre);
    } else {
        let full = pre + paths.map_values(|p: String| (h, p@));
        assert(full.drop_last() =~= pre + paths.drop_last().map_values(|p: String| (h, p@)));
        lemma_headword_for_tail(pre, h, paths.drop_last(), k);
    }
}

/// What is known of an NHK audio file: the terms it is a pronunciation of,
/// and its pitch positions.
#[derive(Debug, Clone, Default)]
pub struct Nhk16Info {
    pub terms: Vec<Term>,
    pub pitch_positions: Vec<u64>,
}

/// The headword and reading of each term.
pub open spec fn term_views(ts: Seq<Term>) -> Seq<(Option<Seq<char>>, Option<Seq<char>>)> {
    ts.map_values(|t: Term| (t.headword_of(), t.reading_of()))
}

/// The view of what is known of an NHK file.
pub open spec fn nhk_view(i: Nhk16Info) -> (Seq<(Option<Seq<char>>, Option<Seq<char>>)>, Seq<u64>) {
    (term_views(i.terms@), i.pitch_positions@)
}

/// The terms of an entry: each of its headwords that normalizes to
/// something, with the entry's reading normalized.
pub open spec fn kanji_terms(ks: Seq<String>, reading: Option<Seq<char>>) -> Seq<
    (Option<Seq<char>>, Option<Seq<char>>),
>
    decreases ks.len(),
{
    if ks.len() == 0 {
        Seq::empty()
    } else {
        let rest = kanji_terms(ks.drop_last(), reading);
        match normalized(ks.last()@) {
            Some(h) => rest.push((Some(h), reading)),
            None => rest,
        }
    }
}

/// The pitch positions of a pronunciation: its pitch accents that are not
/// negative.
pub open spec fn accent_positions(ps: Seq<Nhk16Pitch>) -> Seq<u64>
    decreases ps.len(),
{
    if ps.len() == 0 {
        Seq::empty()
    } else {
        let rest = accent_positions(ps.drop_last());
        if ps.last().pitch_accent >= 0 {
            rest.push(ps.last().pitch_accent as u64)
        } else {
            rest
        }
    }
}

/// For each pronunciation with an audio file: the file, the terms, and the
/// pitch positions.
pub open spec fn accents_events(
    acs: Seq<Nhk16Accent>,
    tv: Seq<(Option<Seq<char>>, Option<Seq<char>>)>,
) -> Seq<(Seq<char>, Seq<(Option<Seq<char>>, Option<Seq<char>>)>, Seq<u64>)>
    decreases acs.len(),
{
    if acs.len() == 0 {
        Seq::empty()
    } else {
        let rest = accents_events(acs.drop_last(), tv);
        match acs.last().sound_file {
            Some(f) => rest.push((f@, tv, accent_positions(acs.last().accent@))),
            None => rest,
        }
    }
}

/// The pronunciations with an audio file of all entries, in order.
pub open spec fn accent_events(es: Seq<Nhk16Entry>) -> Seq<
    (Seq<char>, Seq<(Option<Seq<char>>, Option<Seq<char>>)>, Seq<u64>),
>
    decreases es.len(),
{
    if es.len() == 0 {
        Seq::empty()
    } else {
        accent_events(es.drop_last()) + accents_events(
            es.last().accents@,
            kanji_terms(es.last().kanji@, normalized(es.last().kana@)),
        )
    }
}

/// The terms of all pronunciations with audio file `k`, in order.
pub open spec fn nhk_terms_for(
    evs: Seq<(Seq<char>, Seq<(Option<Seq<char>>, Option<Seq<char>>)>, Seq<u64>)>,
    k: Seq<char>,
) -> Seq<(Option<Seq<char>>, Option<Seq<char>>)>
    decreases evs.len(),
{
    if evs.len() == 0 {
        Seq::empty()
    } else if evs.last().0 == k {
        nhk_terms_for(evs.drop_last(), k) + evs.last().1
    } else {
        nhk_terms_for(evs.drop_last(), k)
    }
}

/// The pitch positions of all pronunciations with audio file `k`, in order.
pub open spec fn nhk_positions_for(
    evs: Seq<(Seq<char>, Seq<(Option<Seq<char>>, Option<Seq<char>>)>, Seq<u64>)>,
    k: Seq<char>,
) -> Seq<u64>
    decreases evs.len(),
{
    if evs.len() == 0 {
        Seq::empty()
    } else if evs.last().0 == k {
        nhk_positions_for(evs.drop_last(), k) + evs.last().2
    } else {
        nhk_positions_for(evs.drop_last(), k)
    }
}

/// Whether some pronunciation has audio file `k`.
pub open spec fn has_event(
    evs: Seq<(Seq<char>, Seq<(Option<Seq<char>>, Option<Seq<char>>)>, Seq<u64>)>,
    k: Seq<char>,
) -> bool {
    exists|i: int| 0 <= i < evs.len() && (#[trigger] evs[i]).0 == k
}

/// Whether `v` is the reverse index of the pronunciations `evs`: one entry
/// for each audio file, holding the terms and pitch positions of all its
/// pronunciations.
pub open spec fn nhk_index_ok(
    v: Seq<(String, Nhk16Info)>,
    evs: Seq<(Seq<char>, Seq<(Option<Seq<char>>, Option<Seq<char>>)>, Seq<u64>)>,
) -> bool {
    &&& keys_distinct(v)
    &&& forall|i: int|
        0 <= i < v.len() ==> has_event(evs, (#[trigger] v[i]).0@) && nhk_view(v[i].1) == (
            nhk_terms_for(evs, v[i].0@),
            nhk_positions_for(evs, v[i].0@),
        )
    &&& forall|k: Seq<char>| has_event(evs, k) ==> #[trigger] has_key(v, k)
}

proof fn lemma_events_push(
    evs: Seq<(Seq<char>, Seq<(Option<Seq<char>>, Option<Seq<char>>)>, Seq<u64>)>,
    x: (Seq<char>, Seq<(Option<Seq<char>>, Option<Seq<char>>)>, Seq<u64>),
    k: Seq<char>,
)
    ensures
        nhk_terms_for(evs.push(x), k) == (if x.0 == k {
            nhk_terms_for(evs, k) + x.1
        } else {
            nhk_terms_for(evs, k)
        }),
        nhk_positions_for(evs.push(x), k) == (if x.0 == k {
            nhk_positions_for(evs, k) + x.2
        } else {
            nhk_positions_for(evs, k)
        }),
        has_event(evs.push(x), k) <==> (has_event(evs, k) || x.0 == k),
{
    assert(evs.push(x).drop_last() =~= evs);
    assert(evs.push(x).last() == x);
    if has_event(evs, k) {
        let i = choose|i: int| 0 <= i < evs.len() && (#[trigger] evs[i]).0 == k;
        assert(evs.push(x)[i] == evs[i]);
    }
    if x.0 == k {
        assert(evs.push(x)[evs.len() as int] == x);
    }
    if has_event(evs.push(x), k) && x.0 != k {
        let i = choose|i: int| 0 <= i < evs.push(x).len() && (#[trigger] evs.push(x)[i]).0 == k;
        assert(i < evs.len());
        assert(evs[i] == evs.push(x)[i]);
    }
}

proof fn lemma_no_event(
    evs: Seq<(Seq<char>, Seq<(Option<Seq<char>>, Option<Seq<char>>)>, Seq<u64>)>,
    k: Seq<char>,
)
    requires
        !has_event(evs, k),
    ensures
        nhk_terms_for(evs, k) == Seq::<(Option<Seq<char>>, Option<Seq<char>>)>::empty(),
        nhk_positions_for(evs, k) == Seq::<u64>::empty(),
    decreases evs.len(),
{
    if evs.len() > 0 {
        assert(evs[evs.len() - 1] == evs.last());
        if has_event(evs.drop_last(), k) {
            let i = choose|i: int| 0 <= i < evs.drop_last().len() && (#[trigger] evs.drop_last()[i]).0 == k;
            assert(evs[i] == evs.drop_last()[i]);
        }
        lemma_no_event(evs.drop_last(), k);
    }
}

/// The terms of an NHK entry (see [`kanji_terms`]).
fn entry_terms(e: &Nhk16Entry) -> (r: Vec<Term>)
    ensures
        term_views(r@) == kanji_terms(e.kanji@, normalized(e.kana@)),
{
    let reading = NormString::new(e.kana.as_str());
    let ghost rv = normalized(e.kana@);
    let mut out: Vec<Term> = Vec::new();
    let mut k: usize = 0;
    proof {
        assert(term_views(out@) =~= kanji_terms(e.kanji@.take(0), rv));
    }
    while k < e.kanji.len()
        invariant
            k <= e.kanji@.len(),
            rv == normalized(e.kana@),
            opt_view(reading) == rv,
            term_views(out@) == kanji_terms(e.kanji@.take(k as int), rv),
        decreases e.kanji@.len() - k,
    {
        let ghost t = e.kanji@.take(k as int + 1);
        proof {
            assert(t.drop_last() =~= e.kanji@.take(k as int));
            assert(t.last() == e.kanji@[k as int]);
        }
        match NormString::new(e.kanji[k].as_str()) {
            Some(h) => {
                let term = match &reading {
                    Some(r) => Term::Full { headword: h, reading: r.clone() },
                    None => Term::Headword { headword: h },
                };
                let ghost before = out@;
                out.push(term);
                proof {
                    assert(term_views(out@) =~= term_views(before).push((term.headword_of(), term.reading_of())));
                }
            },
            None => {},
        }
        k = k + 1;
    }
    proof {
        assert(e.kanji@.take(e.kanji@.len() as int) =~= e.kanji@);
    }
    out
}

/// The pitch positions of a pronunciation (see [`accent_positions`]).
fn positions_of(ps: &Vec<Nhk16Pitch>) -> (r: Vec<u64>)
    ensures
        r@ == accent_positions(ps@),
{
    let mut out: Vec<u64> = Vec::new();
    let mut k: usize = 0;
    while k < ps.len()
        invariant
            k <= ps@.len(),
            out@ == accent_positions(ps@.take(k as int)),
        decreases ps@.len() - k,
    {
        let ghost t = ps@.take(k as int + 1);
        proof {
            assert(t.drop_last() =~= ps@.take(k as int));
            assert(t.last() == ps@[k as int]);
        }
        let a = ps[k].pitch_accent;
        if a >= 0 {
            out.push(a as u64);
        }
        k = k + 1;
    }
    proof {
        assert(ps@.take(ps@.len() as int) =~= ps@);
    }
    out
}

fn copy_terms(ts: &Vec<Term>) -> (r: Vec<Term>)
    ensures
        r@ == ts@,
{
    let mut out: Vec<Term> = Vec::new();
    let mut k: usize = 0;
    while k < ts.len()
        invariant
            k <= ts@.len(),
            out@ == ts@.take(k as int),
        decreases ts@.len() - k,
    {
        out.push(ts[k].clone());
        proof {
            assert(ts@.take(k as int + 1) =~= ts@.take(k as int).push(ts@[k as int]));
        }
        k = k + 1;
    }
    proof {
        assert(ts@.take(ts@.len() as int) =~= ts@);
    }
    out
}

/// Adds one pronunciation with an audio file to the index.
fn add_nhk_event(
    v: &mut Vec<(String, Nhk16Info)>,
    file: &str,
    terms: &Vec<Term>,
    positions: &Vec<u64>,
    Ghost(evs): Ghost<Seq<(Seq<char>, Seq<(Option<Seq<char>>, Option<Seq<char>>)>, Seq<u64>)>>,
)
    requires
        nhk_index_ok(old(v)@, evs),
    ensures
        nhk_index_ok(final(v)@, evs.push((file@, term_views(terms@), positions@))),
{
    let ghost x = (file@, term_views(terms@), positions@);
    let ghost v0 = v@;
    let idx = entry_index(v, file, Nhk16Info { terms: Vec::new(), pitch_positions: Vec::new() });
    let ghost v1 = v@;
    let (key, info) = v.remove(idx);
    let ghost info0 = info;
    let mut new_terms = info.terms;
    let mut more = copy_terms(terms);
    new_terms.append(&mut more);
    let mut new_positions = info.pitch_positions;
    let mut more_p = crate::import::yomitan::copy_u64s(positions);
    new_positions.append(&mut more_p);
    let info2 = Nhk16Info { terms: new_terms, pitch_positions: new_positions };
    v.insert(idx, (key, info2));
    proof {
        assert(v@ =~= v1.update(idx as int, (key, info2)));
        lemma_events_push(evs, x, x.0);
        if has_key(v0, x.0) {
            assert(v1 == v0);
            assert(nhk_view(info0) == (nhk_terms_for(evs, x.0), nhk_positions_for(evs, x.0)));
        } else {
            assert(!has_event(evs, x.0));
            lemma_no_event(evs, x.0);
            assert(info0.terms@ =~= Seq::<Term>::empty());
        }
        assert(term_views(info2.terms@) =~= term_views(info0.terms@) + term_views(terms@));
        assert forall|a: int, b: int| 0 <= a < b < v@.len() implies (#[trigger] v@[a]).0@ != (#[trigger] v@[b]).0@ by {
            assert(v@[a].0 == v1[a].0);
            assert(v@[b].0 == v1[b].0);
        }
        assert forall|m: int| 0 <= m < v@.len() implies has_event(evs.push(x), (#[trigger] v@[m]).0@) && nhk_view(v@[m].1) == (
            nhk_terms_for(evs.push(x), v@[m].0@),
            nhk_positions_for(evs.push(x), v@[m].0@),
        ) by {
            lemma_events_push(evs, x, v@[m].0@);
            if m != idx {
                assert(v@[m] == v1[m]);
                if m < v0.len() {
                    assert(v1[m] == v0[m]);
                    assert(v0[m].0@ != x.0);
                }
            }
        }
        assert forall|k: Seq<char>| has_event(evs.push(x), k) implies #[trigger] has_key(v@, k) by {
            lemma_events_push(evs, x, k);
            if k == x.0 {
                assert(v@[idx as int].0@ == k);
            } else {
                assert(has_key(v0, k));
                let m = choose|m: int| 0 <= m < v0.len() && (#[trigger] v0[m]).0@ == k;
                assert(v1[m] == v0[m]);
                if m == idx {
                    assert(v@[m].0 == v1[m].0);
                } else {
                    assert(v@[m] == v1[m]);
                }
            }
        }
    }
}

/// The reverse index of the NHK index: for each audio file, the terms of
/// all its pronunciations and their pitch positions, in order. Entries'
/// headwords and readings are normalized, headwords that normalize to
/// nothing are left out, and pronunciations without an audio file are
/// skipped.
pub fn nhk16_rev_index(index: &Nhk16Index) -> (r: RevIndex<Nhk16Info>)
    ensures
        nhk_index_ok(r.for_path@, accent_events(index.0@)),
{
    let mut v: Vec<(String, Nhk16Info)> = Vec::new();
    let mut i: usize = 0;
    proof {
        assert(accent_events(index.0@.take(0)) =~= Seq::empty());
    }
    while i < index.0.len()
        invariant
            i <= index.0@.len(),
            nhk_index_ok(v@, accent_events(index.0@.take(i as int))),
        decreases index.0@.len() - i,
    {
        let e = &index.0[i];
        let ghost pre = accent_events(index.0@.take(i as int));
        let terms = entry_terms(e);
        let ghost tv = term_views(terms@);
        proof {
            let t = index.0@.take(i as int + 1);
            assert(t.drop_last() =~= index.0@.take(i as int));
            assert(t.last() == index.0@[i as int]);
            assert(accent_events(t) == pre + accents_events(e.accents@, tv));
            assert(pre + accents_events(e.accents@.take(0), tv) =~= pre);
        }
        let mut j: usize = 0;
        while j < e.accents.len()
            invariant
                j <= e.accents@.len(),
                tv == term_views(terms@),
                nhk_index_ok(v@, pre + accents_events(e.accents@.take(j as int), tv)),
            decreases e.accents@.len() - j,
        {
            let ghost cur = pre + accents_events(e.accents@.take(j as int), tv);
            let ghost t = e.accents@.take(j as int + 1);
            proof {
                assert(t.drop_last() =~= e.accents@.take(j as int));
                assert(t.last() == e.accents@[j as int]);
            }
            let a = &e.accents[j];
            match &a.sound_file {
                Some(f) => {
                    let ps = positions_of(&a.accent);
                    proof {
                        assert(pre + accents_events(t, tv) =~= cur.push((f@, tv, ps@)));
                    }
                    add_nhk_event(&mut v, f.as_str(), &terms, &ps, Ghost(cur));
                },
                None => {
                    proof {
                        assert(pre + accents_events(t, tv) =~= cur);
                    }
                },
            }
            j = j + 1;
        }
        proof {
            assert(e.accents@.take(e.accents@.len() as int) =~= e.accents@);
        }
        i = i + 1;
    }
    proof {
        assert(index.0@.take(index.0@.len() as int) =~= index.0@);
    }
    RevIndex { for_path: v }
}

/// What `v` holds for path `k`: the first entry with that path, if any.
pub open spec fn lookup<R>(v: Seq<(String, R)>, k: Seq<char>) -> Option<R>
    decreases v.len(),
{
    if v.len() == 0 {
        None
    } else if v[0].0@ == k {
        Some(v[0].1)
    } else {
        lookup(v.drop_first(), k)
    }
}

impl<Rev> RevIndex<Rev> {
    /// What is known of the file at `path`, if anything.
    pub fn get(&self, path: &str) -> (r: Option<&Rev>)
        ensures
            match r {
                Some(x) => lookup(self.for_path@, path@) == Some(*x),
                None => lookup(self.for_path@, path@) is None,
            },
    {
        let mut i: usize = 0;
        proof {
            assert(self.for_path@.skip(0) =~= self.for_path@);
        }
        while i < self.for_path.len()
            invariant
                i <= self.for_path@.len(),
                lookup(self.for_path@, path@) == lookup(self.for_path@.skip(i as int), path@),
            decreases self.for_path@.len() - i,
        {
            proof {
                let t = self.for_path@.skip(i as int);
                assert(t[0] == self.for_path@[i as int]);
                assert(t.drop_first() =~= self.for_path@.skip(i as int + 1));
            }
            if str_eq(self.for_path[i].0.as_str(), path) {
                return Some(&self.for_path[i].1);
            }
            i = i + 1;
        }
        proof {
            assert(self.for_path@.skip(i as int).len() == 0);
        }
        None
    }
}

} // verus!
