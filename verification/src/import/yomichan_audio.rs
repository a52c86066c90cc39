//! Yomichan local-audio archives: audio formats from file extensions, Forvo
//! file paths, and the reverse indexes from audio file paths to terms.

pub mod rev_index;
pub mod schema;

use vstd::prelude::*;

use crate::dict::yomichan_audio::{Audio, AudioFormat, Forvo, Jpod, Nhk16, Shinmeikai8};
use crate::import::yomitan::{has_prefix, starts_with};
use crate::record::Record;
use crate::term::{DictionaryKind, DictionaryMeta};
use rev_index::{lookup, GenericInfo, Nhk16Info, RevIndex};
use crate::term::{normalized, opt_view, NormString, Term};
use crate::text::{chars_of, str_eq, string_of};

verus! {

/// Index of the last `c` in `s`, or -1.
pub open spec fn last_index_of(s: Seq<char>, c: char) -> int
    decreases s.len(),
{
    if s.len() == 0 {
        -1
    } else if s.last() == c {
        s.len() - 1
    } else {
        last_index_of(s.drop_last(), c)
    }
}

/// Bounds and meaning of [`last_index_of`].
pub proof fn lemma_last_index_of(s: Seq<char>, c: char)
    ensures
        -1 <= last_index_of(s, c) < s.len(),
        last_index_of(s, c) >= 0 ==> s[last_index_of(s, c)] == c,
        forall|j: int| last_index_of(s, c) < j < s.len() ==> s[j] != c,
    decreases s.len(),
{
    if s.len() > 0 && s.last() != c {
        lemma_last_index_of(s.drop_last(), c);
        assert forall|j: int| last_index_of(s, c) < j < s.len() implies s[j] != c by {
            if j < s.len() - 1 {
                assert(s[j] == s.drop_last()[j]);
            }
        }
    }
}

/// The file name of a path, as `Path::file_name` gives it: its last
/// component, skipping empty and `.` components; none if that component is
/// `..` or there is none.
pub open spec fn file_name_of(s: Seq<char>) -> Option<Seq<char>>
    decreases s.len(),
{
    let j = last_index_of(s, '/');
    let comp = s.skip(j + 1);
    if comp.len() == 0 || comp == seq!['.'] {
        if j < 0 {
            None
        } else {
            proof {
                lemma_last_index_of(s, '/');
            }
            file_name_of(s.take(j))
        }
    } else if comp == seq!['.', '.'] {
        None
    } else {
        Some(comp)
    }
}

/// The extension of a path, as `Path::extension` gives it: what follows the
/// last `.` of the file name, unless that `.` begins the file name.
pub open spec fn extension_of(s: Seq<char>) -> Option<Seq<char>> {
    match file_name_of(s) {
        None => None,
        Some(name) => {
            let k = last_index_of(name, '.');
            if k > 0 {
                Some(name.skip(k + 1))
            } else {
                None
            }
        },
    }
}

/// Index of the last `c` in `cs[..end]`.
fn last_index(cs: &Vec<char>, end: usize, c: char) -> (r: Option<usize>)
    requires
        end <= cs@.len(),
    ensures
        match r {
            Some(j) => j == last_index_of(cs@.take(end as int), c),
            None => last_index_of(cs@.take(end as int), c) == -1,
        },
{
    let mut k = end;
    while k > 0
        invariant
            k <= end <= cs@.len(),
            last_index_of(cs@.take(end as int), c) == last_index_of(cs@.take(k as int), c),
        decreases k,
    {
        proof {
            assert(cs@.take(k as int).drop_last() =~= cs@.take(k - 1));
        }
        if cs[k - 1] == c {
            return Some(k - 1);
        }
        k = k - 1;
    }
    None
}

/// The file name of `path` (see [`file_name_of`]).
pub fn file_name(path: &str) -> (r: Option<String>)
    ensures
        match r {
            Some(n) => file_name_of(path@) == Some(n@),
            None => file_name_of(path@) is None,
        },
{
    let cs = chars_of(path);
    let mut end = cs.len();
    proof {
        assert(cs@.take(end as int) =~= path@);
    }
    loop
        invariant
            end <= cs@.len(),
            cs@ == path@,
            file_name_of(path@) == file_name_of(cs@.take(end as int)),
        decreases end,
    {
        let ghost s = cs@.take(end as int);
        let j = last_index(&cs, end, '/');
        proof {
            lemma_last_index_of(s, '/');
        }
        let start = match j {
            Some(j) => j + 1,
            None => 0,
        };
        let ghost comp = s.skip(last_index_of(s, '/') + 1);
        proof {
            assert(cs@.subrange(start as int, end as int) =~= comp);
        }
        let len = end - start;
        let is_dot = len == 1 && cs[start] == '.';
        let is_dot_dot = len == 2 && cs[start] == '.' && cs[start + 1] == '.';
        proof {
            if len == 1 {
                assert(comp[0] == cs@[start as int]);
            }
            if len == 2 {
                assert(comp[0] == cs@[start as int]);
                assert(comp[1] == cs@[start + 1]);
            }
            assert(is_dot == (comp =~= seq!['.']));
            assert(is_dot_dot == (comp =~= seq!['.', '.']));
        }
        if len == 0 || is_dot {
            match j {
                None => return None,
                Some(j) => {
                    proof {
                        assert(s.take(j as int) =~= cs@.take(j as int));
                    }
                    end = j;
                },
            }
        } else if is_dot_dot {
            return None;
        } else {
            return Some(string_of(&cs, start, end));
        }
    }
}

/// The extension of `path` (see [`extension_of`]).
pub fn extension(path: &str) -> (r: Option<String>)
    ensures
        match r {
            Some(e) => extension_of(path@) == Some(e@),
            None => extension_of(path@) is None,
        },
{
    match file_name(path) {
        None => None,
        Some(name) => {
            let cs = chars_of(name.as_str());
            let n = cs.len();
            proof {
                assert(cs@.take(n as int) =~= cs@);
            }
            let k = last_index(&cs, n, '.');
            proof {
                lemma_last_index_of(cs@.take(n as int), '.');
            }
            match k {
                Some(k) => if k > 0 {
                    proof {
                        assert(cs@.subrange(k + 1, n as int) =~= name@.skip(k + 1));
                    }
                    Some(string_of(&cs, k + 1, n))
                } else {
                    None
                },
                None => None,
            }
        },
    }
}

/// Why an audio file's format could not be determined.
#[derive(Debug, Clone, PartialEq, Eq)]
pub enum AudioFormatError {
    /// The extension names no known format.
    Unknown(String),
    /// The path has no extension.
    NoExtension,
}

/// The audio format a path's extension names: `opus` and `mp3` are known;
/// any other extension is unknown; a path without one is an error too.
pub fn format_of(path: &str) -> (r: Result<AudioFormat, AudioFormatError>)
    ensures
        match extension_of(path@) {
            Some(e) => if e == "opus"@ {
                r == Ok::<AudioFormat, AudioFormatError>(AudioFormat::Opus)
            } else if e == "mp3"@ {
                r == Ok::<AudioFormat, AudioFormatError>(AudioFormat::Mp3)
            } else {
                r matches Err(AudioFormatError::Unknown(x)) && x@ == e
            },
            None => r == Err::<AudioFormat, AudioFormatError>(AudioFormatError::NoExtension),
        },
{
    match extension(path) {
        Some(e) => {
            if str_eq(e.as_str(), "opus") {
                Ok(AudioFormat::Opus)
            } else if str_eq(e.as_str(), "mp3") {
                Ok(AudioFormat::Mp3)
            } else {
                Err(AudioFormatError::Unknown(e))
            }
        },
        None => Err(AudioFormatError::NoExtension),
    }
}

/// Index of the first `c` in `s`, or -1.
pub open spec fn first_index_of(s: Seq<char>, c: char) -> int
    decreases s.len(),
{
    if s.len() == 0 {
        -1
    } else if s[0] == c {
        0
    } else {
        let r = first_index_of(s.drop_first(), c);
        if r < 0 {
            -1
        } else {
            r + 1
        }
    }
}

/// Bounds and meaning of [`first_index_of`].
pub proof fn lemma_first_index_of(s: Seq<char>, c: char)
    ensures
        -1 <= first_index_of(s, c) < s.len(),
        first_index_of(s, c) >= 0 ==> s[first_index_of(s, c)] == c,
        forall|j: int| 0 <= j < s.len() && (first_index_of(s, c) < 0 || j < first_index_of(s, c)) ==> s[j] != c,
    decreases s.len(),
{
    if s.len() > 0 && s[0] != c {
        lemma_first_index_of(s.drop_first(), c);
        assert forall|j: int| 0 <= j < s.len() && (first_index_of(s, c) < 0 || j < first_index_of(s, c)) implies s[j] != c by {
            if j > 0 {
                assert(s[j] == s.drop_first()[j - 1]);
            }
        }
    }
}

/// Index of the first `c` in `cs[start..]`, or `None`.
fn first_index(cs: &Vec<char>, start: usize, c: char) -> (r: Option<usize>)
    requires
        start <= cs@.len(),
    ensures
        match r {
            Some(j) => j - start == first_index_of(cs@.skip(start as int), c) && start <= j < cs@.len(),
            None => first_index_of(cs@.skip(start as int), c) == -1,
        },
{
    let ghost s = cs@.skip(start as int);
    proof {
        lemma_first_index_of(s, c);
    }
    let mut k = start;
    while k < cs.len()
        invariant
            start <= k <= cs@.len(),
            s == cs@.skip(start as int),
            forall|j: int| start <= j < k ==> cs@[j] != c,
        decreases cs@.len() - k,
    {
        if cs[k] == c {
            proof {
                lemma_first_index_of(s, c);
                let f = first_index_of(s, c);
                let i = k - start;
                assert(s[i] == cs@[k as int]);
                if f < 0 || f > i {
                    assert(s[i] != c);
                    assert(false);
                }
                if f < i {
                    assert(s[f] == cs@[f + start]);
                    assert(false);
                }
            }
            return Some(k);
        }
        k = k + 1;
    }
    proof {
        if first_index_of(s, c) >= 0 {
            let f = first_index_of(s, c);
            assert(s[f] == cs@[f + start]);
        }
    }
    None
}

/// The user name of a Forvo file path: everything before the first `/`.
pub open spec fn forvo_username(path: Seq<char>) -> Seq<char> {
    let j = first_index_of(path, '/');
    if j < 0 {
        path
    } else {
        path.take(j)
    }
}

/// The second component of a Forvo file path, if there is one.
pub open spec fn forvo_file(path: Seq<char>) -> Option<Seq<char>> {
    let j = first_index_of(path, '/');
    if j < 0 {
        None
    } else {
        let rest = path.skip(j + 1);
        let k = first_index_of(rest, '/');
        Some(if k < 0 {
            rest
        } else {
            rest.take(k)
        })
    }
}

/// The headword of a Forvo file path: the file's name without its last
/// extension, normalized; `None` if there is no file, it has no `.`, or
/// nothing is left.
pub open spec fn forvo_headword(path: Seq<char>) -> Option<Seq<char>> {
    match forvo_file(path) {
        None => None,
        Some(f) => {
            let d = last_index_of(f, '.');
            if d < 0 {
                None
            } else {
                normalized(f.take(d))
            }
        },
    }
}

/// Why a Forvo file could not become a record.
#[derive(Debug, Clone, PartialEq, Eq)]
pub enum ForvoError {
    /// The path names no headword.
    NoHeadword,
    /// The file's format is not known.
    Format(AudioFormatError),
}

/// The user name and headword term of a Forvo file path (relative to the
/// Forvo directory): `user/headword.ext`.
pub fn forvo_path_parts(path: &str) -> (r: Result<(String, Term), ForvoError>)
    ensures
        match r {
            Ok((user, term)) => user@ == forvo_username(path@) && forvo_headword(path@) is Some
                && term.headword_of() == forvo_headword(path@) && term.reading_of() is None,
            Err(e) => e == ForvoError::NoHeadword && forvo_headword(path@) is None,
        },
{
    let cs = chars_of(path);
    let n = cs.len();
    proof {
        assert(cs@.skip(0) =~= cs@);
    }
    let j = first_index(&cs, 0, '/');
    let user = match j {
        Some(j) => string_of(&cs, 0, j),
        None => string_of(&cs, 0, n),
    };
    proof {
        assert(cs@.subrange(0, n as int) =~= cs@);
        if j is Some {
            assert(cs@.subrange(0, j->0 as int) =~= path@.take(j->0 as int));
        }
    }
    let j = match j {
        Some(j) => j,
        None => return Err(ForvoError::NoHeadword),
    };
    let ghost rest = path@.skip(j + 1);
    proof {
        assert(cs@.skip(j + 1) =~= rest);
    }
    let k = first_index(&cs, j + 1, '/');
    let end = match k {
        Some(k) => k,
        None => n,
    };
    let ghost file = if k is None {
        rest
    } else {
        rest.take(k->0 - (j + 1))
    };
    proof {
        assert(cs@.subrange(j + 1, end as int) =~= file);
        assert(forvo_file(path@) == Some(file));
    }
    let fv = string_of(&cs, j + 1, end);
    let fcs = chars_of(fv.as_str());
    let fl = fcs.len();
    proof {
        assert(fcs@.take(fl as int) =~= fcs@);
        lemma_last_index_of(fcs@, '.');
    }
    let d = match last_index(&fcs, fl, '.') {
        Some(d) => d,
        None => return Err(ForvoError::NoHeadword),
    };
    let name = string_of(&fcs, 0, d);
    proof {
        assert(fcs@.subrange(0, d as int) =~= file.take(d as int));
    }
    match NormString::new(name.as_str()) {
        Some(h) => Ok((user, Term::Headword { headword: h })),
        None => Err(ForvoError::NoHeadword),
    }
}

/// The Forvo record of an audio file: its user and headword from the path,
/// its format from the path's extension.
pub fn forvo_record(path: &str, data: Vec<u8>) -> (r: Result<(Term, Forvo), ForvoError>)
    ensures
        match r {
            Ok((term, rec)) => forvo_headword(path@) is Some && term.headword_of() == forvo_headword(path@)
                && term.reading_of() is None && rec.username@ == forvo_username(path@) && rec.audio.data@ == data@
                && format_result(path@) == Some(rec.audio.format),
            Err(ForvoError::NoHeadword) => forvo_headword(path@) is None,
            Err(ForvoError::Format(e)) => forvo_headword(path@) is Some && format_result(path@) is None
                && format_error(path@, e),
        },
{
    let (user, term) = match forvo_path_parts(path) {
        Ok(p) => p,
        Err(e) => return Err(e),
    };
    let format = match format_of(path) {
        Ok(f) => f,
        Err(e) => return Err(ForvoError::Format(e)),
    };
    Ok((term, Forvo { username: user, audio: Audio { format, data } }))
}

/// The format a path's extension names, if it is a known one.
pub open spec fn format_result(path: Seq<char>) -> Option<AudioFormat> {
    match extension_of(path) {
        Some(e) => if e == "opus"@ {
            Some(AudioFormat::Opus)
        } else if e == "mp3"@ {
            Some(AudioFormat::Mp3)
        } else {
            None
        },
        None => None,
    }
}

/// Whether `e` is the error [`format_of`] gives for `path`.
pub open spec fn format_error(path: Seq<char>, e: AudioFormatError) -> bool {
    match extension_of(path) {
        Some(x) => e matches AudioFormatError::Unknown(u) && u@ == x,
        None => e == AudioFormatError::NoExtension,
    }
}

/// Where the parts of a Yomichan local-audio archive are: the Forvo
/// directory, the index and media of each other collection, and the paths
/// whose presence marks an archive of this kind.
#[derive(Debug, Clone)]
pub struct AudioPaths {
    pub forvo: String,
    pub jpod_index: String,
    pub jpod_media: String,
    pub nhk16_index: String,
    pub nhk16_audio: String,
    pub shinmeikai8_index: String,
    pub shinmeikai8_media: String,
    pub markers: Vec<String>,
}

/// The metadata of a Yomichan local-audio dictionary.
pub fn audio_meta() -> (r: DictionaryMeta)
    ensures
        r.kind == DictionaryKind::YomichanAudio,
        r.name@ == "Yomichan Japanese Local Audio"@,
        r.url matches Some(u) && u@ == "https://github.com/yomidevs/local-audio-yomichan"@,
        r.version is None,
        r.description is None,
        r.attribution is None,
{
    let mut meta = DictionaryMeta::new(DictionaryKind::YomichanAudio, "Yomichan Japanese Local Audio".to_owned());
    meta.url = Some("https://github.com/yomidevs/local-audio-yomichan".to_owned());
    meta
}

/// An archive lacks every marker path.
#[derive(Debug, Clone, PartialEq, Eq)]
pub struct MissingMarker;

/// Whether some path among `names` is one of the marker paths.
pub open spec fn has_marker(paths: AudioPaths, names: Seq<String>) -> bool {
    exists|i: int, j: int|
        0 <= i < names.len() && 0 <= j < paths.markers@.len() && (#[trigger] names[i])@ == (#[trigger] paths.markers@[j])@
}

/// Checks that an archive with the entries `names` is of this kind: one of
/// them must be a marker path.
pub fn validate(paths: &AudioPaths, names: &Vec<String>) -> (r: Result<(), MissingMarker>)
    ensures
        r is Ok <==> has_marker(*paths, names@),
{
    let mut i: usize = 0;
    while i < names.len()
        invariant
            i <= names@.len(),
            forall|a: int, b: int|
                0 <= a < i && 0 <= b < paths.markers@.len() ==> (#[trigger] names@[a])@ != (#[trigger] paths.markers@[b])@,
        decreases names@.len() - i,
    {
        let mut j: usize = 0;
        while j < paths.markers.len()
            invariant
                j <= paths.markers@.len(),
                i < names@.len(),
                forall|a: int, b: int|
                    0 <= a < i && 0 <= b < paths.markers@.len() ==> (#[trigger] names@[a])@ != (#[trigger] paths.markers@[b])@,
                forall|b: int| 0 <= b < j ==> names@[i as int]@ != (#[trigger] paths.markers@[b])@,
            decreases paths.markers@.len() - j,
        {
            if str_eq(names[i].as_str(), paths.markers[j].as_str()) {
                return Ok(());
            }
            j = j + 1;
        }
        i = i + 1;
    }
    Err(MissingMarker)
}

/// Which index file a path is.
#[derive(Debug, Clone, Copy, PartialEq, Eq, Structural)]
pub enum IndexKind {
    Jpod,
    Nhk16,
    Shinmeikai8,
}

/// The index file `path` is, if it is one.
pub open spec fn index_kind_of(paths: AudioPaths, path: Seq<char>) -> Option<IndexKind> {
    if path == paths.jpod_index@ {
        Some(IndexKind::Jpod)
    } else if path == paths.nhk16_index@ {
        Some(IndexKind::Nhk16)
    } else if path == paths.shinmeikai8_index@ {
        Some(IndexKind::Shinmeikai8)
    } else {
        None
    }
}

/// The index file `path` is, if it is one.
pub fn index_kind(paths: &AudioPaths, path: &str) -> (r: Option<IndexKind>)
    ensures
        r == index_kind_of(*paths, path@),
{
    if str_eq(path, paths.jpod_index.as_str()) {
        Some(IndexKind::Jpod)
    } else if str_eq(path, paths.nhk16_index.as_str()) {
        Some(IndexKind::Nhk16)
    } else if str_eq(path, paths.shinmeikai8_index.as_str()) {
        Some(IndexKind::Shinmeikai8)
    } else {
        None
    }
}

/// The reverse indexes of the three indexed collections.
#[derive(Debug)]
pub struct Indexes {
    pub jpod: RevIndex<GenericInfo>,
    pub nhk16: RevIndex<Nhk16Info>,
    pub shinmeikai8: RevIndex<GenericInfo>,
}

/// An index was not found in the archive.
#[derive(Debug, Clone, Copy, PartialEq, Eq, Structural)]
pub enum MissingIndex {
    Jpod,
    Nhk16,
    Shinmeikai8,
}

/// All three reverse indexes, or the first one that is missing (JapanesePod101,
/// then NHK, then Shin Meikai).
pub fn require_indexes(
    jpod: Option<RevIndex<GenericInfo>>,
    nhk16: Option<RevIndex<Nhk16Info>>,
    shinmeikai8: Option<RevIndex<GenericInfo>>,
) -> (r: Result<Indexes, MissingIndex>)
    ensures
        jpod is None ==> r == Err::<Indexes, MissingIndex>(MissingIndex::Jpod),
        jpod is Some && nhk16 is None ==> r == Err::<Indexes, MissingIndex>(MissingIndex::Nhk16),
        jpod is Some && nhk16 is Some && shinmeikai8 is None ==> r == Err::<Indexes, MissingIndex>(
            MissingIndex::Shinmeikai8,
        ),
        jpod is Some && nhk16 is Some && shinmeikai8 is Some ==> r == Ok::<Indexes, MissingIndex>(
            Indexes { jpod: jpod->0, nhk16: nhk16->0, shinmeikai8: shinmeikai8->0 },
        ),
{
    let jpod = match jpod {
        Some(j) => j,
        None => return Err(MissingIndex::Jpod),
    };
    let nhk16 = match nhk16 {
        Some(n) => n,
        None => return Err(MissingIndex::Nhk16),
    };
    let shinmeikai8 = match shinmeikai8 {
        Some(s) => s,
        None => return Err(MissingIndex::Shinmeikai8),
    };
    Ok(Indexes { jpod, nhk16, shinmeikai8 })
}

/// Which collection an audio file belongs to.
#[derive(Debug, Clone, Copy, PartialEq, Eq, Structural)]
pub enum MediaKind {
    Forvo,
    Jpod,
    Nhk16,
    Shinmeikai8,
}

/// The collection of the audio file at `path`, by the first directory it is
/// under (Forvo, JapanesePod101, NHK, Shin Meikai), with the rest of its path.
pub open spec fn media_of(paths: AudioPaths, path: Seq<char>) -> Option<(MediaKind, Seq<char>)> {
    if has_prefix(path, paths.forvo@) {
        Some((MediaKind::Forvo, path.skip(paths.forvo@.len() as int)))
    } else if has_prefix(path, paths.jpod_media@) {
        Some((MediaKind::Jpod, path.skip(paths.jpod_media@.len() as int)))
    } else if has_prefix(path, paths.nhk16_audio@) {
        Some((MediaKind::Nhk16, path.skip(paths.nhk16_audio@.len() as int)))
    } else if has_prefix(path, paths.shinmeikai8_media@) {
        Some((MediaKind::Shinmeikai8, path.skip(paths.shinmeikai8_media@.len() as int)))
    } else {
        None
    }
}

/// `s` without the prefix `p`, if it starts with it.
fn strip_prefix(s: &str, p: &str) -> (r: Option<String>)
    ensures
        match r {
            Some(x) => has_prefix(s@, p@) && x@ == s@.skip(p@.len() as int),
            None => !has_prefix(s@, p@),
        },
{
    let cs = chars_of(s);
    let ps = chars_of(p);
    if starts_with(&cs, &ps) {
        let n = cs.len();
        proof {
            assert(cs@.subrange(ps@.len() as int, n as int) =~= s@.skip(p@.len() as int));
        }
        Some(string_of(&cs, ps.len(), n))
    } else {
        None
    }
}

/// The collection of the audio file at `path` (see [`media_of`]).
pub fn media_kind(paths: &AudioPaths, path: &str) -> (r: Option<(MediaKind, String)>)
    ensures
        match r {
            Some((k, rest)) => media_of(*paths, path@) == Some((k, rest@)),
            None => media_of(*paths, path@) is None,
        },
{
    if let Some(rest) = strip_prefix(path, paths.forvo.as_str()) {
        return Some((MediaKind::Forvo, rest));
    }
    if let Some(rest) = strip_prefix(path, paths.jpod_media.as_str()) {
        return Some((MediaKind::Jpod, rest));
    }
    if let Some(rest) = strip_prefix(path, paths.nhk16_audio.as_str()) {
        return Some((MediaKind::Nhk16, rest));
    }
    if let Some(rest) = strip_prefix(path, paths.shinmeikai8_media.as_str()) {
        return Some((MediaKind::Shinmeikai8, rest));
    }
    None
}

/// Why an audio file could not become records.
#[derive(Debug, Clone, PartialEq, Eq)]
pub enum EntryError {
    Forvo(ForvoError),
    Format(AudioFormatError),
}

/// Whether `a` holds the given format and bytes.
pub open spec fn audio_ok(a: Audio, format: AudioFormat, data: Seq<u8>) -> bool {
    a.format == format && a.data@ == data
}

/// Whether `v` are the JapanesePod101 records of a file with what is known
/// of it `info`: one for its term, if it has one.
pub open spec fn jpod_ok(v: Seq<(Term, Record)>, info: GenericInfo, format: AudioFormat, data: Seq<u8>) -> bool {
    &&& v.len() == (if info.term is Some { 1int } else { 0int })
    &&& info.term is Some ==> v[0].0 == info.term->0 && (v[0].1 matches Record::YomichanAudioJpod(j) && audio_ok(
        j.audio,
        format,
        data,
    ))
}

/// Whether `v` are the Shin Meikai records of a file with what is known of
/// it `info`: one for its term, if it has one, with its pitch number and
/// pattern.
pub open spec fn shinmeikai8_ok(v: Seq<(Term, Record)>, info: GenericInfo, format: AudioFormat, data: Seq<u8>) -> bool {
    &&& v.len() == (if info.term is Some { 1int } else { 0int })
    &&& info.term is Some ==> v[0].0 == info.term->0 && (v[0].1 matches Record::YomichanAudioShinmeikai8(s)
        && audio_ok(s.audio, format, data) && s.pitch_number == info.pitch_number && opt_view(s.pitch_pattern)
        == opt_view(info.pitch_pattern))
}

/// Whether `v` are the NHK records of a file with what is known of it
/// `info`: one for each of its terms, in order, with its pitch positions.
pub open spec fn nhk16_ok(v: Seq<(Term, Record)>, info: Nhk16Info, format: AudioFormat, data: Seq<u8>) -> bool {
    &&& v.len() == info.terms@.len()
    &&& forall|i: int|
        0 <= i < v.len() ==> (#[trigger] v[i]).0 == info.terms@[i] && (v[i].1 matches Record::YomichanAudioNhk16(n)
            && audio_ok(n.audio, format, data) && n.pitch_positions@ == info.pitch_positions@)
}

fn copy_bytes(v: &Vec<u8>) -> (r: Vec<u8>)
    ensures
        r@ == v@,
{
    let mut out: Vec<u8> = Vec::new();
    let mut i: usize = 0;
    while i < v.len()
        invariant
            i <= v@.len(),
            out@ == v@.take(i as int),
        decreases v@.len() - i,
    {
        out.push(v[i]);
        proof {
            assert(v@.take(i as int + 1) =~= v@.take(i as int).push(v@[i as int]));
        }
        i = i + 1;
    }
    proof {
        assert(v@.take(v@.len() as int) =~= v@);
    }
    out
}

fn copy_norm(o: &Option<NormString>) -> (r: Option<NormString>)
    ensures
        opt_view(r) == opt_view(*o),
{
    match o {
        Some(n) => Some(n.clone()),
        None => None,
    }
}

/// The records of the audio file at `path` holding `data`: a Forvo file
/// gives one record for the headword in its path; a file of an indexed
/// collection gives records for the terms its index has for it, or none if
/// the index has nothing for it; any other file gives none. The format comes
/// from the file's extension, after its collection directory.
pub fn entry_records(paths: &AudioPaths, idx: &Indexes, path: &str, data: &Vec<u8>) -> (r: Result<
    Vec<(Term, Record)>,
    EntryError,
>)
    ensures
        match media_of(*paths, path@) {
            None => r matches Ok(v) && v@.len() == 0,
            Some((kind, rest)) => match kind {
                MediaKind::Forvo => match forvo_headword(rest) {
                    None => r == Err::<Vec<(Term, Record)>, EntryError>(EntryError::Forvo(ForvoError::NoHeadword)),
                    Some(h) => match format_result(rest) {
                        None => r matches Err(EntryError::Forvo(ForvoError::Format(e))) && format_error(rest, e),
                        Some(f) => r matches Ok(v) && v@.len() == 1 && v@[0].0.headword_of() == Some(h)
                            && v@[0].0.reading_of() is None && (v@[0].1 matches Record::YomichanAudioForvo(fv)
                            && fv.username@ == forvo_username(rest) && audio_ok(fv.audio, f, data@)),
                    },
                },
                MediaKind::Jpod => match lookup(idx.jpod.for_path@, rest) {
                    None => r matches Ok(v) && v@.len() == 0,
                    Some(info) => match format_result(rest) {
                        None => r matches Err(EntryError::Format(e)) && format_error(rest, e),
                        Some(f) => r matches Ok(v) && jpod_ok(v@, info, f, data@),
                    },
                },
                MediaKind::Nhk16 => match lookup(idx.nhk16.for_path@, rest) {
                    None => r matches Ok(v) && v@.len() == 0,
                    Some(info) => match format_result(rest) {
                        None => r matches Err(EntryError::Format(e)) && format_error(rest, e),
                        Some(f) => r matches Ok(v) && nhk16_ok(v@, info, f, data@),
                    },
                },
                MediaKind::Shinmeikai8 => match lookup(idx.shinmeikai8.for_path@, rest) {
                    None => r matches Ok(v) && v@.len() == 0,
                    Some(info) => match format_result(rest) {
                        None => r matches Err(EntryError::Format(e)) && format_error(rest, e),
                        Some(f) => r matches Ok(v) && shinmeikai8_ok(v@, info, f, data@),
                    },
                },
            },
        },
{
    let (kind, rest) = match media_kind(paths, path) {
        Some(m) => m,
        None => return Ok(Vec::new()),
    };
    match kind {
        MediaKind::Forvo => {
            match forvo_record(rest.as_str(), copy_bytes(data)) {
                Ok((term, rec)) => {
                    let mut v: Vec<(Term, Record)> = Vec::new();
                    v.push((term, Record::YomichanAudioForvo(rec)));
                    Ok(v)
                },
                Err(e) => Err(EntryError::Forvo(e)),
            }
        },
        MediaKind::Jpod => {
            let info = match idx.jpod.get(rest.as_str()) {
                Some(i) => i,
                None => return Ok(Vec::new()),
            };
            let format = match format_of(rest.as_str()) {
                Ok(f) => f,
                Err(e) => return Err(EntryError::Format(e)),
            };
            let mut v: Vec<(Term, Record)> = Vec::new();
            match &info.term {
                Some(t) => {
                    v.push((t.clone(), Record::YomichanAudioJpod(Jpod { audio: Audio { format, data: copy_bytes(data) } })));
                },
                None => {},
            }
            Ok(v)
        },
        MediaKind::Nhk16 => {
            let info = match idx.nhk16.get(rest.as_str()) {
                Some(i) => i,
                None => return Ok(Vec::new()),
            };
            let format = match format_of(rest.as_str()) {
                Ok(f) => f,
                Err(e) => return Err(EntryError::Format(e)),
            };
            let mut v: Vec<(Term, Record)> = Vec::new();
            let mut i: usize = 0;
            while i < info.terms.len()
                invariant
                    i <= info.terms@.len(),
                    v@.len() == i,
                    forall|m: int|
                        0 <= m < i ==> (#[trigger] v@[m]).0 == info.terms@[m] && (v@[m].1 matches Record::YomichanAudioNhk16(n)
                            && audio_ok(n.audio, format, data@) && n.pitch_positions@ == info.pitch_positions@),
                decreases info.terms@.len() - i,
            {
                let rec = Nhk16 {
                    audio: Audio { format, data: copy_bytes(data) },
                    pitch_positions: crate::import::yomitan::copy_u64s(&info.pitch_positions),
                };
                v.push((info.terms[i].clone(), Record::YomichanAudioNhk16(rec)));
                i = i + 1;
            }
            Ok(v)
        },
        MediaKind::Shinmeikai8 => {
            let info = match idx.shinmeikai8.get(rest.as_str()) {
                Some(i) => i,
                None => return Ok(Vec::new()),
            };
            let format = match format_of(rest.as_str()) {
                Ok(f) => f,
                Err(e) => return Err(EntryError::Format(e)),
            };
            let mut v: Vec<(Term, Record)> = Vec::new();
            match &info.term {
                Some(t) => {
                    let rec = Shinmeikai8 {
                        audio: Audio { format, data: copy_bytes(data) },
                        pitch_number: info.pitch_number,
                        pitch_pattern: copy_norm(&info.pitch_pattern),
                    };
                    v.push((t.clone(), Record::YomichanAudioShinmeikai8(rec)));
                },
                None => {},
            }
            Ok(v)
        },
    }
}

/// Whether progress is reported after `count` archive entries: every 2000.
pub fn progress_due(count: usize) -> (r: bool)
    ensures
        r == (count % 2000 == 0),
{
    count % 2000 == 0
}

/// The importer of Yomichan local-audio archives.
#[derive(Debug, Clone, Copy)]
pub struct YomichanAudio;

/// A reader with a count of the bytes consumed from it.
#[derive(Debug)]
pub struct Count<T> {
    pub inner: T,
    pub pos: u64,
}

impl<T> Count<T> {
    /// The number of bytes consumed so far, wrapping around past `u64::MAX`.
    pub open spec fn consumed(self) -> u64 {
        self.pos
    }

    /// Wraps `inner`, with nothing consumed yet.
    pub fn new(inner: T) -> (r: Self)
        ensures
            r.inner == inner,
            r.consumed() == 0,
    {
        Count { inner, pos: 0 }
    }

    /// The number of bytes consumed so far.
    pub fn pos(&self) -> (r: u64)
        ensures
            r == self.consumed(),
    {
        self.pos
    }

    /// Records that `amt` more bytes were consumed.
    pub fn consume(&mut self, amt: usize)
        ensures
            final(self).inner == old(self).inner,
            final(self).consumed() == (if old(self).consumed() + amt > u64::MAX {
                old(self).consumed() + amt - 0x1_0000_0000_0000_0000
            } else {
                old(self).consumed() + amt
            }),
    {
        let a = amt as u64;
        if self.pos > u64::MAX - a {
            self.pos = a - (u64::MAX - self.pos) - 1;
        } else {
            self.pos = self.pos + a;
        }
    }
}

} // verus!
