//! Rendering lookup results: records are grouped by term, and within a term
//! by dictionary or by pitch position, ready for an HTML template.

use vstd::prelude::*;

use crate::anki::{first_occurrences, is_for, offset_of};
use crate::dict::yomichan_audio::{Audio as AudioData, AudioFormat};
use crate::dict::yomitan::{GlossaryTag, Pitch as PitchRecord};
use crate::format::yomitan::html::{content_html, render_content};
use crate::import::yomitan::{copy_u64s, FrequencyRecord, FrequencyValue};
use crate::lang::jp::{high_at, is_high, morae, morae_of, views};
use crate::record::{DictionaryId, Record, RecordEntry, RecordKind};
use crate::term::Term;
use crate::text::push_str;

verus! {

/// The character of the standard base64 alphabet for the six-bit value `v`:
/// `A`-`Z`, `a`-`z`, `0`-`9`, `+` and `/`.
pub open spec fn base64_char(v: int) -> char {
    if v < 26 {
        ((v + 'A' as int) as u32) as char
    } else if v < 52 {
        ((v - 26 + 'a' as int) as u32) as char
    } else if v < 62 {
        ((v - 52 + '0' as int) as u32) as char
    } else if v == 62 {
        '+'
    } else {
        '/'
    }
}

/// The standard base64 encoding of some bytes, with padding, as
/// `data_encoding::BASE64` makes it: each group of three bytes becomes four
/// characters of six bits each, and a last group of one or two bytes becomes
/// two or three characters followed by `=` to make four.
pub open spec fn base64_of(data: Seq<u8>) -> Seq<char>
    decreases data.len(),
{
    if data.len() == 0 {
        Seq::empty()
    } else {
        let b0 = data[0] as int;
        let b1 = if data.len() > 1 { data[1] as int } else { 0 };
        let b2 = if data.len() > 2 { data[2] as int } else { 0 };
        let c0 = base64_char(b0 / 4);
        let c1 = base64_char((b0 % 4) * 16 + b1 / 16);
        let c2 = base64_char((b1 % 16) * 4 + b2 / 64);
        let c3 = base64_char(b2 % 64);
        if data.len() == 1 {
            seq![c0, c1, '=', '=']
        } else if data.len() == 2 {
            seq![c0, c1, c2, '=']
        } else {
            seq![c0, c1, c2, c3] + base64_of(data.skip(3))
        }
    }
}

/// The standard base64 encoding of `data`.
///
/// Trusted wrapper over `data_encoding::BASE64.encode`, the standard base64
/// encoding with padding (RFC 4648): [`base64_of`].
#[verifier::external_body]
fn base64_encode(data: &[u8]) -> (r: String)
    ensures
        r@ == base64_of(data@),
{
    data_encoding::BASE64.encode(data)
}

/// The MIME type of an audio format.
pub open spec fn mime_type(f: AudioFormat) -> Seq<char> {
    match f {
        AudioFormat::Opus => "audio/opus"@,
        AudioFormat::Mp3 => "audio/mp3"@,
    }
}

/// The MIME type of a piece of audio.
pub fn audio_mime_type(audio: &AudioData) -> (r: &'static str)
    ensures
        r@ == mime_type(audio.format),
{
    match audio.format {
        AudioFormat::Opus => "audio/opus",
        AudioFormat::Mp3 => "audio/mp3",
    }
}

/// A `data:` URL holding a piece of audio, base64-encoded.
pub open spec fn blob_of(a: AudioData) -> Seq<char> {
    "data:"@ + mime_type(a.format) + ";base64,"@ + base64_of(a.data@)
}

/// A `data:` URL holding `audio`.
pub fn audio_blob(audio: &AudioData) -> (r: String)
    ensures
        r@ == blob_of(*audio),
{
    let data = base64_encode(audio.data.as_slice());
    let mut out = String::new();
    push_str(&mut out, "data:");
    push_str(&mut out, audio_mime_type(audio));
    push_str(&mut out, ";base64,");
    push_str(&mut out, data.as_str());
    proof {
        assert(out@ =~= blob_of(*audio));
    }
    out
}

/// A piece of audio to play: which kind of record it comes from, and its
/// `data:` URL.
#[derive(Debug)]
pub struct Audio {
    pub kind: RecordKind,
    pub blob: String,
}

impl View for Audio {
    type V = (RecordKind, Seq<char>);

    open spec fn view(&self) -> (RecordKind, Seq<char>) {
        (self.kind, self.blob@)
    }
}

impl Clone for Audio {
    fn clone(&self) -> (r: Self)
        ensures
            r@ == self@,
    {
        Audio { kind: self.kind, blob: self.blob.clone() }
    }
}

/// A glossary to show: its tags, and its content rendered as HTML.
#[derive(Debug)]
pub struct Glossary {
    pub tags: Vec<GlossaryTag>,
    pub content: Vec<String>,
}

impl View for Glossary {
    type V = (Seq<GlossaryTag>, Seq<Seq<char>>);

    open spec fn view(&self) -> (Seq<GlossaryTag>, Seq<Seq<char>>) {
        (self.tags@, views(self.content@))
    }
}

/// A frequency to show.
#[derive(Debug)]
pub struct Frequency {
    pub value: Option<FrequencyValue>,
    pub display: Option<String>,
}

impl View for Frequency {
    type V = (Option<FrequencyValue>, Option<Seq<char>>);

    open spec fn view(&self) -> (Option<FrequencyValue>, Option<Seq<char>>) {
        (self.value, match self.display {
            Some(d) => Some(d@),
            None => None,
        })
    }
}

/// The view of a pitch record: position, nasal and devoiced morae.
pub open spec fn pitch_record_view(p: PitchRecord) -> (u64, Seq<u64>, Seq<u64>) {
    (p.position, p.nasal@, p.devoice@)
}

/// A pitch accent to show: which morae are high, the pitch record that gave
/// it if any, and the audio recorded with it.
#[derive(Debug)]
pub struct Pitch {
    pub high: Vec<bool>,
    pub info: Option<PitchRecord>,
    pub audio: Vec<Audio>,
}

impl View for Pitch {
    type V = (Seq<bool>, Option<(u64, Seq<u64>, Seq<u64>)>, Seq<(RecordKind, Seq<char>)>);

    open spec fn view(&self) -> (Seq<bool>, Option<(u64, Seq<u64>, Seq<u64>)>, Seq<(RecordKind, Seq<char>)>) {
        (self.high@, match self.info {
            Some(p) => Some(pitch_record_view(p)),
            None => None,
        }, self.audio@.map_values(|a: Audio| a@))
    }
}

/// Everything to show for one term.
#[derive(Debug)]
pub struct TermInfo {
    pub furigana_parts: Vec<(String, String)>,
    pub morae: Vec<String>,
    pub glossary_groups: Vec<(DictionaryId, Vec<Glossary>)>,
    pub frequencies: Vec<(DictionaryId, Vec<Frequency>)>,
    pub pitches: Vec<(u64, Pitch)>,
    pub audio_no_pitch: Vec<(DictionaryId, Vec<Audio>)>,
}

/// A term with everything to show for it.
#[derive(Debug)]
pub struct RecordTerm {
    pub term: Term,
    pub info: TermInfo,
}

/// Index of the group with key `k`, or `-1`.
pub open spec fn key_index<K, W>(g: Seq<(K, Seq<W>)>, k: K) -> int
    decreases g.len(),
{
    if g.len() == 0 {
        -1
    } else if g.last().0 == k {
        g.len() - 1
    } else {
        key_index(g.drop_last(), k)
    }
}

/// Adds `w` to the group with key `k`, or starts that group at the end.
pub open spec fn group_push<K, W>(g: Seq<(K, Seq<W>)>, k: K, w: W) -> Seq<(K, Seq<W>)> {
    let j = key_index(g, k);
    if j < 0 {
        g.push((k, seq![w]))
    } else {
        g.update(j, (k, g[j].1.push(w)))
    }
}

/// Items grouped by key: one group per key, in the order keys first occur,
/// each holding the items of its key in order.
pub open spec fn group_all<K, W>(items: Seq<(K, W)>) -> Seq<(K, Seq<W>)>
    decreases items.len(),
{
    if items.len() == 0 {
        Seq::empty()
    } else {
        group_push(group_all(items.drop_last()), items.last().0, items.last().1)
    }
}

proof fn lemma_key_index<K, W>(g: Seq<(K, Seq<W>)>, k: K)
    ensures
        -1 <= key_index(g, k) < g.len(),
        key_index(g, k) >= 0 ==> g[key_index(g, k)].0 == k,
        key_index(g, k) < 0 ==> forall|j: int| 0 <= j < g.len() ==> g[j].0 != k,
    decreases g.len(),
{
    if g.len() > 0 {
        lemma_key_index(g.drop_last(), k);
        if key_index(g, k) < 0 {
            assert forall|j: int| 0 <= j < g.len() implies g[j].0 != k by {
                if j < g.len() - 1 {
                    assert(g.drop_last()[j] == g[j]);
                }
            }
        }
    }
}

/// The view of groups of items.
pub open spec fn groups_view<K, V: View>(g: Seq<(K, Vec<V>)>) -> Seq<(K, Seq<V::V>)> {
    g.map_values(|e: (K, Vec<V>)| (e.0, e.1@.map_values(|v: V| v@)))
}

/// Adds `v` to the group of dictionary `k`.
fn push_grouped<V: View>(groups: &mut Vec<(DictionaryId, Vec<V>)>, k: DictionaryId, v: V)
    ensures
        groups_view(final(groups)@) == group_push(groups_view(old(groups)@), k, v@),
{
    let ghost g0 = groups_view(groups@);
    proof {
        lemma_key_index(g0, k);
    }
    let mut j = groups.len();
    proof {
        assert(g0.take(j as int) =~= g0);
    }
    while j > 0
        invariant
            j <= groups@.len(),
            groups@ == old(groups)@,
            g0 == groups_view(groups@),
            key_index(g0, k) == key_index(g0.take(j as int), k),
        decreases j,
    {
        proof {
            let t = g0.take(j as int);
            assert(t.drop_last() =~= g0.take(j as int - 1));
            assert(t.last() == g0[j as int - 1]);
        }
        if groups[j - 1].0.0 == k.0 {
            let ghost old_groups = groups@;
            let mut e = groups.remove(j - 1);
            let ghost before = e.1@;
            e.1.push(v);
            let ghost e2 = e;
            groups.insert(j - 1, e);
            proof {
                assert(key_index(g0, k) == j - 1);
                assert(groups@ =~= old_groups.update(j - 1, e2));
                assert(e2.0 == k);
                assert(e2.1@ =~= before.push(v));
                assert(e2.1@.map_values(|x: V| x@) =~= before.map_values(|x: V| x@).push(v@));
                assert(g0[j - 1].1 =~= before.map_values(|x: V| x@));
                assert(groups_view(groups@) =~= group_push(g0, k, v@));
            }
            return;
        }
        j = j - 1;
    }
    proof {
        assert(g0.take(0) =~= Seq::<(DictionaryId, Seq<V::V>)>::empty());
    }
    let mut items: Vec<V> = Vec::new();
    items.push(v);
    let ghost it = items;
    let ghost old_groups = groups@;
    groups.push((k, items));
    proof {
        assert(key_index(g0, k) == -1);
        assert(it@.map_values(|x: V| x@) =~= seq![v@]);
        assert(groups@ =~= old_groups.push((k, it)));
        assert(groups_view(groups@) =~= group_push(g0, k, v@));
    }
}

/// What a pitch record or a piece of audio adds to the pitch it is for.
pub type PitchEvent = (Option<(u64, Seq<u64>, Seq<u64>)>, Option<(RecordKind, Seq<char>)>);

/// The pitch record among `evs` that came last, if any.
pub open spec fn last_info(evs: Seq<PitchEvent>) -> Option<(u64, Seq<u64>, Seq<u64>)>
    decreases evs.len(),
{
    if evs.len() == 0 {
        None
    } else {
        match evs.last().0 {
            Some(i) => Some(i),
            None => last_info(evs.drop_last()),
        }
    }
}

/// The audio among `evs`, in order.
pub open spec fn event_audio(evs: Seq<PitchEvent>) -> Seq<(RecordKind, Seq<char>)>
    decreases evs.len(),
{
    if evs.len() == 0 {
        Seq::empty()
    } else {
        let rest = event_audio(evs.drop_last());
        match evs.last().1 {
            Some(a) => rest.push(a),
            None => rest,
        }
    }
}

/// Which morae of a reading are high for a downstep at `pos`: one entry for
/// each mora, and one more for a following particle. Nothing without a
/// reading.
pub open spec fn base_high(reading: Option<Seq<char>>, pos: u64) -> Seq<bool> {
    match reading {
        Some(r) => Seq::new(
            (morae_of(r).len() + 1) as nat,
            |k: int| high_at(offset_of(pos) as int, k),
        ),
        None => Seq::empty(),
    }
}

/// The pitch at `pos` for a term with `reading`, after the events `evs`.
pub open spec fn pitch_summary(reading: Option<Seq<char>>, pos: u64, evs: Seq<PitchEvent>) -> (
    Seq<bool>,
    Option<(u64, Seq<u64>, Seq<u64>)>,
    Seq<(RecordKind, Seq<char>)>,
) {
    (base_high(reading, pos), last_info(evs), event_audio(evs))
}

/// Pitches grouped by position, each summarized.
pub open spec fn pitches_view(reading: Option<Seq<char>>, g: Seq<(u64, Seq<PitchEvent>)>) -> Seq<
    (u64, (Seq<bool>, Option<(u64, Seq<u64>, Seq<u64>)>, Seq<(RecordKind, Seq<char>)>)),
> {
    g.map_values(|e: (u64, Seq<PitchEvent>)| (e.0, pitch_summary(reading, e.0, e.1)))
}

/// The view of pitches held by position.
pub open spec fn pitch_groups_view(p: Seq<(u64, Pitch)>) -> Seq<
    (u64, (Seq<bool>, Option<(u64, Seq<u64>, Seq<u64>)>, Seq<(RecordKind, Seq<char>)>)),
> {
    p.map_values(|e: (u64, Pitch)| (e.0, e.1@))
}

/// The pitch of `term` with its downstep at `downstep`, with no record or
/// audio yet: which morae of its reading are high (nothing if it has no
/// reading).
pub fn base_pitch(term: &Term, downstep: u64) -> (r: Pitch)
    ensures
        r@ == pitch_summary(term.reading_of(), downstep, Seq::empty()),
{
    let mut high: Vec<bool> = Vec::new();
    match term.reading() {
        None => {},
        Some(reading) => {
            let ds: usize = if downstep <= usize::MAX as u64 {
                downstep as usize
            } else {
                usize::MAX
            };
            let n = morae(reading.as_str()).len();
            proof {
                assert(ds == offset_of(downstep));
            }
            let mut k: usize = 0;
            loop
                invariant_except_break
                    k <= n,
                    high@ =~= Seq::new(k as nat, |j: int| high_at(ds as int, j)),
                invariant
                    ds == offset_of(downstep),
                ensures
                    high@ =~= Seq::new((n + 1) as nat, |j: int| high_at(ds as int, j)),
                decreases n - k,
            {
                high.push(is_high(ds, k));
                if k == n {
                    break;
                }
                k = k + 1;
            }
        },
    }
    let r = Pitch { high, info: None, audio: Vec::new() };
    proof {
        assert(r.audio@.map_values(|a: Audio| a@) =~= Seq::<(RecordKind, Seq<char>)>::empty());
    }
    r
}

/// The view of an optional pitch record.
pub open spec fn info_view(p: Option<PitchRecord>) -> Option<(u64, Seq<u64>, Seq<u64>)> {
    match p {
        Some(x) => Some(pitch_record_view(x)),
        None => None,
    }
}

/// The view of an optional piece of audio.
pub open spec fn audio_view(a: Option<Audio>) -> Option<(RecordKind, Seq<char>)> {
    match a {
        Some(x) => Some(x@),
        None => None,
    }
}

proof fn lemma_summary_push(reading: Option<Seq<char>>, pos: u64, evs: Seq<PitchEvent>, ev: PitchEvent)
    ensures
        pitch_summary(reading, pos, evs.push(ev)) == (
            base_high(reading, pos),
            match ev.0 {
                Some(i) => Some(i),
                None => last_info(evs),
            },
            match ev.1 {
                Some(a) => event_audio(evs).push(a),
                None => event_audio(evs),
            },
        ),
{
    assert(evs.push(ev).drop_last() =~= evs);
    assert(evs.push(ev).last() == ev);
}

fn copy_pitch_record(p: &PitchRecord) -> (r: PitchRecord)
    ensures
        pitch_record_view(r) == pitch_record_view(*p),
{
    PitchRecord { position: p.position, nasal: copy_u64s(&p.nasal), devoice: copy_u64s(&p.devoice) }
}

/// `p` with a pitch record or a piece of audio added.
fn apply_event(p: Pitch, info: Option<PitchRecord>, audio: Option<Audio>) -> (r: Pitch)
    ensures
        r@ == (
            p@.0,
            match info_view(info) {
                Some(i) => Some(i),
                None => p@.1,
            },
            match audio_view(audio) {
                Some(a) => p@.2.push(a),
                None => p@.2,
            },
        ),
{
    let mut q = p;
    match info {
        Some(x) => {
            q.info = Some(x);
        },
        None => {},
    }
    match audio {
        Some(a) => {
            let ghost au = q.audio@;
            q.audio.push(a);
            proof {
                assert(q.audio@.map_values(|x: Audio| x@) =~= au.map_values(|x: Audio| x@).push(a@));
            }
        },
        None => {},
    }
    q
}

/// Adds a pitch record or a piece of audio to the pitch at `pos`, starting
/// that pitch from [`base_pitch`] if there is none yet.
fn add_pitch_event(
    pitches: &mut Vec<(u64, Pitch)>,
    term: &Term,
    pos: u64,
    info: Option<PitchRecord>,
    audio: Option<Audio>,
    Ghost(g): Ghost<Seq<(u64, Seq<PitchEvent>)>>,
)
    requires
        pitch_groups_view(old(pitches)@) == pitches_view(term.reading_of(), g),
    ensures
        pitch_groups_view(final(pitches)@) == pitches_view(
            term.reading_of(),
            group_push(g, pos, (info_view(info), audio_view(audio))),
        ),
{
    let ghost rd = term.reading_of();
    let ghost ev = (info_view(info), audio_view(audio));
    proof {
        lemma_key_index(g, pos);
        assert(pitch_groups_view(pitches@).len() == g.len());
        assert forall|i: int| 0 <= i < g.len() implies #[trigger] pitches@[i].0 == g[i].0 by {
            assert(pitch_groups_view(pitches@)[i] == pitches_view(rd, g)[i]);
        }
    }
    let mut j = pitches.len();
    proof {
        assert(g.take(j as int) =~= g);
    }
    while j > 0
        invariant
            j <= pitches@.len(),
            pitches@ == old(pitches)@,
            pitches@.len() == g.len(),
            forall|i: int| 0 <= i < g.len() ==> #[trigger] pitches@[i].0 == g[i].0,
            key_index(g, pos) == key_index(g.take(j as int), pos),
            pitch_groups_view(pitches@) == pitches_view(term.reading_of(), g),
            rd == term.reading_of(),
            ev == (info_view(info), audio_view(audio)),
        decreases j,
    {
        proof {
            let t = g.take(j as int);
            assert(t.drop_last() =~= g.take(j as int - 1));
            assert(t.last() == g[j as int - 1]);
        }
        if pitches[j - 1].0 == pos {
            let ghost old_p = pitches@;
            let e = pitches.remove(j - 1);
            let ghost before = e.1@;
            let e = (e.0, apply_event(e.1, info, audio));
            let ghost e2 = e;
            pitches.insert(j - 1, e);
            proof {
                let jj = j - 1;
                assert(key_index(g, pos) == jj);
                assert(pitches@ =~= old_p.update(jj, e2));
                assert(pitch_groups_view(old_p)[jj] == pitches_view(rd, g)[jj]);
                assert(before == pitch_summary(rd, pos, g[jj].1));
                lemma_summary_push(rd, pos, g[jj].1, ev);
                assert(e2.1@ == pitch_summary(rd, pos, g[jj].1.push(ev)));
                assert(e2.0 == pos);
                let gp = group_push(g, pos, ev);
                assert(gp == g.update(jj, (pos, g[jj].1.push(ev))));
                assert forall|i: int| 0 <= i < g.len() implies #[trigger] pitch_groups_view(pitches@)[i]
                    == pitches_view(rd, gp)[i] by {
                    if i != jj {
                        assert(pitch_groups_view(old_p)[i] == pitches_view(rd, g)[i]);
                    }
                }
                assert(pitch_groups_view(pitches@) =~= pitches_view(rd, group_push(g, pos, ev)));
            }
            return;
        }
        j = j - 1;
    }
    proof {
        assert(g.take(0) =~= Seq::<(u64, Seq<PitchEvent>)>::empty());
        assert(key_index(g, pos) == -1);
    }
    let p = apply_event(base_pitch(term, pos), info, audio);
    let ghost old_p = pitches@;
    let ghost p2 = p;
    pitches.push((pos, p));
    proof {
        lemma_summary_push(rd, pos, Seq::empty(), ev);
        assert(seq![ev] =~= Seq::<PitchEvent>::empty().push(ev));
        assert(p2@ == pitch_summary(rd, pos, seq![ev]));
        assert(pitches@ =~= old_p.push((pos, p2)));
        let gp = group_push(g, pos, ev);
        assert(gp == g.push((pos, seq![ev])));
        assert forall|i: int| 0 <= i < g.len() + 1 implies #[trigger] pitch_groups_view(pitches@)[i]
            == pitches_view(rd, gp)[i] by {
            if i < g.len() {
                assert(pitch_groups_view(old_p)[i] == pitches_view(rd, g)[i]);
            }
        }
        assert(pitch_groups_view(pitches@) =~= pitches_view(rd, group_push(g, pos, ev)));
    }
}

/// The rendered glossaries of the entries for `t`, with their dictionaries.
pub open spec fn glossary_events(es: Seq<RecordEntry>, t: Term) -> Seq<
    (DictionaryId, (Seq<GlossaryTag>, Seq<Seq<char>>)),
>
    decreases es.len(),
{
    if es.len() == 0 {
        Seq::empty()
    } else {
        let rest = glossary_events(es.drop_last(), t);
        let e = es.last();
        match e.record {
            Record::YomitanGlossary(g) => if is_for(e, t) {
                rest.push((e.source, (g.tags@, g.content@.map_values(|c: crate::structured::Content| content_html(c)))))
            } else {
                rest
            },
            _ => rest,
        }
    }
}

/// The frequencies of the entries for `t`, with their dictionaries.
pub open spec fn frequency_events(es: Seq<RecordEntry>, t: Term) -> Seq<
    (DictionaryId, (Option<FrequencyValue>, Option<Seq<char>>)),
>
    decreases es.len(),
{
    if es.len() == 0 {
        Seq::empty()
    } else {
        let rest = frequency_events(es.drop_last(), t);
        let e = es.last();
        match e.record {
            Record::YomitanFrequency(f) => if is_for(e, t) {
                rest.push((e.source, (f.value, match f.display {
                    Some(d) => Some(d@),
                    None => None,
                })))
            } else {
                rest
            },
            _ => rest,
        }
    }
}

/// The audio of the entries for `t` that is not tied to a pitch, with its
/// dictionary: Forvo and JapanesePod101 audio, NHK audio without pitch
/// positions, and Shin Meikai audio without a pitch number.
pub open spec fn plain_audio_events(es: Seq<RecordEntry>, t: Term) -> Seq<
    (DictionaryId, (RecordKind, Seq<char>)),
>
    decreases es.len(),
{
    if es.len() == 0 {
        Seq::empty()
    } else {
        let rest = plain_audio_events(es.drop_last(), t);
        let e = es.last();
        if !is_for(e, t) {
            rest
        } else {
            match e.record {
                Record::YomichanAudioForvo(a) => rest.push(
                    (e.source, (RecordKind::YomichanAudioForvo, blob_of(a.audio))),
                ),
                Record::YomichanAudioJpod(a) => rest.push(
                    (e.source, (RecordKind::YomichanAudioJpod, blob_of(a.audio))),
                ),
                Record::YomichanAudioNhk16(a) => if a.pitch_positions@.len() == 0 {
                    rest.push((e.source, (RecordKind::YomichanAudioNhk16, blob_of(a.audio))))
                } else {
                    rest
                },
                Record::YomichanAudioShinmeikai8(a) => if a.pitch_number is None {
                    rest.push((e.source, (RecordKind::YomichanAudioShinmeikai8, blob_of(a.audio))))
                } else {
                    rest
                },
                _ => rest,
            }
        }
    }
}

/// Where an item lands when items are grouped by key: the group of its key,
/// which holds it.
proof fn group_of_item<K, W>(items: Seq<(K, W)>, i: int) -> (g: int)
    requires
        0 <= i < items.len(),
    ensures
        0 <= g < group_all(items).len(),
        group_all(items)[g].0 == items[i].0,
        group_all(items)[g].1.contains(items[i].1),
    decreases items.len(),
{
    let e = items.drop_last();
    let x = items.last();
    let ge = group_all(e);
    assert(items =~= e.push(x));
    lemma_group_all_push(e, x);
    lemma_key_index(ge, x.0);
    let j = key_index(ge, x.0);
    let gi = group_all(items);
    if i == items.len() - 1 {
        if j < 0 {
            assert(gi[ge.len() as int] == (x.0, seq![x.1]));
            assert(gi[ge.len() as int].1[0] == x.1);
            ge.len() as int
        } else {
            assert(gi[j] == (x.0, ge[j].1.push(x.1)));
            assert(gi[j].1[ge[j].1.len() as int] == x.1);
            j
        }
    } else {
        let g = group_of_item(e, i);
        assert(e[i] == items[i]);
        let w = choose|m: int| 0 <= m < ge[g].1.len() && ge[g].1[m] == items[i].1;
        if j >= 0 && g == j {
            assert(gi[g] == (x.0, ge[g].1.push(x.1)));
            assert(gi[g].1[w] == items[i].1);
        } else {
            assert(gi[g] == ge[g]);
        }
        g
    }
}

/// No audio of a term is dropped: each Forvo or JapanesePod101 record of an
/// entry for `t`, each NHK record without pitch positions and each Shin
/// Meikai record without a pitch number is among the term's plain audio,
/// with the entry's dictionary, the record's kind and the `data:` URL of its
/// audio.
pub proof fn lemma_plain_audio_kept(es: Seq<RecordEntry>, t: Term, i: int)
    requires
        0 <= i < es.len(),
        es[i].term.same_as(t),
    ensures
        es[i].record matches Record::YomichanAudioForvo(a) ==> plain_audio_events(es, t).contains(
            (es[i].source, (RecordKind::YomichanAudioForvo, blob_of(a.audio))),
        ),
        es[i].record matches Record::YomichanAudioJpod(a) ==> plain_audio_events(es, t).contains(
            (es[i].source, (RecordKind::YomichanAudioJpod, blob_of(a.audio))),
        ),
        es[i].record matches Record::YomichanAudioNhk16(a) ==> (a.pitch_positions@.len() == 0
            ==> plain_audio_events(es, t).contains(
            (es[i].source, (RecordKind::YomichanAudioNhk16, blob_of(a.audio))),
        )),
        es[i].record matches Record::YomichanAudioShinmeikai8(a) ==> (a.pitch_number is None
            ==> plain_audio_events(es, t).contains(
            (es[i].source, (RecordKind::YomichanAudioShinmeikai8, blob_of(a.audio))),
        )),
    decreases es.len(),
{
    let d = es.drop_last();
    let rest = plain_audio_events(d, t);
    let ev = plain_audio_events(es, t);
    if i < d.len() {
        assert(d[i] == es[i]);
        lemma_plain_audio_kept(d, t, i);
        assert forall|x: (DictionaryId, (RecordKind, Seq<char>))| rest.contains(x) implies ev.contains(x) by {
            let k = choose|k: int| 0 <= k < rest.len() && rest[k] == x;
            assert(ev[k] == rest[k]);
        }
    } else {
        match es[i].record {
            Record::YomichanAudioForvo(a) => {
                assert(ev[rest.len() as int] == (es[i].source, (RecordKind::YomichanAudioForvo, blob_of(a.audio))));
            },
            Record::YomichanAudioJpod(a) => {
                assert(ev[rest.len() as int] == (es[i].source, (RecordKind::YomichanAudioJpod, blob_of(a.audio))));
            },
            Record::YomichanAudioNhk16(a) => {
                if a.pitch_positions@.len() == 0 {
                    assert(ev[rest.len() as int] == (es[i].source, (RecordKind::YomichanAudioNhk16, blob_of(a.audio))));
                }
            },
            Record::YomichanAudioShinmeikai8(a) => {
                if a.pitch_number is None {
                    assert(ev[rest.len() as int] == (es[i].source, (RecordKind::YomichanAudioShinmeikai8, blob_of(a.audio))));
                }
            },
            _ => {},
        }
    }
}

/// One event per position, each adding the same piece of audio.
pub open spec fn audio_at(positions: Seq<u64>, a: (RecordKind, Seq<char>)) -> Seq<(u64, PitchEvent)> {
    positions.map_values(|p: u64| (p, (None, Some(a))))
}

/// What the entries for `t` add to its pitches, by position: pitch records,
/// NHK audio at each of its distinct pitch positions, and Shin Meikai audio
/// at its pitch number.
pub open spec fn pitch_events(es: Seq<RecordEntry>, t: Term) -> Seq<(u64, PitchEvent)>
    decreases es.len(),
{
    if es.len() == 0 {
        Seq::empty()
    } else {
        let rest = pitch_events(es.drop_last(), t);
        let e = es.last();
        if !is_for(e, t) {
            rest
        } else {
            match e.record {
                Record::YomitanPitch(p) => rest.push((p.position, (Some(pitch_record_view(p)), None))),
                Record::YomichanAudioNhk16(a) => rest + audio_at(
                    first_occurrences(a.pitch_positions@),
                    (RecordKind::YomichanAudioNhk16, blob_of(a.audio)),
                ),
                Record::YomichanAudioShinmeikai8(a) => match a.pitch_number {
                    Some(pos) => rest.push(
                        (pos, (None, Some((RecordKind::YomichanAudioShinmeikai8, blob_of(a.audio))))),
                    ),
                    None => rest,
                },
                _ => rest,
            }
        }
    }
}

/// The furigana parts shown for a term: for a full term, the given parts;
/// otherwise its only part, with no reading over it.
pub open spec fn furigana_view(t: Term, parts: Seq<(String, String)>) -> Seq<(Seq<char>, Seq<char>)> {
    match t {
        Term::Full { .. } => parts.map_values(|p: (String, String)| (p.0@, p.1@)),
        Term::Headword { headword } => seq![(headword@, Seq::<char>::empty())],
        Term::Reading { reading } => seq![(reading@, Seq::<char>::empty())],
    }
}

/// The morae of a term's reading, or none.
pub open spec fn term_morae(t: Term) -> Seq<Seq<char>> {
    match t.reading_of() {
        Some(r) => morae_of(r),
        None => Seq::empty(),
    }
}

/// The items of `v` without repeats, each where it first occurs.
pub fn distinct_u64(v: &Vec<u64>) -> (r: Vec<u64>)
    ensures
        r@ == first_occurrences(v@),
{
    let mut out: Vec<u64> = Vec::new();
    let mut i: usize = 0;
    while i < v.len()
        invariant
            i <= v@.len(),
            out@ == first_occurrences(v@.take(i as int)),
        decreases v@.len() - i,
    {
        let x = v[i];
        let mut found = false;
        let mut k: usize = 0;
        while k < out.len()
            invariant
                k <= out@.len(),
                found == (exists|m: int| 0 <= m < k && out@[m] == x),
            decreases out@.len() - k,
        {
            if out[k] == x {
                found = true;
            }
            k = k + 1;
        }
        proof {
            let t = v@.take(i as int + 1);
            assert(t.drop_last() =~= v@.take(i as int));
            assert(t.last() == x);
            if found {
                let m = choose|m: int| 0 <= m < out@.len() && out@[m] == x;
                assert(out@.contains(x));
            } else {
                assert(!out@.contains(x));
            }
        }
        if !found {
            out.push(x);
        }
        i = i + 1;
    }
    proof {
        assert(v@.take(v@.len() as int) =~= v@);
    }
    out
}

fn copy_tags(tags: &Vec<GlossaryTag>) -> (r: Vec<GlossaryTag>)
    ensures
        r@ == tags@,
{
    let mut out: Vec<GlossaryTag> = Vec::new();
    let mut i: usize = 0;
    while i < tags.len()
        invariant
            i <= tags@.len(),
            out@ == tags@.take(i as int),
        decreases tags@.len() - i,
    {
        out.push(tags[i].clone());
        proof {
            assert(tags@.take(i as int + 1) =~= tags@.take(i as int).push(tags@[i as int]));
        }
        i = i + 1;
    }
    proof {
        assert(tags@.take(tags@.len() as int) =~= tags@);
    }
    out
}

/// A glossary record ready to show: its tags, and its content as HTML.
fn render_glossary(g: &crate::dict::yomitan::Glossary) -> (r: Glossary)
    ensures
        r@ == (g.tags@, g.content@.map_values(|c: crate::structured::Content| content_html(c))),
{
    let mut content: Vec<String> = Vec::new();
    let mut i: usize = 0;
    while i < g.content.len()
        invariant
            i <= g.content@.len(),
            views(content@) == g.content@.take(i as int).map_values(
                |c: crate::structured::Content| content_html(c),
            ),
        decreases g.content@.len() - i,
    {
        let h = g.content[i].render();
        let ghost before = content@;
        content.push(h);
        proof {
            assert(views(content@) =~= views(before).push(h@));
            assert(g.content@.take(i as int + 1) =~= g.content@.take(i as int).push(g.content@[i as int]));
            assert(g.content@.take(i as int + 1).map_values(|c: crate::structured::Content| content_html(c))
                =~= g.content@.take(i as int).map_values(|c: crate::structured::Content| content_html(c)).push(
                content_html(g.content@[i as int]),
            ));
        }
        i = i + 1;
    }
    proof {
        assert(g.content@.take(g.content@.len() as int) =~= g.content@);
    }
    Glossary { tags: copy_tags(&g.tags), content }
}

fn copy_opt_string(o: &Option<String>) -> (r: Option<String>)
    ensures
        match r {
            Some(s) => o is Some && s@ == o->0@,
            None => o is None,
        },
{
    match o {
        Some(s) => Some(s.clone()),
        None => None,
    }
}

proof fn lemma_group_all_push<K, W>(e: Seq<(K, W)>, x: (K, W))
    ensures
        group_all(e.push(x)) == group_push(group_all(e), x.0, x.1),
{
    assert(e.push(x).drop_last() =~= e);
    assert(e.push(x).last() == x);
}

fn copy_parts(parts: &Vec<(String, String)>) -> (r: Vec<(String, String)>)
    ensures
        r@.map_values(|p: (String, String)| (p.0@, p.1@)) == parts@.map_values(
            |p: (String, String)| (p.0@, p.1@),
        ),
{
    let mut out: Vec<(String, String)> = Vec::new();
    let mut i: usize = 0;
    while i < parts.len()
        invariant
            i <= parts@.len(),
            out@.map_values(|p: (String, String)| (p.0@, p.1@)) == parts@.take(i as int).map_values(
                |p: (String, String)| (p.0@, p.1@),
            ),
        decreases parts@.len() - i,
    {
        let (ref a, ref b) = parts[i];
        let ghost before = out@;
        out.push((a.clone(), b.clone()));
        proof {
            assert(out@.map_values(|p: (String, String)| (p.0@, p.1@)) =~= before.map_values(
                |p: (String, String)| (p.0@, p.1@),
            ).push((a@, b@)));
            assert(parts@.take(i as int + 1) =~= parts@.take(i as int).push(parts@[i as int]));
            assert(parts@.take(i as int + 1).map_values(|p: (String, String)| (p.0@, p.1@))
                =~= parts@.take(i as int).map_values(|p: (String, String)| (p.0@, p.1@)).push(
                (a@, b@),
            ));
        }
        i = i + 1;
    }
    proof {
        assert(parts@.take(parts@.len() as int) =~= parts@);
    }
    out
}

/// The furigana parts shown for `term` (see [`furigana_view`]).
fn term_furigana(term: &Term, parts: &Vec<(String, String)>) -> (r: Vec<(String, String)>)
    ensures
        r@.map_values(|p: (String, String)| (p.0@, p.1@)) == furigana_view(*term, parts@),
{
    match term {
        Term::Full { .. } => copy_parts(parts),
        Term::Headword { headword } => {
            let r = vec![(headword.as_str().to_owned(), String::new())];
            proof {
                assert(r@.map_values(|p: (String, String)| (p.0@, p.1@)) =~= furigana_view(*term, parts@));
            }
            r
        },
        Term::Reading { reading } => {
            let r = vec![(reading.as_str().to_owned(), String::new())];
            proof {
                assert(r@.map_values(|p: (String, String)| (p.0@, p.1@)) =~= furigana_view(*term, parts@));
            }
            r
        },
    }
}

/// Everything to show for `term`, from the entries for it among `entries`:
/// `parts` are its furigana parts when it is a full term.
///
/// Glossaries, frequencies and audio without a pitch are grouped by
/// dictionary, in the order dictionaries first occur. Pitch records and
/// audio with a pitch are grouped by pitch position, each group starting from
/// [`base_pitch`]: a pitch keeps the last record for it, and all its audio.
/// NHK audio is added once for each of its distinct pitch positions, in the
/// order they first occur.
pub fn term_info(entries: &Vec<RecordEntry>, term: &Term, parts: &Vec<(String, String)>) -> (r: TermInfo)
    ensures
        r.furigana_parts@.map_values(|p: (String, String)| (p.0@, p.1@)) == furigana_view(*term, parts@),
        views(r.morae@) == term_morae(*term),
        groups_view(r.glossary_groups@) == group_all(glossary_events(entries@, *term)),
        groups_view(r.frequencies@) == group_all(frequency_events(entries@, *term)),
        groups_view(r.audio_no_pitch@) == group_all(plain_audio_events(entries@, *term)),
        pitch_groups_view(r.pitches@) == pitches_view(
            term.reading_of(),
            group_all(pitch_events(entries@, *term)),
        ),
{
    let ghost rd = term.reading_of();
    let mut gl: Vec<(DictionaryId, Vec<Glossary>)> = Vec::new();
    let mut fr: Vec<(DictionaryId, Vec<Frequency>)> = Vec::new();
    let mut au: Vec<(DictionaryId, Vec<Audio>)> = Vec::new();
    let mut pi: Vec<(u64, Pitch)> = Vec::new();
    let mut i: usize = 0;
    proof {
        assert(groups_view(gl@) =~= Seq::<(DictionaryId, Seq<(Seq<GlossaryTag>, Seq<Seq<char>>)>)>::empty());
        assert(groups_view(fr@) =~= Seq::<(DictionaryId, Seq<(Option<FrequencyValue>, Option<Seq<char>>)>)>::empty());
        assert(groups_view(au@) =~= Seq::<(DictionaryId, Seq<(RecordKind, Seq<char>)>)>::empty());
        assert(pitch_groups_view(pi@) =~= pitches_view(rd, Seq::empty()));
    }
    while i < entries.len()
        invariant
            i <= entries@.len(),
            rd == term.reading_of(),
            groups_view(gl@) == group_all(glossary_events(entries@.take(i as int), *term)),
            groups_view(fr@) == group_all(frequency_events(entries@.take(i as int), *term)),
            groups_view(au@) == group_all(plain_audio_events(entries@.take(i as int), *term)),
            pitch_groups_view(pi@) == pitches_view(rd, group_all(pitch_events(entries@.take(i as int), *term))),
        decreases entries@.len() - i,
    {
        let e = &entries[i];
        let ghost t0 = entries@.take(i as int);
        let ghost t1 = entries@.take(i as int + 1);
        proof {
            assert(t1.drop_last() =~= t0);
            assert(t1.last() == entries@[i as int]);
        }
        if e.term.same(term) {
            match &e.record {
                Record::YomitanGlossary(g) => {
                    let item = render_glossary(g);
                    proof {
                        lemma_group_all_push(glossary_events(t0, *term), (e.source, item@));
                    }
                    push_grouped(&mut gl, e.source, item);
                },
                Record::YomitanFrequency(f) => {
                    let item = Frequency { value: f.value, display: copy_opt_string(&f.display) };
                    proof {
                        lemma_group_all_push(frequency_events(t0, *term), (e.source, item@));
                    }
                    push_grouped(&mut fr, e.source, item);
                },
                Record::YomitanPitch(p) => {
                    let info = copy_pitch_record(p);
                    proof {
                        lemma_group_all_push(
                            pitch_events(t0, *term),
                            (p.position, (Some(pitch_record_view(*p)), None)),
                        );
                    }
                    add_pitch_event(&mut pi, term, p.position, Some(info), None, Ghost(group_all(pitch_events(t0, *term))));
                },
                Record::YomichanAudioForvo(a) => {
                    let item = Audio { kind: RecordKind::YomichanAudioForvo, blob: audio_blob(&a.audio) };
                    proof {
                        lemma_group_all_push(plain_audio_events(t0, *term), (e.source, item@));
                    }
                    push_grouped(&mut au, e.source, item);
                },
                Record::YomichanAudioJpod(a) => {
                    let item = Audio { kind: RecordKind::YomichanAudioJpod, blob: audio_blob(&a.audio) };
                    proof {
                        lemma_group_all_push(plain_audio_events(t0, *term), (e.source, item@));
                    }
                    push_grouped(&mut au, e.source, item);
                },
                Record::YomichanAudioNhk16(a) => {
                    let conv = Audio { kind: RecordKind::YomichanAudioNhk16, blob: audio_blob(&a.audio) };
                    if a.pitch_positions.len() == 0 {
                        proof {
                            lemma_group_all_push(plain_audio_events(t0, *term), (e.source, conv@));
                            assert(audio_at(first_occurrences(a.pitch_positions@), conv@) =~= Seq::empty());
                            assert(a.pitch_positions@ =~= Seq::<u64>::empty());
                            assert(first_occurrences(a.pitch_positions@) =~= Seq::<u64>::empty());
                            assert(pitch_events(t1, *term) =~= pitch_events(t0, *term));
                        }
                        push_grouped(&mut au, e.source, conv);
                    } else {
                        let ds = distinct_u64(&a.pitch_positions);
                        let ghost pre = pitch_events(t0, *term);
                        let mut k: usize = 0;
                        proof {
                            assert(pre + audio_at(ds@.take(0), conv@) =~= pre);
                        }
                        while k < ds.len()
                            invariant
                                k <= ds@.len(),
                                rd == term.reading_of(),
                                pitch_groups_view(pi@) == pitches_view(rd, group_all(pre + audio_at(ds@.take(k as int), conv@))),
                            decreases ds@.len() - k,
                        {
                            let ghost cur = pre + audio_at(ds@.take(k as int), conv@);
                            let ev_audio = conv.clone();
                            proof {
                                assert(pre + audio_at(ds@.take(k as int + 1), conv@) =~= cur.push(
                                    (ds@[k as int], (None, Some(conv@))),
                                ));
                                lemma_group_all_push(cur, (ds@[k as int], (None, Some(conv@))));
                            }
                            add_pitch_event(&mut pi, term, ds[k], None, Some(ev_audio), Ghost(group_all(cur)));
                            k = k + 1;
                        }
                        proof {
                            assert(ds@.take(ds@.len() as int) =~= ds@);
                            assert(plain_audio_events(t1, *term) =~= plain_audio_events(t0, *term));
                        }
                    }
                },
                Record::YomichanAudioShinmeikai8(a) => {
                    let conv = Audio { kind: RecordKind::YomichanAudioShinmeikai8, blob: audio_blob(&a.audio) };
                    match a.pitch_number {
                        Some(pos) => {
                            proof {
                                lemma_group_all_push(pitch_events(t0, *term), (pos, (None, Some(conv@))));
                            }
                            add_pitch_event(&mut pi, term, pos, None, Some(conv), Ghost(group_all(pitch_events(t0, *term))));
                        },
                        None => {
                            proof {
                                lemma_group_all_push(plain_audio_events(t0, *term), (e.source, conv@));
                            }
                            push_grouped(&mut au, e.source, conv);
                        },
                    }
                },
            }
        }
        i = i + 1;
    }
    proof {
        assert(entries@.take(entries@.len() as int) =~= entries@);
    }
    let morae_list = match term.reading() {
        Some(r) => morae(r.as_str()),
        None => {
            let v: Vec<String> = Vec::new();
            proof {
                assert(views(v@) =~= Seq::<Seq<char>>::empty());
            }
            v
        },
    };
    TermInfo {
        furigana_parts: term_furigana(term, parts),
        morae: morae_list,
        glossary_groups: gl,
        frequencies: fr,
        pitches: pi,
        audio_no_pitch: au,
    }
}

/// Whether `info` is what is shown for term `t` given the entries `es` and
/// the furigana parts `parts` (see [`term_info`]).
pub open spec fn info_ok(info: TermInfo, es: Seq<RecordEntry>, t: Term, parts: Seq<(String, String)>) -> bool {
    &&& info.furigana_parts@.map_values(|p: (String, String)| (p.0@, p.1@)) == furigana_view(t, parts)
    &&& views(info.morae@) == term_morae(t)
    &&& groups_view(info.glossary_groups@) == group_all(glossary_events(es, t))
    &&& groups_view(info.frequencies@) == group_all(frequency_events(es, t))
    &&& groups_view(info.audio_no_pitch@) == group_all(plain_audio_events(es, t))
    &&& pitch_groups_view(info.pitches@) == pitches_view(t.reading_of(), group_all(pitch_events(es, t)))
}

/// The audio group of a dictionary holds the audio.
pub open spec fn group_has_audio(groups: Seq<(DictionaryId, Vec<Audio>)>, source: DictionaryId, a: (
    RecordKind,
    Seq<char>,
)) -> bool {
    exists|g: int|
        0 <= g < groups.len() && (#[trigger] groups[g]).0 == source && groups[g].1@.map_values(
            |v: Audio| v@,
        ).contains(a)
}

/// What is shown for a term keeps all of its plain audio: the Forvo and
/// JapanesePod101 audio of each entry for the term (and the NHK and Shin
/// Meikai audio not tied to a pitch) is in the audio group of the entry's
/// dictionary, as its kind and `data:` URL.
pub proof fn lemma_term_info_keeps_audio(
    info: TermInfo,
    es: Seq<RecordEntry>,
    t: Term,
    parts: Seq<(String, String)>,
    i: int,
)
    requires
        info_ok(info, es, t, parts),
        0 <= i < es.len(),
        es[i].term.same_as(t),
    ensures
        es[i].record matches Record::YomichanAudioForvo(a) ==> group_has_audio(
            info.audio_no_pitch@,
            es[i].source,
            (RecordKind::YomichanAudioForvo, blob_of(a.audio)),
        ),
        es[i].record matches Record::YomichanAudioJpod(a) ==> group_has_audio(
            info.audio_no_pitch@,
            es[i].source,
            (RecordKind::YomichanAudioJpod, blob_of(a.audio)),
        ),
        es[i].record matches Record::YomichanAudioNhk16(a) ==> (a.pitch_positions@.len() == 0
            ==> group_has_audio(
            info.audio_no_pitch@,
            es[i].source,
            (RecordKind::YomichanAudioNhk16, blob_of(a.audio)),
        )),
        es[i].record matches Record::YomichanAudioShinmeikai8(a) ==> (a.pitch_number is None
            ==> group_has_audio(
            info.audio_no_pitch@,
            es[i].source,
            (RecordKind::YomichanAudioShinmeikai8, blob_of(a.audio)),
        )),
{
    let ev = plain_audio_events(es, t);
    let gs = info.audio_no_pitch@;
    lemma_plain_audio_kept(es, t, i);
    let ghost x: (RecordKind, Seq<char>) = match es[i].record {
        Record::YomichanAudioForvo(a) => (RecordKind::YomichanAudioForvo, blob_of(a.audio)),
        Record::YomichanAudioJpod(a) => (RecordKind::YomichanAudioJpod, blob_of(a.audio)),
        Record::YomichanAudioNhk16(a) => (RecordKind::YomichanAudioNhk16, blob_of(a.audio)),
        Record::YomichanAudioShinmeikai8(a) => (RecordKind::YomichanAudioShinmeikai8, blob_of(a.audio)),
        _ => (RecordKind::YomichanAudioForvo, Seq::empty()),
    };
    if ev.contains((es[i].source, x)) {
        let k = choose|k: int| 0 <= k < ev.len() && ev[k] == (es[i].source, x);
        let g = group_of_item(ev, k);
        assert(groups_view(gs) == group_all(ev));
        assert(groups_view(gs)[g] == (gs[g].0, gs[g].1@.map_values(|v: Audio| v@)));
        assert(group_has_audio(gs, es[i].source, x));
    }
}

/// Whether the term of some entry at one of `idxs` is the same as `t`.
pub open spec fn seen(es: Seq<RecordEntry>, idxs: Seq<int>, t: Term) -> bool {
    exists|j: int| 0 <= j < idxs.len() && (#[trigger] es[idxs[j]]).term.same_as(t)
}

/// The index of the first entry of each distinct term, in order.
pub open spec fn first_entries(es: Seq<RecordEntry>) -> Seq<int>
    decreases es.len(),
{
    if es.len() == 0 {
        Seq::empty()
    } else {
        let rest = first_entries(es.drop_last());
        if seen(es, rest, es.last().term) {
            rest
        } else {
            rest.push(es.len() - 1)
        }
    }
}

proof fn lemma_first_entries_bound(es: Seq<RecordEntry>)
    ensures
        forall|j: int| 0 <= j < first_entries(es).len() ==> 0 <= #[trigger] first_entries(es)[j] < es.len(),
    decreases es.len(),
{
    if es.len() > 0 {
        lemma_first_entries_bound(es.drop_last());
        let rest = first_entries(es.drop_last());
        assert forall|j: int| 0 <= j < first_entries(es).len() implies 0 <= #[trigger] first_entries(es)[j] < es.len() by {
            if j < rest.len() {
                assert(first_entries(es)[j] == rest[j]);
            }
        }
    }
}

/// Grouping by term gives each term one group: groups come in the order
/// their terms first occur, and the terms of two groups differ.
#[verifier::spinoff_prover]
#[verifier::rlimit(40)]
pub proof fn lemma_first_entries_distinct(es: Seq<RecordEntry>)
    ensures
        forall|a: int, b: int|
            0 <= a < b < first_entries(es).len() ==> first_entries(es)[a] < first_entries(es)[b]
                && !es[#[trigger] first_entries(es)[a]].term.same_as(
                es[#[trigger] first_entries(es)[b]].term,
            ),
    decreases es.len(),
{
    if es.len() > 0 {
        let d = es.drop_last();
        let rest = first_entries(d);
        let f = first_entries(es);
        let last = es.len() - 1;
        lemma_first_entries_distinct(d);
        lemma_first_entries_bound(d);
        if !seen(es, rest, es.last().term) {
            assert(f == rest.push(last));
            assert forall|a: int, b: int| 0 <= a < b < f.len() implies f[a] < f[b] && !es[
                #[trigger] f[a]
            ].term.same_as(es[#[trigger] f[b]].term) by {
                assert(f[a] == rest[a]);
                assert(0 <= rest[a] < d.len());
                assert(es[rest[a]] == d[rest[a]]);
                if b < rest.len() {
                    assert(f[b] == rest[b]);
                    assert(0 <= rest[b] < d.len());
                    assert(es[rest[b]] == d[rest[b]]);
                } else {
                    assert(f[b] == last);
                    if es[f[a]].term.same_as(es[f[b]].term) {
                        assert(seen(es, rest, es.last().term));
                    }
                }
            }
        } else {
            assert forall|a: int, b: int| 0 <= a < b < f.len() implies f[a] < f[b] && !es[
                #[trigger] f[a]
            ].term.same_as(es[#[trigger] f[b]].term) by {
                assert(0 <= rest[a] < d.len() && 0 <= rest[b] < d.len());
                assert(es[rest[a]] == d[rest[a]]);
                assert(es[rest[b]] == d[rest[b]]);
            }
        }
    }
}

/// The group of entry `k`: a group whose first entry is at or before `k`
/// and has the same term.
proof fn group_of_entry(es: Seq<RecordEntry>, k: int) -> (g: int)
    requires
        0 <= k < es.len(),
    ensures
        0 <= g < first_entries(es).len(),
        first_entries(es)[g] <= k,
        es[first_entries(es)[g]].term.same_as(es[k].term),
    decreases es.len(),
{
    let d = es.drop_last();
    let rest = first_entries(d);
    let last = es.len() - 1;
    lemma_first_entries_bound(d);
    if k < last {
        let g = group_of_entry(d, k);
        assert(0 <= rest[g] < d.len());
        assert(es[rest[g]] == d[rest[g]]);
        assert(d[k] == es[k]);
        if seen(es, rest, es.last().term) {
            assert(first_entries(es) == rest);
        } else {
            assert(first_entries(es) == rest.push(last));
            assert(first_entries(es)[g] == rest[g]);
        }
        g
    } else if seen(es, rest, es.last().term) {
        let j = choose|j: int| 0 <= j < rest.len() && (#[trigger] es[rest[j]]).term.same_as(
            es.last().term,
        );
        assert(first_entries(es) == rest);
        assert(0 <= rest[j] < d.len());
        j
    } else {
        assert(first_entries(es) == rest.push(last));
        rest.len() as int
    }
}

/// Every entry belongs to a group: its term is the term of a group that
/// starts at or before it.
pub proof fn lemma_first_entries_cover(es: Seq<RecordEntry>)
    ensures
        forall|k: int|
            0 <= k < es.len() ==> exists|g: int|
                0 <= g < first_entries(es).len() && first_entries(es)[g] <= k && (#[trigger] es[
                    first_entries(es)[g]
                ]).term.same_as((#[trigger] es[k]).term),
{
    assert forall|k: int| 0 <= k < es.len() implies exists|g: int|
        0 <= g < first_entries(es).len() && first_entries(es)[g] <= k && (#[trigger] es[
            first_entries(es)[g]
        ]).term.same_as((#[trigger] es[k]).term) by {
        let g = group_of_entry(es, k);
        assert(es[first_entries(es)[g]].term.same_as(es[k].term));
    }
}

/// The furigana parts given for entry `f`, or none.
pub open spec fn parts_for(furigana: Seq<Vec<(String, String)>>, f: int) -> Seq<(String, String)> {
    if 0 <= f < furigana.len() {
        furigana[f]@
    } else {
        Seq::empty()
    }
}

/// The lookup results grouped by term: one group for each distinct term, in
/// the order terms first occur, with everything to show for it (see
/// [`term_info`]). `furigana` gives, for each entry, the furigana parts of
/// its term when it is a full term.
pub fn group_terms(entries: &Vec<RecordEntry>, furigana: &Vec<Vec<(String, String)>>) -> (r: Vec<RecordTerm>)
    ensures
        r@.len() == first_entries(entries@).len(),
        forall|g: int|
            0 <= g < r@.len() ==> {
                let f = first_entries(entries@)[g];
                &&& (#[trigger] r@[g]).term == entries@[f].term
                &&& info_ok(r@[g].info, entries@, entries@[f].term, parts_for(furigana@, f))
            },
{
    let mut firsts: Vec<usize> = Vec::new();
    let mut i: usize = 0;
    while i < entries.len()
        invariant
            i <= entries@.len(),
            firsts@.map_values(|x: usize| x as int) == first_entries(entries@.take(i as int)),
            forall|j: int| 0 <= j < firsts@.len() ==> #[trigger] firsts@[j] < i,
        decreases entries@.len() - i,
    {
        let ghost t0 = entries@.take(i as int);
        let ghost t1 = entries@.take(i as int + 1);
        let ghost idx = firsts@.map_values(|x: usize| x as int);
        proof {
            assert(t1.drop_last() =~= t0);
            assert(t1.last() == entries@[i as int]);
        }
        let mut found = false;
        let mut k: usize = 0;
        while k < firsts.len()
            invariant
                k <= firsts@.len(),
                i < entries@.len(),
                idx == firsts@.map_values(|x: usize| x as int),
                forall|j: int| 0 <= j < firsts@.len() ==> #[trigger] firsts@[j] < i,
                t1 == entries@.take(i as int + 1),
                found == (exists|j: int| 0 <= j < k && (#[trigger] t1[idx[j]]).term.same_as(entries@[i as int].term)),
            decreases firsts@.len() - k,
        {
            let f = firsts[k];
            proof {
                assert(idx[k as int] == f as int);
                assert(t1[f as int] == entries@[f as int]);
            }
            if entries[f].term.same(&entries[i].term) {
                found = true;
            }
            k = k + 1;
        }
        proof {
            assert(seen(t1, idx, t1.last().term) == found);
        }
        if !found {
            let ghost before = firsts@;
            firsts.push(i);
            proof {
                assert(firsts@.map_values(|x: usize| x as int) =~= idx.push(i as int));
            }
        }
        i = i + 1;
    }
    proof {
        assert(entries@.take(entries@.len() as int) =~= entries@);
        lemma_first_entries_bound(entries@);
    }
    let ghost fe = first_entries(entries@);
    let empty: Vec<(String, String)> = Vec::new();
    let mut out: Vec<RecordTerm> = Vec::new();
    let mut g: usize = 0;
    while g < firsts.len()
        invariant
            g <= firsts@.len(),
            fe == first_entries(entries@),
            firsts@.map_values(|x: usize| x as int) == fe,
            forall|j: int| 0 <= j < firsts@.len() ==> #[trigger] firsts@[j] < entries@.len(),
            out@.len() == g,
            empty@.len() == 0,
            forall|h: int|
                0 <= h < g ==> {
                    let f = fe[h];
                    &&& (#[trigger] out@[h]).term == entries@[f].term
                    &&& info_ok(out@[h].info, entries@, entries@[f].term, parts_for(furigana@, f))
                },
        decreases firsts@.len() - g,
    {
        let f = firsts[g];
        proof {
            assert(fe[g as int] == f as int);
        }
        let term = entries[f].term.clone();
        let parts = if f < furigana.len() {
            &furigana[f]
        } else {
            &empty
        };
        proof {
            assert(parts@ == parts_for(furigana@, f as int));
        }
        let info = term_info(entries, &term, parts);
        out.push(RecordTerm { term, info });
        g = g + 1;
    }
    out
}

/// Text and script templates the HTML of lookup results is rendered with.
#[derive(Debug, Clone)]
pub struct RenderConfig {
    /// Translated text "Add Note".
    pub s_add_note: String,
    pub s_view_note: String,
    pub s_add_duplicate_note: String,
    /// Script template that gets how many Anki notes already exist for a
    /// term.
    pub fn_num_existing_notes: String,
    /// Script template that adds an Anki note for a term.
    pub fn_add_new_note: String,
    pub fn_add_duplicate_note: String,
    pub fn_view_note: String,
}

} // verus!
