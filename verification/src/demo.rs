//! The demo song's MIDI content.
//!
//! Four bars of Am–F–C–G at any resolution: the first two-track
//! arrangement (a 16th-note arpeggio over a bass groove) and the seeded
//! three-track one (sustained pad chords, a plucked 8th-note lead, the same
//! bass groove). Note ids are assigned in order from 1, so every clip comes
//! back with `next_note_id` one past its last note.

use vstd::prelude::*;
use crate::op::{ObjectKey, ObjectRef, Op, PropPath, WireKey, WireValue};
use crate::ops::{fresh_row, is_fresh_row_named};
use crate::text::{fresh_id, copy_string};
use crate::types::{MidiClip, MidiNote, PluginInstanceInfo, TrackState};

verus! {

// ---------------------------------------------------------------------------
// The music, as tables
// ---------------------------------------------------------------------------

/// The arpeggio's four-note chord in bar `b`: Am, F, C, G.
pub open spec fn arp_chord(b: int) -> Seq<u8> {
    if b == 0 { seq![57u8, 60, 64, 69] }
    else if b == 1 { seq![53u8, 57, 60, 65] }
    else if b == 2 { seq![48u8, 52, 55, 60] }
    else { seq![55u8, 59, 62, 67] }
}

/// The bass root in bar `b`: A1, F1, C2, G1.
pub open spec fn bass_root(b: int) -> u8 {
    if b == 0 { 33 } else if b == 1 { 29 } else if b == 2 { 36 } else { 31 }
}

/// The eighth-note steps of a bar the bass plays (it rests on 3 and 6).
pub open spec fn groove_step(k: int) -> int {
    if k == 0 { 0 } else if k == 1 { 1 } else if k == 2 { 2 } else if k == 3 { 4 } else if k == 4 { 5 } else { 7 }
}

/// The pad's three-note voicing in bar `b`: Am, F, C (second inversion), G.
pub open spec fn pad_chord(b: int) -> Seq<u8> {
    if b == 0 { seq![57u8, 60, 64] }
    else if b == 1 { seq![53u8, 57, 60] }
    else if b == 2 { seq![55u8, 60, 64] }
    else { seq![55u8, 59, 62] }
}

/// The lead's eight-note phrase in bar `b`.
pub open spec fn lead_phrase(b: int) -> Seq<u8> {
    if b == 0 { seq![69u8, 72, 76, 72, 69, 76, 74, 72] }
    else if b == 1 { seq![67u8, 69, 72, 69, 65, 69, 72, 74] }
    else if b == 2 { seq![76u8, 74, 72, 67, 64, 67, 72, 74] }
    else { seq![71u8, 74, 79, 74, 71, 67, 69, 71] }
}

// ---------------------------------------------------------------------------
// The notes
// ---------------------------------------------------------------------------

/// Note `j` (of 64) of the arpeggio: bar `j / 16`, 16th step `s = j % 16`.
/// Each half bar walks the chord up (steps 0–3 of every 8) and then back
/// down an octave higher; downbeats are accented.
pub open spec fn arp_note(ppq: u32, j: int) -> MidiNote {
    let b = j / 16;
    let s = j % 16;
    let step = ppq / 4;
    let rising = s % 8 < 4;
    let idx = if rising { s % 4 } else { 3 - s % 4 };
    MidiNote {
        tick: (b * (4 * ppq) + s * step) as u32,
        length_ticks: (step * 9 / 10) as u32,
        key: (arp_chord(b)[idx] + if rising { 0int } else { 12int }) as u8,
        velocity: if s % 4 == 0 { 110 } else { 84 },
        channel: 0,
        note_id: (j + 1) as u64,
    }
}

/// Note `j` (of 24) of the bass groove: bar `j / 6`, eighth step
/// `groove_step(j % 6)`; the root, pushed up an octave on steps 2 of each
/// half bar, the downbeat accented.
pub open spec fn groove_note(ppq: u32, j: int) -> MidiNote {
    let b = j / 6;
    let s = groove_step(j % 6);
    let eighth = ppq / 2;
    MidiNote {
        tick: (b * (4 * ppq) + s * eighth) as u32,
        length_ticks: (eighth * 8 / 10) as u32,
        key: (bass_root(b) + if s % 4 == 2 { 12int } else { 0int }) as u8,
        velocity: if s == 0 { 118 } else { 92 },
        channel: 0,
        note_id: (j + 1) as u64,
    }
}

/// Note `j` (of 12) of the pad: the chord of bar `j / 3`, held 95% of the
/// bar.
pub open spec fn pad_note(ppq: u32, j: int) -> MidiNote {
    let b = j / 3;
    MidiNote {
        tick: (b * (4 * ppq)) as u32,
        length_ticks: (4 * ppq * 95 / 100) as u32,
        key: pad_chord(b)[j % 3],
        velocity: 72,
        channel: 0,
        note_id: (j + 1) as u64,
    }
}

/// Note `j` (of 32) of the lead: bar `j / 8`, eighth step `j % 8`, short
/// notes, every other one accented.
pub open spec fn lead_note(ppq: u32, j: int) -> MidiNote {
    let b = j / 8;
    let s = j % 8;
    let eighth = ppq / 2;
    MidiNote {
        tick: (b * (4 * ppq) + s * eighth) as u32,
        length_ticks: (eighth * 8 / 10) as u32,
        key: lead_phrase(b)[s],
        velocity: if s % 2 == 0 { 102 } else { 84 },
        channel: 0,
        note_id: (j + 1) as u64,
    }
}

pub open spec fn arp_notes(ppq: u32) -> Seq<MidiNote> {
    Seq::new(64, |j: int| arp_note(ppq, j))
}

pub open spec fn groove_notes(ppq: u32) -> Seq<MidiNote> {
    Seq::new(24, |j: int| groove_note(ppq, j))
}

pub open spec fn pad_notes(ppq: u32) -> Seq<MidiNote> {
    Seq::new(12, |j: int| pad_note(ppq, j))
}

pub open spec fn lead_notes(ppq: u32) -> Seq<MidiNote> {
    Seq::new(32, |j: int| lead_note(ppq, j))
}

/// `c` is a demo clip on `track_id` named `name` holding `notes`: a fresh
/// 36-character clip id and content id, placed at tick 0, four bars long,
/// in the track's default lane, untransposed, with note ids 1..=n handed
/// out and `n + 1` next.
pub open spec fn is_demo_clip(c: MidiClip, track_id: Seq<char>, name: Seq<char>, notes: Seq<MidiNote>, ppq: u32) -> bool {
    &&& c.id@.len() == 36
    &&& c.track_id@ == track_id
    &&& c.name@ == name
    &&& c.timeline_start_ticks == 0
    &&& c.length_ticks == 16 * ppq
    &&& c.notes@ == notes
    &&& c.next_note_id == notes.len() + 1
    &&& c.content_id@.len() == 36
    &&& c.lane_id@ == track_id
    &&& c.content_length_ticks is None
    &&& c.transpose_semitones == 0
    &&& c.velocity_offset == 0
}

/// A note a MIDI device accepts: 7-bit key and velocity, one of 16
/// channels.
pub open spec fn is_valid_midi_note(n: MidiNote) -> bool {
    n.key < 128 && n.velocity < 128 && n.channel < 16
}

// ---------------------------------------------------------------------------
// Building them
// ---------------------------------------------------------------------------

fn arp_chord_key(b: u32, idx: u32) -> (k: u8)
    requires
        b < 4,
        idx < 4,
    ensures
        k == arp_chord(b as int)[idx as int],
{
    if b == 0 {
        if idx == 0 { 57 } else if idx == 1 { 60 } else if idx == 2 { 64 } else { 69 }
    } else if b == 1 {
        if idx == 0 { 53 } else if idx == 1 { 57 } else if idx == 2 { 60 } else { 65 }
    } else if b == 2 {
        if idx == 0 { 48 } else if idx == 1 { 52 } else if idx == 2 { 55 } else { 60 }
    } else {
        if idx == 0 { 55 } else if idx == 1 { 59 } else if idx == 2 { 62 } else { 67 }
    }
}

fn bass_root_key(b: u32) -> (k: u8)
    requires
        b < 4,
    ensures
        k == bass_root(b as int),
{
    if b == 0 { 33 } else if b == 1 { 29 } else if b == 2 { 36 } else { 31 }
}

fn groove_step_at(k: u32) -> (s: u32)
    requires
        k < 6,
    ensures
        s == groove_step(k as int),
{
    if k == 0 { 0 } else if k == 1 { 1 } else if k == 2 { 2 } else if k == 3 { 4 } else if k == 4 { 5 } else { 7 }
}

fn pad_chord_key(b: u32, idx: u32) -> (k: u8)
    requires
        b < 4,
        idx < 3,
    ensures
        k == pad_chord(b as int)[idx as int],
{
    if b == 0 {
        if idx == 0 { 57 } else if idx == 1 { 60 } else { 64 }
    } else if b == 1 {
        if idx == 0 { 53 } else if idx == 1 { 57 } else { 60 }
    } else if b == 2 {
        if idx == 0 { 55 } else if idx == 1 { 60 } else { 64 }
    } else {
        if idx == 0 { 55 } else if idx == 1 { 59 } else { 62 }
    }
}

fn lead_phrase_key(b: u32, s: u32) -> (k: u8)
    requires
        b < 4,
        s < 8,
    ensures
        k == lead_phrase(b as int)[s as int],
{
    if b == 0 {
        if s == 0 { 69 } else if s == 1 { 72 } else if s == 2 { 76 } else if s == 3 { 72 }
        else if s == 4 { 69 } else if s == 5 { 76 } else if s == 6 { 74 } else { 72 }
    } else if b == 1 {
        if s == 0 { 67 } else if s == 1 { 69 } else if s == 2 { 72 } else if s == 3 { 69 }
        else if s == 4 { 65 } else if s == 5 { 69 } else if s == 6 { 72 } else { 74 }
    } else if b == 2 {
        if s == 0 { 76 } else if s == 1 { 74 } else if s == 2 { 72 } else if s == 3 { 67 }
        else if s == 4 { 64 } else if s == 5 { 67 } else if s == 6 { 72 } else { 74 }
    } else {
        if s == 0 { 71 } else if s == 1 { 74 } else if s == 2 { 79 } else if s == 3 { 74 }
        else if s == 4 { 71 } else if s == 5 { 67 } else if s == 6 { 69 } else { 71 }
    }
}

/// The 16th-note arpeggio, 64 notes.
fn build_arp(ppq: u32) -> (notes: Vec<MidiNote>)
    requires
        12 * ppq + 15 * (ppq / 4) <= u32::MAX,
    ensures
        notes@ == arp_notes(ppq),
{
    let bar: u32 = 4 * ppq;
    let step: u32 = ppq / 4;
    let mut notes: Vec<MidiNote> = Vec::new();
    let mut j: u32 = 0;
    while j < 64
        invariant
            j <= 64,
            bar == 4 * ppq,
            step == ppq / 4,
            12 * ppq + 15 * (ppq / 4) <= u32::MAX,
            notes@.len() == j,
            forall|i: int| 0 <= i < j ==> #[trigger] notes@[i] == arp_note(ppq, i),
        decreases 64 - j,
    {
        let b = j / 16;
        let s = j % 16;
        proof {
            assert(b * bar <= 3 * bar) by (nonlinear_arith)
                requires
                    b <= 3,
            ;
            assert(s * step <= 15 * step) by (nonlinear_arith)
                requires
                    s <= 15,
            ;
        }
        let tick: u32 = b * bar + s * step;
        let rising = s % 8 < 4;
        let idx: u32 = if rising { s % 4 } else { 3 - s % 4 };
        let base = arp_chord_key(b, idx);
        let key: u8 = if rising { base } else { base + 12 };
        let velocity: u8 = if s % 4 == 0 { 110 } else { 84 };
        let note = MidiNote {
            tick,
            length_ticks: step * 9 / 10,
            key,
            velocity,
            channel: 0,
            note_id: j as u64 + 1,
        };
        notes.push(note);
        j = j + 1;
    }
    assert(notes@ =~= arp_notes(ppq));
    notes
}

/// The bass groove, 24 notes.
fn build_groove(ppq: u32) -> (notes: Vec<MidiNote>)
    requires
        12 * ppq + 7 * (ppq / 2) <= u32::MAX,
    ensures
        notes@ == groove_notes(ppq),
{
    let bar: u32 = 4 * ppq;
    let eighth: u32 = ppq / 2;
    let mut notes: Vec<MidiNote> = Vec::new();
    let mut j: u32 = 0;
    while j < 24
        invariant
            j <= 24,
            bar == 4 * ppq,
            eighth == ppq / 2,
            12 * ppq + 7 * (ppq / 2) <= u32::MAX,
            notes@.len() == j,
            forall|i: int| 0 <= i < j ==> #[trigger] notes@[i] == groove_note(ppq, i),
        decreases 24 - j,
    {
        let b = j / 6;
        let s = groove_step_at(j % 6);
        proof {
            assert(b * bar <= 3 * bar) by (nonlinear_arith)
                requires
                    b <= 3,
            ;
            assert(s * eighth <= 7 * eighth) by (nonlinear_arith)
                requires
                    s <= 7,
            ;
        }
        let tick: u32 = b * bar + s * eighth;
        let root = bass_root_key(b);
        let key: u8 = if s % 4 == 2 { root + 12 } else { root };
        let velocity: u8 = if s == 0 { 118 } else { 92 };
        let note = MidiNote {
            tick,
            length_ticks: eighth * 8 / 10,
            key,
            velocity,
            channel: 0,
            note_id: j as u64 + 1,
        };
        notes.push(note);
        j = j + 1;
    }
    assert(notes@ =~= groove_notes(ppq));
    notes
}

/// The pad chords, 12 notes.
fn build_pad(ppq: u32) -> (notes: Vec<MidiNote>)
    requires
        380 * ppq <= u32::MAX,
    ensures
        notes@ == pad_notes(ppq),
{
    let bar: u32 = 4 * ppq;
    let mut notes: Vec<MidiNote> = Vec::new();
    let mut j: u32 = 0;
    while j < 12
        invariant
            j <= 12,
            bar == 4 * ppq,
            380 * ppq <= u32::MAX,
            notes@.len() == j,
            forall|i: int| 0 <= i < j ==> #[trigger] notes@[i] == pad_note(ppq, i),
        decreases 12 - j,
    {
        let b = j / 3;
        proof {
            assert(b * bar <= 3 * bar) by (nonlinear_arith)
                requires
                    b <= 3,
            ;
        }
        let note = MidiNote {
            tick: b * bar,
            length_ticks: bar * 95 / 100,
            key: pad_chord_key(b, j % 3),
            velocity: 72,
            channel: 0,
            note_id: j as u64 + 1,
        };
        notes.push(note);
        j = j + 1;
    }
    assert(notes@ =~= pad_notes(ppq));
    notes
}

/// The lead phrases, 32 notes.
fn build_lead(ppq: u32) -> (notes: Vec<MidiNote>)
    requires
        12 * ppq + 7 * (ppq / 2) <= u32::MAX,
    ensures
        notes@ == lead_notes(ppq),
{
    let bar: u32 = 4 * ppq;
    let eighth: u32 = ppq / 2;
    let mut notes: Vec<MidiNote> = Vec::new();
    let mut j: u32 = 0;
    while j < 32
        invariant
            j <= 32,
            bar == 4 * ppq,
            eighth == ppq / 2,
            12 * ppq + 7 * (ppq / 2) <= u32::MAX,
            notes@.len() == j,
            forall|i: int| 0 <= i < j ==> #[trigger] notes@[i] == lead_note(ppq, i),
        decreases 32 - j,
    {
        let b = j / 8;
        let s = j % 8;
        proof {
            assert(b * bar <= 3 * bar) by (nonlinear_arith)
                requires
                    b <= 3,
            ;
            assert(s * eighth <= 7 * eighth) by (nonlinear_arith)
                requires
                    s <= 7,
            ;
        }
        let velocity: u8 = if s % 2 == 0 { 102 } else { 84 };
        let note = MidiNote {
            tick: b * bar + s * eighth,
            length_ticks: eighth * 8 / 10,
            key: lead_phrase_key(b, s),
            velocity,
            channel: 0,
            note_id: j as u64 + 1,
        };
        notes.push(note);
        j = j + 1;
    }
    assert(notes@ =~= lead_notes(ppq));
    notes
}

/// A four-bar demo clip on `track_id` holding `notes`.
fn demo_clip(track_id: &str, name: &str, notes: Vec<MidiNote>, ppq: u32) -> (c: MidiClip)
    requires
        notes@.len() < u64::MAX,
    ensures
        is_demo_clip(c, track_id@, name@, notes@, ppq),
{
    let n = notes.len() as u64;
    let track = String::from_str(track_id);
    MidiClip {
        id: fresh_id(),
        lane_id: copy_string(&track),
        track_id: track,
        name: String::from_str(name),
        timeline_start_ticks: 0,
        length_ticks: 16 * (ppq as u64),
        notes,
        next_note_id: n + 1,
        content_id: fresh_id(),
        content_length_ticks: None,
        transpose_semitones: 0,
        velocity_offset: 0,
    }
}

/// The first two-track demo: a 16th-note arpeggio over Am–F–C–G on
/// `keys_track_id` ("demo arp") and the bass groove on `bass_track_id`
/// ("demo bass"), four bars at `ppq` ticks per quarter.
pub fn demo_seed_clips(keys_track_id: &str, bass_track_id: &str, ppq: u32) -> (r: (MidiClip, MidiClip))
    requires
        12 * ppq + 15 * (ppq / 4) <= u32::MAX,
    ensures
        is_demo_clip(r.0, keys_track_id@, "demo arp"@, arp_notes(ppq), ppq),
        is_demo_clip(r.1, bass_track_id@, "demo bass"@, groove_notes(ppq), ppq),
{
    let arp = build_arp(ppq);
    let groove = build_groove(ppq);
    (demo_clip(keys_track_id, "demo arp", arp, ppq), demo_clip(bass_track_id, "demo bass", groove, ppq))
}

/// The seeded three-track demo song: sustained pad chords on
/// `pad_track_id` ("demo pad"), the plucked lead on `lead_track_id`
/// ("demo lead") and the bass groove on `bass_track_id` ("demo bass").
pub fn demo_seed_clips_v2(
    pad_track_id: &str,
    lead_track_id: &str,
    bass_track_id: &str,
    ppq: u32,
) -> (r: (MidiClip, MidiClip, MidiClip))
    requires
        380 * ppq <= u32::MAX,
    ensures
        is_demo_clip(r.0, pad_track_id@, "demo pad"@, pad_notes(ppq), ppq),
        is_demo_clip(r.1, lead_track_id@, "demo lead"@, lead_notes(ppq), ppq),
        is_demo_clip(r.2, bass_track_id@, "demo bass"@, groove_notes(ppq), ppq),
{
    let pad = build_pad(ppq);
    let lead = build_lead(ppq);
    let groove = build_groove(ppq);
    (
        demo_clip(pad_track_id, "demo pad", pad, ppq),
        demo_clip(lead_track_id, "demo lead", lead, ppq),
        demo_clip(bass_track_id, "demo bass", groove, ppq),
    )
}

/// Every note of the demo song is a valid MIDI note, and note ids run
/// 1, 2, 3, … in each clip, whatever the resolution.
pub proof fn lemma_demo_notes_valid(ppq: u32)
    ensures
        forall|j: int| 0 <= j < 64 ==> is_valid_midi_note(#[trigger] arp_notes(ppq)[j]) && arp_notes(ppq)[j].note_id == j + 1,
        forall|j: int| 0 <= j < 24 ==> is_valid_midi_note(#[trigger] groove_notes(ppq)[j]) && groove_notes(ppq)[j].note_id == j + 1,
        forall|j: int| 0 <= j < 12 ==> is_valid_midi_note(#[trigger] pad_notes(ppq)[j]) && pad_notes(ppq)[j].note_id == j + 1,
        forall|j: int| 0 <= j < 32 ==> is_valid_midi_note(#[trigger] lead_notes(ppq)[j]) && lead_notes(ppq)[j].note_id == j + 1,
{
    assert forall|j: int| 0 <= j < 64 implies is_valid_midi_note(#[trigger] arp_notes(ppq)[j]) && arp_notes(ppq)[j].note_id == j + 1 by {
        let b = j / 16;
        let s = j % 16;
        assert(0 <= b < 4);
        let idx = if s % 8 < 4 { s % 4 } else { 3 - s % 4 };
        assert(0 <= idx < 4);
        assert(arp_chord(b)[idx] <= 69);
    }
    assert forall|j: int| 0 <= j < 24 implies is_valid_midi_note(#[trigger] groove_notes(ppq)[j]) && groove_notes(ppq)[j].note_id == j + 1 by {
        assert(0 <= j / 6 < 4);
    }
    assert forall|j: int| 0 <= j < 12 implies is_valid_midi_note(#[trigger] pad_notes(ppq)[j]) && pad_notes(ppq)[j].note_id == j + 1 by {
        let b = j / 3;
        assert(0 <= b < 4);
        assert(pad_chord(b)[j % 3] <= 64);
    }
    assert forall|j: int| 0 <= j < 32 implies is_valid_midi_note(#[trigger] lead_notes(ppq)[j]) && lead_notes(ppq)[j].note_id == j + 1 by {
        let b = j / 8;
        assert(0 <= b < 4);
        assert(lead_phrase(b)[j % 8] <= 79);
    }
}

/// Whether the pitch class of `key` (its note name, octave aside) sounds
/// in `chord`.
pub open spec fn pitch_class_in(key: int, chord: Seq<u8>) -> bool {
    exists|i: int| 0 <= i < chord.len() && #[trigger] chord[i] as int % 12 == key % 12
}

/// The progression the song plays, bar by bar — Am, F, C, G: each chord's
/// root as a pitch class (C = 0) and whether the chord is minor.
pub open spec fn progression(b: int) -> (int, bool) {
    if b == 0 { (9, true) } else if b == 1 { (5, false) } else if b == 2 { (0, false) } else { (7, false) }
}

/// Whether pitch class `pc` is a tone of the triad on `root`: the root, its
/// third (minor or major) or its fifth.
pub open spec fn triad_tone(pc: int, root: int, minor: bool) -> bool {
    let d = (pc - root) % 12;
    d == 0 || d == (if minor { 3int } else { 4int }) || d == 7
}

proof fn lemma_bar_harmony(b: int)
    requires
        0 <= b < 4,
    ensures
        forall|i: int| 0 <= i < 3 ==> pitch_class_in(#[trigger] pad_chord(b)[i] as int, arp_chord(b)),
        forall|i: int| 0 <= i < 4 ==> pitch_class_in(#[trigger] arp_chord(b)[i] as int, pad_chord(b)),
        bass_root(b) as int % 12 == arp_chord(b)[0] as int % 12,
        pitch_class_in(bass_root(b) as int, pad_chord(b)),
        arp_chord(b)[0] as int % 12 == progression(b).0,
        forall|i: int| 0 <= i < 3 ==> triad_tone(#[trigger] pad_chord(b)[i] as int % 12, progression(b).0, progression(b).1),
        forall|i: int, j: int| 0 <= i < j < 3 ==> #[trigger] pad_chord(b)[i] as int % 12 != #[trigger] pad_chord(b)[j] as int % 12,
{
    let p = pad_chord(b);
    let a = arp_chord(b);
    if b == 0 {
        assert(p =~= seq![57u8, 60, 64]);
        assert(a =~= seq![57u8, 60, 64, 69]);
        assert(a[0] as int % 12 == p[0] as int % 12);
        assert(a[1] as int % 12 == p[1] as int % 12);
        assert(a[2] as int % 12 == p[2] as int % 12);
        assert(p[0] as int % 12 == a[0] as int % 12);
        assert(p[1] as int % 12 == a[1] as int % 12);
        assert(p[2] as int % 12 == a[2] as int % 12);
        assert(p[0] as int % 12 == a[3] as int % 12);
        assert(p[0] as int % 12 == bass_root(b) as int % 12);
    } else if b == 1 {
        assert(p =~= seq![53u8, 57, 60]);
        assert(a =~= seq![53u8, 57, 60, 65]);
        assert(a[0] as int % 12 == p[0] as int % 12);
        assert(a[1] as int % 12 == p[1] as int % 12);
        assert(a[2] as int % 12 == p[2] as int % 12);
        assert(p[0] as int % 12 == a[0] as int % 12);
        assert(p[1] as int % 12 == a[1] as int % 12);
        assert(p[2] as int % 12 == a[2] as int % 12);
        assert(p[0] as int % 12 == a[3] as int % 12);
        assert(p[0] as int % 12 == bass_root(b) as int % 12);
    } else if b == 2 {
        assert(p =~= seq![55u8, 60, 64]);
        assert(a =~= seq![48u8, 52, 55, 60]);
        assert(a[2] as int % 12 == p[0] as int % 12);
        assert(a[0] as int % 12 == p[1] as int % 12);
        assert(a[1] as int % 12 == p[2] as int % 12);
        assert(p[1] as int % 12 == a[0] as int % 12);
        assert(p[2] as int % 12 == a[1] as int % 12);
        assert(p[0] as int % 12 == a[2] as int % 12);
        assert(p[1] as int % 12 == a[3] as int % 12);
        assert(p[1] as int % 12 == bass_root(b) as int % 12);
    } else {
        assert(p =~= seq![55u8, 59, 62]);
        assert(a =~= seq![55u8, 59, 62, 67]);
        assert(a[0] as int % 12 == p[0] as int % 12);
        assert(a[1] as int % 12 == p[1] as int % 12);
        assert(a[2] as int % 12 == p[2] as int % 12);
        assert(p[0] as int % 12 == a[0] as int % 12);
        assert(p[1] as int % 12 == a[1] as int % 12);
        assert(p[2] as int % 12 == a[2] as int % 12);
        assert(p[0] as int % 12 == a[3] as int % 12);
        assert(p[0] as int % 12 == bass_root(b) as int % 12);
    }
    assert forall|i: int| 0 <= i < 3 implies pitch_class_in(#[trigger] p[i] as int, a) by {
        if i == 0 {} else if i == 1 {} else {}
    }
    assert forall|i: int| 0 <= i < 3 implies triad_tone(#[trigger] p[i] as int % 12, progression(b).0, progression(b).1) by {
        if i == 0 {} else if i == 1 {} else {}
    }
    assert forall|i: int| 0 <= i < 4 implies pitch_class_in(#[trigger] a[i] as int, p) by {
        if i == 0 {} else if i == 1 {} else if i == 2 {} else {}
    }
}

/// THE HARMONY LAW: in every bar the four parts play one chord. The pad's
/// voicing sounds exactly the pitch classes of the arpeggio's chord (each
/// pad note is a chord tone, and each chord tone is in the pad), and the
/// bass plays that chord's root — Am, F, C, G, bar by bar: the pad voices
/// three distinct tones of the triad on the progression's root. So every
/// pad note of the clip is a tone of its bar's chord.
pub proof fn lemma_parts_share_each_bars_chord(ppq: u32)
    ensures
        forall|b: int| 0 <= b < 4 ==> #[trigger] arp_chord(b)[0] as int % 12 == progression(b).0,
        forall|b: int, i: int| 0 <= b < 4 && 0 <= i < 3 ==> triad_tone(#[trigger] pad_chord(b)[i] as int % 12, progression(b).0, progression(b).1),
        forall|b: int, i: int, j: int| 0 <= b < 4 && 0 <= i < j < 3 ==> #[trigger] pad_chord(b)[i] as int % 12 != #[trigger] pad_chord(b)[j] as int % 12,
        forall|b: int, i: int| 0 <= b < 4 && 0 <= i < 3 ==> pitch_class_in(#[trigger] pad_chord(b)[i] as int, arp_chord(b)),
        forall|b: int, i: int| 0 <= b < 4 && 0 <= i < 4 ==> pitch_class_in(#[trigger] arp_chord(b)[i] as int, pad_chord(b)),
        forall|b: int| 0 <= b < 4 ==> #[trigger] bass_root(b) as int % 12 == arp_chord(b)[0] as int % 12,
        forall|j: int| 0 <= j < 12 ==> pitch_class_in(#[trigger] pad_notes(ppq)[j].key as int, arp_chord(j / 3)),
{
    assert forall|b: int, i: int| 0 <= b < 4 && 0 <= i < 3 implies pitch_class_in(#[trigger] pad_chord(b)[i] as int, arp_chord(b)) by {
        lemma_bar_harmony(b);
    }
    assert forall|b: int, i: int| 0 <= b < 4 && 0 <= i < 4 implies pitch_class_in(#[trigger] arp_chord(b)[i] as int, pad_chord(b)) by {
        lemma_bar_harmony(b);
    }
    assert forall|b: int| 0 <= b < 4 implies #[trigger] bass_root(b) as int % 12 == arp_chord(b)[0] as int % 12 by {
        lemma_bar_harmony(b);
    }
    assert forall|b: int| 0 <= b < 4 implies #[trigger] arp_chord(b)[0] as int % 12 == progression(b).0 by {
        lemma_bar_harmony(b);
    }
    assert forall|b: int, i: int| 0 <= b < 4 && 0 <= i < 3 implies triad_tone(#[trigger] pad_chord(b)[i] as int % 12, progression(b).0, progression(b).1) by {
        lemma_bar_harmony(b);
    }
    assert forall|b: int, i: int, j: int| 0 <= b < 4 && 0 <= i < j < 3 implies #[trigger] pad_chord(b)[i] as int % 12 != #[trigger] pad_chord(b)[j] as int % 12 by {
        lemma_bar_harmony(b);
    }
    assert forall|j: int| 0 <= j < 12 implies pitch_class_in(#[trigger] pad_notes(ppq)[j].key as int, arp_chord(j / 3)) by {
        let b = j / 3;
        lemma_bar_harmony(b);
        assert(pad_notes(ppq)[j].key == pad_chord(b)[j % 3]);
    }
}

// ---------------------------------------------------------------------------
// Seeding the demo project
// ---------------------------------------------------------------------------

/// An instrument instance prepared outside the transaction (instantiated,
/// patched, its post-load state captured) and not yet in the document.
pub struct PreparedInstrument {
    pub row: PluginInstanceInfo,
    /// The encoded post-load state, when the host could capture it.
    pub state: Option<Vec<u8>>,
}

/// The three prepared demo instruments: pad, lead, bass.
pub struct DemoInstruments {
    pub pad: PreparedInstrument,
    pub lead: PreparedInstrument,
    pub bass: PreparedInstrument,
}

/// The demo project's one transaction: its three new rows and the ops.
pub struct DemoSeedPlan {
    pub pad: TrackState,
    pub lead: TrackState,
    pub bass: TrackState,
    pub ops: Vec<Op>,
}

/// How many ops binding one prepared instrument takes.
pub open spec fn binding_len(p: PreparedInstrument) -> int {
    if p.state is Some { 3 } else { 2 }
}

/// How many ops binding the demo instruments takes (none without them).
pub open spec fn bindings_len(z: Option<DemoInstruments>) -> int {
    match z {
        Some(d) => binding_len(d.pad) + binding_len(d.lead) + binding_len(d.bass),
        None => 0,
    }
}

/// `s` binds the prepared instrument `p` to the track `track_id`: add its
/// instance row (appended), restore its captured state if there is one,
/// then point the track's instrument at `plugin:<instance id>`.
pub open spec fn is_binding(s: Seq<Op>, track_id: Seq<char>, p: PreparedInstrument) -> bool {
    &&& s.len() == binding_len(p)
    &&& s[0] == (Op::PluginAdd { row: p.row, index: usize::MAX })
    &&& p.state matches Some(st) ==> s[1] == (Op::PluginSetState { instance: p.row.id, state: st })
    &&& s.last() matches Op::SetProp { object, path, from, to } && object@ == ObjectKey::Track(track_id)
        && path == PropPath::InstrumentId && from is Null && to@ == WireKey::Text("plugin:"@ + p.row.id@)
}

/// `op` adds `track` at `index` with no clips.
pub open spec fn is_track_add(op: Op, track: TrackState, index: int) -> bool {
    op matches Op::TrackAdd { track: t, index: i, clips, clip_indices } && t@ == track@ && i == index
        && clips@.len() == 0 && clip_indices@.len() == 0
}

/// `op` adds a demo clip at `index`.
pub open spec fn is_demo_clip_add(op: Op, index: int, track_id: Seq<char>, name: Seq<char>, notes: Seq<MidiNote>, ppq: u32) -> bool {
    op matches Op::MidiClipAdd { clip, index: i } && i == index && is_demo_clip(clip, track_id, name, notes, ppq)
}

fn push_binding(ops: &mut Vec<Op>, track_id: &String, p: PreparedInstrument)
    ensures
        final(ops)@.len() == old(ops)@.len() + binding_len(p),
        final(ops)@.subrange(0, old(ops)@.len() as int) == old(ops)@,
        is_binding(final(ops)@.subrange(old(ops)@.len() as int, final(ops)@.len() as int), track_id@, p),
{
    let ghost before = ops@;
    let ghost p0 = p;
    let PreparedInstrument { row, state } = p;
    let mut target = String::from_str("plugin:");
    target.append(row.id.as_str());
    let instance = row.id.clone();
    ops.push(Op::PluginAdd { row, index: usize::MAX });
    match state {
        Some(st) => {
            ops.push(Op::PluginSetState { instance, state: st });
        },
        None => {},
    }
    ops.push(Op::SetProp {
        object: ObjectRef::Track(track_id.clone()),
        path: PropPath::InstrumentId,
        from: WireValue::Null,
        to: WireValue::Text(target),
    });
    proof {
        reveal_strlit("plugin:");
        let seg = ops@.subrange(before.len() as int, ops@.len() as int);
        assert(seg[0] == ops@[before.len() as int]);
        assert(ops@.subrange(0, before.len() as int) =~= before);
    }
}

/// Plan the demo project's one transaction for a store holding
/// `track_count` tracks and `midi_clip_count` MIDI clips: three MIDI tracks
/// ("Demo Pad", "Demo Lead", "Demo Bass") appended in order; with prepared
/// instruments, each bound to its track; then the three demo clips
/// appended.
pub fn plan_seed_demo(
    track_count: usize,
    midi_clip_count: usize,
    ppq: u32,
    instruments: Option<DemoInstruments>,
) -> (p: DemoSeedPlan)
    requires
        track_count + 3 < u64::MAX,
        track_count + 3 <= usize::MAX,
        midi_clip_count + 2 <= usize::MAX,
        380 * ppq <= u32::MAX,
    ensures
        is_fresh_row_named(p.pad@, track_count as nat, "Demo Pad"@, "midi"@),
        is_fresh_row_named(p.lead@, (track_count + 1) as nat, "Demo Lead"@, "midi"@),
        is_fresh_row_named(p.bass@, (track_count + 2) as nat, "Demo Bass"@, "midi"@),
        p.ops@.len() == 6 + bindings_len(instruments),
        is_track_add(p.ops@[0], p.pad, track_count as int),
        is_track_add(p.ops@[1], p.lead, track_count + 1),
        is_track_add(p.ops@[2], p.bass, track_count + 2),
        instruments matches Some(d) ==> {
            let a = 3 + binding_len(d.pad);
            let b = a + binding_len(d.lead);
            &&& is_binding(p.ops@.subrange(3, a), p.pad.id@, d.pad)
            &&& is_binding(p.ops@.subrange(a, b), p.lead.id@, d.lead)
            &&& is_binding(p.ops@.subrange(b, b + binding_len(d.bass)), p.bass.id@, d.bass)
        },
        ({
            let c = 3 + bindings_len(instruments);
            &&& is_demo_clip_add(p.ops@[c], midi_clip_count as int, p.pad.id@, "demo pad"@, pad_notes(ppq), ppq)
            &&& is_demo_clip_add(p.ops@[c + 1], midi_clip_count + 1, p.lead.id@, "demo lead"@, lead_notes(ppq), ppq)
            &&& is_demo_clip_add(p.ops@[c + 2], midi_clip_count + 2, p.bass.id@, "demo bass"@, groove_notes(ppq), ppq)
        }),
{
    proof {
        reveal_strlit("Demo Pad");
        reveal_strlit("Demo Lead");
        reveal_strlit("Demo Bass");
        reveal_strlit("midi");
    }
    let pad = fresh_row(track_count, Some(String::from_str("Demo Pad")), String::from_str("midi"));
    let lead = fresh_row(track_count + 1, Some(String::from_str("Demo Lead")), String::from_str("midi"));
    let bass = fresh_row(track_count + 2, Some(String::from_str("Demo Bass")), String::from_str("midi"));
    let mut ops: Vec<Op> = Vec::new();
    ops.push(Op::TrackAdd { track: pad.duplicate(), index: track_count, clips: Vec::new(), clip_indices: Vec::new() });
    ops.push(Op::TrackAdd { track: lead.duplicate(), index: track_count + 1, clips: Vec::new(), clip_indices: Vec::new() });
    ops.push(Op::TrackAdd { track: bass.duplicate(), index: track_count + 2, clips: Vec::new(), clip_indices: Vec::new() });
    let ghost head = ops@;
    let ghost z = instruments;
    match instruments {
        Some(d) => {
            let DemoInstruments { pad: pi, lead: li, bass: bi } = d;
            push_binding(&mut ops, &pad.id, pi);
            let ghost s1 = ops@;
            push_binding(&mut ops, &lead.id, li);
            let ghost s2 = ops@;
            push_binding(&mut ops, &bass.id, bi);
            proof {
                let a = 3 + binding_len(pi);
                let b = a + binding_len(li);
                assert(ops@.subrange(3, a) =~= s1.subrange(3, a));
                assert(ops@.subrange(a, b) =~= s2.subrange(a, b));
                assert(s1.subrange(0, 3) =~= head);
                assert(ops@[0] == head[0]);
                assert(ops@[1] == head[1]);
                assert(ops@[2] == head[2]);
            }
        },
        None => {},
    }
    let ghost mid = ops@;
    let c = ops.len();
    let (pad_clip, lead_clip, bass_clip) = demo_seed_clips_v2(pad.id.as_str(), lead.id.as_str(), bass.id.as_str(), ppq);
    ops.push(Op::MidiClipAdd { clip: pad_clip, index: midi_clip_count });
    ops.push(Op::MidiClipAdd { clip: lead_clip, index: midi_clip_count + 1 });
    ops.push(Op::MidiClipAdd { clip: bass_clip, index: midi_clip_count + 2 });
    proof {
        assert(c == 3 + bindings_len(z));
        assert(ops@.subrange(0, c as int) =~= mid);
        match z {
            Some(d) => {
                let a = 3 + binding_len(d.pad);
                let b = a + binding_len(d.lead);
                assert(ops@.subrange(3, a) =~= mid.subrange(3, a));
                assert(ops@.subrange(a, b) =~= mid.subrange(a, b));
                assert(ops@.subrange(b, b + binding_len(d.bass)) =~= mid.subrange(b, b + binding_len(d.bass)));
            },
            None => {},
        }
    }
    DemoSeedPlan { pad, lead, bass, ops }
}

/// The three stock patches the demo instruments load, if all can be had:
/// an analog pad, a plucked lead, and an analogue bass (falling back to
/// any bass patch).
pub fn choose_demo_patches<P>(pad: Option<P>, lead: Option<P>, analogue_bass: Option<P>, any_bass: Option<P>) -> (r: Option<(P, P, P)>)
    ensures
        r == match (pad, lead, if analogue_bass is Some { analogue_bass } else { any_bass }) {
            (Some(a), Some(b), Some(c)) => Some((a, b, c)),
            _ => None,
        },
{
    let bass = match analogue_bass {
        Some(b) => Some(b),
        None => any_bass,
    };
    match (pad, lead, bass) {
        (Some(a), Some(b), Some(c)) => Some((a, b, c)),
        _ => None,
    }
}

/// Whether the session already has content the demo would land on: an
/// audio clip, or a MIDI clip with notes.
pub open spec fn has_content(clips: Seq<crate::types::Clip>, midi_clips: Seq<MidiClip>) -> bool {
    clips.len() > 0 || exists|i: int| 0 <= i < midi_clips.len() && #[trigger] midi_clips[i].notes@.len() > 0
}

/// The demo only seeds an empty session: refused when there is an audio
/// clip or a MIDI clip with notes (empty MIDI clips do not count).
pub fn check_seed_empty(clips: &Vec<crate::types::Clip>, midi_clips: &Vec<MidiClip>) -> (r: Result<(), crate::plane::PlanError>)
    ensures
        r is Err <==> has_content(clips@, midi_clips@),
        r matches Err(e) ==> e == crate::plane::PlanError::AlreadyHasContent,
{
    if clips.len() > 0 {
        return Err(crate::plane::PlanError::AlreadyHasContent);
    }
    let mut i: usize = 0;
    while i < midi_clips.len()
        invariant
            i <= midi_clips@.len(),
            clips@.len() == 0,
            forall|j: int| 0 <= j < i ==> #[trigger] midi_clips@[j].notes@.len() == 0,
        decreases midi_clips.len() - i,
    {
        if midi_clips[i].notes.len() > 0 {
            return Err(crate::plane::PlanError::AlreadyHasContent);
        }
        i = i + 1;
    }
    Ok(())
}

} // verus!
