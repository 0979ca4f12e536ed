//! Document rows the ops carry and the planners read.
//!
//! Floating-point document values (gains, pans, tempi, automation values)
//! are carried as the IEEE-754 bit pattern of the `f64` (`f64::to_bits`):
//! nothing here computes with them, it only stores, copies and compares
//! them, and the bit pattern does that losslessly.

use vstd::prelude::*;

verus! {

/// A track's automation mode. `Write`, `Touch` and `Latch` record.
#[derive(Clone, Copy, Debug, PartialEq, Eq, Structural)]
pub enum AutomationMode {
    Off,
    Read,
    Write,
    Touch,
    Latch,
}

/// One send edge from a track into a bus.
#[derive(Clone, Debug)]
pub struct SendSlot {
    pub id: String,
    pub dest: String,
    /// `f64` dB amount, as its bit pattern.
    pub amount_db_bits: u64,
    pub pre_fader: bool,
}

/// One insert (effect) slot on a track.
#[derive(Clone, Debug)]
pub struct InsertSlot {
    pub id: String,
    pub instance_id: String,
    pub bypassed: bool,
}

/// One mixer row.
#[derive(Clone, Debug)]
pub struct TrackState {
    pub id: String,
    pub name: String,
    /// `"audio"`, `"midi"` or `"automation"`.
    pub kind: String,
    /// `f64` gain in dB, as its bit pattern.
    pub gain_db_bits: u64,
    /// `f64` pan, as its bit pattern.
    pub pan_bits: u64,
    pub muted: bool,
    pub soloed: bool,
    pub armed: bool,
    pub color: String,
    pub instrument_id: Option<String>,
    /// Lane group label (`None` = ungrouped).
    pub group: Option<String>,
    pub automation_mode: AutomationMode,
    /// The bus this track is routed into (`None` = the master).
    pub output: Option<String>,
    pub sends: Vec<SendSlot>,
    pub inserts: Vec<InsertSlot>,
}

/// One audio clip placement.
#[derive(Clone, Debug)]
pub struct Clip {
    pub id: String,
    pub track_id: String,
    pub name: String,
    pub source_path: String,
    pub source_id: String,
    pub source_channels: u16,
    pub source_sample_rate: u32,
    pub source_length_samples: u64,
    pub timeline_start_samples: u64,
    pub offset_samples: u64,
    pub length_samples: u64,
    /// `f64` clip gain in dB, as its bit pattern.
    pub gain_db_bits: u64,
    pub fade_in_samples: u64,
    pub fade_out_samples: u64,
    pub content_id: String,
    pub lane_id: String,
}

/// One note of a MIDI clip.
#[derive(Clone, Copy, Debug, PartialEq, Eq, Structural)]
pub struct MidiNote {
    pub tick: u32,
    pub length_ticks: u32,
    pub key: u8,
    pub velocity: u8,
    pub channel: u8,
    pub note_id: u64,
}

/// One MIDI clip placement with its notes.
#[derive(Clone, Debug)]
pub struct MidiClip {
    pub id: String,
    pub track_id: String,
    pub name: String,
    pub timeline_start_ticks: u64,
    pub length_ticks: u64,
    pub notes: Vec<MidiNote>,
    pub next_note_id: u64,
    pub content_id: String,
    pub lane_id: String,
    pub content_length_ticks: Option<u64>,
    pub transpose_semitones: i32,
    pub velocity_offset: i32,
}

/// One tempo change.
#[derive(Clone, Copy, Debug, PartialEq, Eq, Structural)]
pub struct TempoEvent {
    pub tick: u64,
    /// `f64` beats per minute, as its bit pattern.
    pub bpm_bits: u64,
}

/// One time-signature change.
#[derive(Clone, Copy, Debug, PartialEq, Eq, Structural)]
pub struct MeterEvent {
    pub tick: u64,
    pub num: u32,
    pub den: u32,
}

/// One automation breakpoint.
#[derive(Clone, Copy, Debug, PartialEq, Eq, Structural)]
pub struct AutomationPoint {
    pub tick: u64,
    /// `f64` value, as its bit pattern.
    pub value_bits: u64,
}

/// One automation lane: a target parameter and its breakpoints.
#[derive(Clone, Debug)]
pub struct AutomationLane {
    pub id: String,
    pub target_node: String,
    pub param_id: u32,
    pub points: Vec<AutomationPoint>,
}

/// One plugin instance row of the document.
#[derive(Clone, Debug)]
pub struct PluginInstanceInfo {
    pub id: String,
    pub uid: String,
    pub name: String,
    pub format: String,
    pub status: String,
    pub track_id: Option<String>,
}

/// The transport block of the document.
#[derive(Clone, Debug)]
pub struct TransportState {
    /// `"playing"`, `"stopped"` or `"recording"`.
    pub state: String,
    pub position_samples: u64,
    pub sample_rate: u32,
    /// `f64` tempo, as its bit pattern.
    pub tempo_bpm_bits: u64,
    pub loop_enabled: bool,
    pub loop_start_samples: u64,
    pub loop_end_samples: u64,
    pub song_end_samples: u64,
    pub stop_at_end: bool,
    pub count_in_left_samples: u64,
}

/// A send edge, by value.
pub struct SendView {
    pub id: Seq<char>,
    pub dest: Seq<char>,
    pub amount_db_bits: u64,
    pub pre_fader: bool,
}

impl View for SendSlot {
    type V = SendView;

    open spec fn view(&self) -> SendView {
        SendView { id: self.id@, dest: self.dest@, amount_db_bits: self.amount_db_bits, pre_fader: self.pre_fader }
    }
}

/// An insert slot, by value.
pub struct InsertView {
    pub id: Seq<char>,
    pub instance_id: Seq<char>,
    pub bypassed: bool,
}

impl View for InsertSlot {
    type V = InsertView;

    open spec fn view(&self) -> InsertView {
        InsertView { id: self.id@, instance_id: self.instance_id@, bypassed: self.bypassed }
    }
}

/// The text of an optional string.
pub open spec fn opt_text(s: Option<String>) -> Option<Seq<char>> {
    match s {
        Some(v) => Some(v@),
        None => None,
    }
}

/// A mixer row, by value.
pub struct TrackView {
    pub id: Seq<char>,
    pub name: Seq<char>,
    pub kind: Seq<char>,
    pub gain_db_bits: u64,
    pub pan_bits: u64,
    pub muted: bool,
    pub soloed: bool,
    pub armed: bool,
    pub color: Seq<char>,
    pub instrument_id: Option<Seq<char>>,
    pub group: Option<Seq<char>>,
    pub automation_mode: AutomationMode,
    pub output: Option<Seq<char>>,
    pub sends: Seq<SendView>,
    pub inserts: Seq<InsertView>,
}

impl View for TrackState {
    type V = TrackView;

    open spec fn view(&self) -> TrackView {
        TrackView {
            id: self.id@,
            name: self.name@,
            kind: self.kind@,
            gain_db_bits: self.gain_db_bits,
            pan_bits: self.pan_bits,
            muted: self.muted,
            soloed: self.soloed,
            armed: self.armed,
            color: self.color@,
            instrument_id: opt_text(self.instrument_id),
            group: opt_text(self.group),
            automation_mode: self.automation_mode,
            output: opt_text(self.output),
            sends: self.sends@.map_values(|s: SendSlot| s@),
            inserts: self.inserts@.map_values(|s: InsertSlot| s@),
        }
    }
}

/// An owned copy of an optional string, with the same text.
pub fn dup_opt(s: &Option<String>) -> (r: Option<String>)
    ensures
        opt_text(r) == opt_text(*s),
{
    match s {
        Some(v) => Some(v.clone()),
        None => None,
    }
}

impl SendSlot {
    /// An owned copy.
    pub fn duplicate(&self) -> (r: SendSlot)
        ensures
            r == *self,
    {
        SendSlot { id: self.id.clone(), dest: self.dest.clone(), amount_db_bits: self.amount_db_bits, pre_fader: self.pre_fader }
    }
}

impl InsertSlot {
    /// An owned copy.
    pub fn duplicate(&self) -> (r: InsertSlot)
        ensures
            r == *self,
    {
        InsertSlot { id: self.id.clone(), instance_id: self.instance_id.clone(), bypassed: self.bypassed }
    }
}

fn dup_sends(v: &Vec<SendSlot>) -> (r: Vec<SendSlot>)
    ensures
        r@.map_values(|s: SendSlot| s@) == v@.map_values(|s: SendSlot| s@),
{
    let mut r: Vec<SendSlot> = Vec::new();
    let mut i: usize = 0;
    while i < v.len()
        invariant
            i <= v.len(),
            r@.len() == i,
            forall|j: int| 0 <= j < i ==> #[trigger] r@[j]@ == v@[j]@,
        decreases v.len() - i,
    {
        r.push(v[i].duplicate());
        i = i + 1;
    }
    assert(r@.map_values(|s: SendSlot| s@) =~= v@.map_values(|s: SendSlot| s@));
    r
}

fn dup_inserts(v: &Vec<InsertSlot>) -> (r: Vec<InsertSlot>)
    ensures
        r@.map_values(|s: InsertSlot| s@) == v@.map_values(|s: InsertSlot| s@),
{
    let mut r: Vec<InsertSlot> = Vec::new();
    let mut i: usize = 0;
    while i < v.len()
        invariant
            i <= v.len(),
            r@.len() == i,
            forall|j: int| 0 <= j < i ==> #[trigger] r@[j]@ == v@[j]@,
        decreases v.len() - i,
    {
        r.push(v[i].duplicate());
        i = i + 1;
    }
    assert(r@.map_values(|s: InsertSlot| s@) =~= v@.map_values(|s: InsertSlot| s@));
    r
}

impl PluginInstanceInfo {
    /// An owned copy.
    pub fn duplicate(&self) -> (r: PluginInstanceInfo)
        ensures
            r == *self,
    {
        PluginInstanceInfo {
            id: self.id.clone(),
            uid: self.uid.clone(),
            name: self.name.clone(),
            format: self.format.clone(),
            status: self.status.clone(),
            track_id: match &self.track_id {
                Some(t) => Some(t.clone()),
                None => None,
            },
        }
    }
}

impl Clip {
    /// An owned copy.
    pub fn duplicate(&self) -> (r: Clip)
        ensures
            r == *self,
    {
        Clip {
            id: self.id.clone(),
            track_id: self.track_id.clone(),
            name: self.name.clone(),
            source_path: self.source_path.clone(),
            source_id: self.source_id.clone(),
            source_channels: self.source_channels,
            source_sample_rate: self.source_sample_rate,
            source_length_samples: self.source_length_samples,
            timeline_start_samples: self.timeline_start_samples,
            offset_samples: self.offset_samples,
            length_samples: self.length_samples,
            gain_db_bits: self.gain_db_bits,
            fade_in_samples: self.fade_in_samples,
            fade_out_samples: self.fade_out_samples,
            content_id: self.content_id.clone(),
            lane_id: self.lane_id.clone(),
        }
    }
}

impl TrackState {
    /// An owned copy, equal by value.
    pub fn duplicate(&self) -> (r: TrackState)
        ensures
            r@ == self@,
    {
        TrackState {
            id: self.id.clone(),
            name: self.name.clone(),
            kind: self.kind.clone(),
            gain_db_bits: self.gain_db_bits,
            pan_bits: self.pan_bits,
            muted: self.muted,
            soloed: self.soloed,
            armed: self.armed,
            color: self.color.clone(),
            instrument_id: dup_opt(&self.instrument_id),
            group: dup_opt(&self.group),
            automation_mode: self.automation_mode,
            output: dup_opt(&self.output),
            sends: dup_sends(&self.sends),
            inserts: dup_inserts(&self.inserts),
        }
    }
}

} // verus!
