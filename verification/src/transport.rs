//! Transport and pad-player decisions.
//!
//! The transport command alternates engine work (parking, finalizing a
//! take, the real-time cells) with document writes; [`transport_step`]
//! makes every decision of one command from the action and what the caller
//! read, and the caller performs the step in order. The pad helpers decide
//! voice stealing and where a quantized press lands on the grid.

use vstd::prelude::*;
use crate::op::{Actor, ObjectRef, Op, PropPath, TxMeta, WireKey, WireValue};
use crate::plane::PlanError;
use crate::arrange::{trim_spec, trim_text};
use crate::text::{decimal, numbered, str_is};
use crate::types::MeterEvent;

verus! {

/// Transport action for `transport`.
pub enum TransportAction {
    Play,
    Stop,
    Seek { position_samples: u64 },
    /// Set the loop region and its enabled flag.
    SetLoop { enabled: bool, start_samples: u64, end_samples: u64 },
    /// Stop when the playhead reaches the end of the material.
    SetStopAtEnd { enabled: bool },
}

/// What one transport command does, in the order the caller performs it:
/// clear the park position, finalize a running take, freeze playback,
/// commit `ops` as one transaction under `commit_meta` (no
/// transaction when `None`), then write the real-time cells.
pub struct TransportStep {
    /// Drop any parking position the engine still owes.
    pub clear_park: bool,
    /// Ask the engine to finalize the running take (or count-in) first.
    pub finish_take: bool,
    /// Stop the playhead before the commit, reading whether it was playing
    /// and where it stood: [`automation_stop`] turns those into the
    /// automation boundary sent after the commit.
    pub freeze_playback: bool,
    /// After the commit and the automation boundary: cut the sounding
    /// scenes and cancel every pad still waiting for a quantized start.
    pub clear_launch: bool,
    /// A person's transient transaction: it stays out of history and the
    /// journal.
    pub commit_meta: Option<TxMeta>,
    /// Whether the commit announces a project change; a transport action
    /// announces only its own transport state.
    pub announce_project_change: bool,
    pub ops: Vec<Op>,
    /// After the commit: mark the engine as playing.
    pub arm_playing: bool,
    /// Move the playhead here (no document write).
    pub seek_to: Option<u64>,
    /// After the commit: the loop cells (enabled, start, end).
    pub loop_region: Option<(bool, u64, u64)>,
    /// After the commit: the stop-at-end cell.
    pub stop_at_end: Option<bool>,
}

/// `op` sets the transport's `path` to `to`.
pub open spec fn is_transport_set(op: Op, path: PropPath, to: WireKey) -> bool {
    op matches Op::SetProp { object: ObjectRef::Transport, path: p, from: WireValue::Null, to: t } && p == path
        && t@ == to
}

/// A person's transient transaction labelled `text`, under a fresh run.
pub open spec fn transient_meta_is(meta: Option<TxMeta>, text: Seq<char>) -> bool {
    meta matches Some(m) && m.label@ == text && m.actor == Actor::User && m.transient && m.run@.len() == 36
}

/// The step a transport command takes, given the document's transport
/// label (read inside the transaction) and whether a take or count-in is
/// running.
pub open spec fn is_transport_step(action: TransportAction, doc_state: Seq<char>, take_running: bool, st: TransportStep) -> bool {
    &&& st.clear_park == (action is Play || action is Stop || action is Seek)
    &&& !st.announce_project_change
    &&& match action {
        TransportAction::Play => {
            let recording = doc_state == "recording"@;
            &&& transient_meta_is(st.commit_meta, "transport play"@)
            &&& (if recording { st.ops@.len() == 0 } else {
                st.ops@.len() == 1 && is_transport_set(st.ops@[0], PropPath::TransportState, WireKey::Text("playing"@))
            })
            &&& st.arm_playing == !recording
            &&& !st.finish_take && !st.freeze_playback && !st.clear_launch
            &&& st.seek_to is None && st.loop_region is None && st.stop_at_end is None
        },
        TransportAction::Stop => {
            &&& transient_meta_is(st.commit_meta, "transport stop"@)
            &&& st.ops@.len() == 1
            &&& is_transport_set(st.ops@[0], PropPath::TransportState, WireKey::Text("stopped"@))
            &&& st.finish_take == take_running
            &&& st.freeze_playback
            &&& st.clear_launch
            &&& !st.arm_playing
            &&& st.seek_to is None && st.loop_region is None && st.stop_at_end is None
        },
        TransportAction::Seek { position_samples } => {
            &&& st.commit_meta is None
            &&& st.ops@.len() == 0
            &&& st.seek_to == Some(position_samples)
            &&& !st.finish_take && !st.freeze_playback && !st.clear_launch && !st.arm_playing
            &&& st.loop_region is None && st.stop_at_end is None
        },
        TransportAction::SetLoop { enabled, start_samples, end_samples } => {
            &&& transient_meta_is(st.commit_meta, "transport set loop"@)
            &&& st.ops@.len() == 3
            &&& is_transport_set(st.ops@[0], PropPath::LoopEnabled, WireKey::Bool(enabled))
            &&& is_transport_set(st.ops@[1], PropPath::LoopStartSamples, WireKey::UInt(start_samples))
            &&& is_transport_set(st.ops@[2], PropPath::LoopEndSamples, WireKey::UInt(end_samples))
            &&& st.loop_region == Some((enabled, start_samples, end_samples))
            &&& !st.finish_take && !st.freeze_playback && !st.clear_launch && !st.arm_playing
            &&& st.seek_to is None && st.stop_at_end is None
        },
        TransportAction::SetStopAtEnd { enabled } => {
            &&& transient_meta_is(st.commit_meta, "transport set stop at end"@)
            &&& st.ops@.len() == 1
            &&& is_transport_set(st.ops@[0], PropPath::StopAtEnd, WireKey::Bool(enabled))
            &&& st.stop_at_end == Some(enabled)
            &&& !st.finish_take && !st.freeze_playback && !st.clear_launch && !st.arm_playing
            &&& st.seek_to is None && st.loop_region is None
        },
    }
}

/// Whether an action is refused: an enabled loop region must not be empty.
pub open spec fn is_empty_loop(action: TransportAction) -> bool {
    action matches TransportAction::SetLoop { enabled, start_samples, end_samples } && enabled
        && end_samples <= start_samples
}

/// A transport action stays out of history: whatever it commits is
/// transient (so the commit path never journals it or records an undo
/// step), and it never announces a project change.
pub proof fn lemma_transport_stays_out_of_history(
    action: TransportAction,
    doc_state: Seq<char>,
    take_running: bool,
    st: TransportStep,
)
    requires
        is_transport_step(action, doc_state, take_running, st),
    ensures
        st.commit_meta matches Some(m) ==> m.transient,
        !st.announce_project_change,
{
}

fn transport_set(path: PropPath, to: WireValue) -> (op: Op)
    ensures
        op == (Op::SetProp { object: ObjectRef::Transport, path, from: WireValue::Null, to }),
{
    Op::SetProp { object: ObjectRef::Transport, path, from: WireValue::Null, to }
}

fn quiet_step(clear_park: bool, meta: Option<TxMeta>, ops: Vec<Op>) -> (st: TransportStep)
    ensures
        st.clear_park == clear_park,
        st.commit_meta == meta,
        !st.announce_project_change,
        st.ops == ops,
        !st.finish_take && !st.freeze_playback && !st.clear_launch && !st.arm_playing,
        st.seek_to is None && st.loop_region is None && st.stop_at_end is None,
{
    TransportStep {
        clear_park,
        finish_take: false,
        freeze_playback: false,
        clear_launch: false,
        commit_meta: meta,
        announce_project_change: false,
        ops,
        arm_playing: false,
        seek_to: None,
        loop_region: None,
        stop_at_end: None,
    }
}

/// Decide one transport command. `doc_state` is the document's transport
/// label as the transaction sees it; `take_running` is whether the engine
/// is recording or counting in. Play never downgrades a running
/// `"recording"` label; an enabled empty loop region is refused before
/// anything is written.
pub fn transport_step(action: &TransportAction, doc_state: &String, take_running: bool) -> (r: Result<TransportStep, PlanError>)
    ensures
        r is Err <==> is_empty_loop(*action),
        r matches Err(e) ==> (*action matches TransportAction::SetLoop { start_samples, end_samples, .. }
            && e == PlanError::EmptyLoopRegion { start: start_samples, end: end_samples }),
        r matches Ok(st) ==> is_transport_step(*action, doc_state@, take_running, st),
{
    proof {
        reveal_strlit("recording");
        reveal_strlit("playing");
        reveal_strlit("stopped");
    }
    match action {
        TransportAction::Play => {
            let recording = str_is(doc_state, "recording");
            let mut ops: Vec<Op> = Vec::new();
            if !recording {
                ops.push(transport_set(PropPath::TransportState, WireValue::Text(String::from_str("playing"))));
            }
            let mut st = quiet_step(true, Some(TxMeta::user("transport play").transient()), ops);
            st.arm_playing = !recording;
            Ok(st)
        },
        TransportAction::Stop => {
            let mut ops: Vec<Op> = Vec::new();
            ops.push(transport_set(PropPath::TransportState, WireValue::Text(String::from_str("stopped"))));
            let mut st = quiet_step(true, Some(TxMeta::user("transport stop").transient()), ops);
            st.finish_take = take_running;
            st.freeze_playback = true;
            st.clear_launch = true;
            Ok(st)
        },
        TransportAction::Seek { position_samples } => {
            let mut st = quiet_step(true, None, Vec::new());
            st.seek_to = Some(*position_samples);
            Ok(st)
        },
        TransportAction::SetLoop { enabled, start_samples, end_samples } => {
            if *enabled && *end_samples <= *start_samples {
                return Err(PlanError::EmptyLoopRegion { start: *start_samples, end: *end_samples });
            }
            let mut ops: Vec<Op> = Vec::new();
            ops.push(transport_set(PropPath::LoopEnabled, WireValue::Bool(*enabled)));
            ops.push(transport_set(PropPath::LoopStartSamples, WireValue::UInt(*start_samples)));
            ops.push(transport_set(PropPath::LoopEndSamples, WireValue::UInt(*end_samples)));
            let mut st = quiet_step(false, Some(TxMeta::user("transport set loop").transient()), ops);
            st.loop_region = Some((*enabled, *start_samples, *end_samples));
            Ok(st)
        },
        TransportAction::SetStopAtEnd { enabled } => {
            let mut ops: Vec<Op> = Vec::new();
            ops.push(transport_set(PropPath::StopAtEnd, WireValue::Bool(*enabled)));
            let mut st = quiet_step(false, Some(TxMeta::user("transport set stop at end").transient()), ops);
            st.stop_at_end = Some(*enabled);
            Ok(st)
        },
    }
}

/// The automation boundary a stop sends to the engine once its commit has
/// landed.
#[derive(Clone, Copy, Debug, PartialEq, Eq, Structural)]
pub struct AutomationStop {
    /// Where the playhead stood when playback froze.
    pub at: u64,
    /// Whether a pass was running: only then may the boundary write
    /// automation points or an undo step.
    pub active_pass: bool,
    /// Advance the automation pass counter (before the commit), handing the
    /// pass that stopped along with the boundary.
    pub advance_pass: bool,
}

/// The boundary of a stop, from what freezing the playhead read: whether
/// it was playing and its position. A stop while already stopped carries
/// an inactive pass and leaves the pass counter alone.
pub fn automation_stop(was_playing: bool, position: u64) -> (b: AutomationStop)
    ensures
        b == (AutomationStop { at: position, active_pass: was_playing, advance_pass: was_playing }),
{
    AutomationStop { at: position, active_pass: was_playing, advance_pass: was_playing }
}

// ---------------------------------------------------------------------------
// Pads
// ---------------------------------------------------------------------------

/// How many pads may sound or wait to sound at once.
pub const VOICE_CAP: usize = 32;

/// Which voice a press steals, if any: a pad that is already sounding is
/// retriggered on its own clock, and otherwise the oldest voice goes only
/// when every voice is spent.
pub fn voice_to_steal(clock_live: bool, voices_in_use: usize, oldest: Option<usize>) -> (r: Option<usize>)
    ensures
        r == (if clock_live || voices_in_use < VOICE_CAP { None } else { oldest }),
{
    if clock_live || voices_in_use < VOICE_CAP {
        None
    } else {
        oldest
    }
}

/// A new pad's name: the requested one, trimmed, unless that leaves
/// nothing; otherwise `"PAD <n>"` for the `n`-th pad.
pub fn player_name(name: Option<String>, index: usize) -> (r: String)
    requires
        index < u64::MAX,
    ensures
        r@ == match name {
            Some(n) => if trim_spec(n@).len() > 0 { trim_spec(n@) } else { "PAD "@ + decimal((index + 1) as nat) },
            None => "PAD "@ + decimal((index + 1) as nat),
        },
{
    proof {
        reveal_strlit("");
        assert(""@ =~= Seq::<char>::empty());
    }
    match name {
        Some(n) => {
            let t = trim_text(&n);
            let empty = str_is(&t, "");
            proof {
                if t@.len() == 0 {
                    assert(t@ =~= ""@);
                }
            }
            if !empty {
                return t;
            }
        },
        None => {},
    }
    numbered("PAD ", index as u64 + 1)
}

/// What a pad plays.
pub enum PlayerSource {
    /// A knobs-only pad: nothing to sound.
    Empty,
    AudioClip { clip_id: String },
    MidiClip { clip_id: String },
}

/// How a pad responds to a press and its release. `Gate` and `OneShot`
/// fire alike; only who releases the pad, and when, differs.
#[derive(Clone, Copy, Debug, PartialEq, Eq, Structural)]
pub enum TriggerMode {
    Gate,
    OneShot,
    Loop,
}

/// A performance pad as the press path reads it.
pub struct Player {
    pub id: String,
    pub name: String,
    pub source: PlayerSource,
    /// Plays its source dry, past the track chain.
    pub raw: bool,
    pub trigger: TriggerMode,
}

/// The index of the pad `id` in `players`, or why there is none.
pub fn find_player(players: &Vec<Player>, id: &String) -> (r: Result<usize, PlanError>)
    ensures
        ({
            let i = crate::plane::first_match(players@, |p: Player| p.id@, id@);
            if i == -1 {
                r == Err::<usize, PlanError>(PlanError::UnknownPlayer(*id))
            } else {
                r == Ok::<usize, PlanError>(i as usize)
            }
        }),
{
    let mut i: usize = 0;
    while i < players.len()
        invariant
            i <= players@.len(),
            forall|j: int| 0 <= j < i ==> #[trigger] players@[j].id@ != id@,
        decreases players.len() - i,
    {
        if players[i].id == *id {
            proof {
                crate::plane::lemma_first_match_at(players@, |p: Player| p.id@, id@, i as int);
            }
            return Ok(i);
        }
        i = i + 1;
    }
    proof {
        crate::plane::lemma_first_match(players@, |p: Player| p.id@, id@, players@.len() as int);
    }
    Err(PlanError::UnknownPlayer(id.clone()))
}

/// What a press does once its source's length in samples is known.
#[derive(Clone, Copy, Debug, PartialEq, Eq, Structural)]
pub enum PressPlan {
    /// Nothing to sound (a knobs-only pad, an empty placement, no sample
    /// rate): the press is a quiet success.
    Silent,
    /// Start the pad's clock for `len` samples, looping when the pad loops.
    Fire { clock: u32, len: u64, looping: bool },
}

/// Decide a press of the pad `id` whose source sounds for `len` samples,
/// given the clock the graph bound to it (`None` before the graph was
/// rebuilt for the pad). A zero length is settled before the clock is
/// looked up, so a knobs-only pad never reports a missing clock.
pub fn plan_press(id: &String, trigger: TriggerMode, len: u64, clock: Option<u32>) -> (r: Result<PressPlan, PlanError>)
    ensures
        r == (if len == 0 {
            Ok::<PressPlan, PlanError>(PressPlan::Silent)
        } else {
            match clock {
                Some(c) => Ok::<PressPlan, PlanError>(PressPlan::Fire { clock: c, len, looping: trigger == TriggerMode::Loop }),
                None => Err::<PressPlan, PlanError>(PlanError::PlayerHasNoClock(*id)),
            }
        }),
{
    if len == 0 {
        return Ok(PressPlan::Silent);
    }
    match clock {
        Some(c) => {
            let looping = match trigger {
                TriggerMode::Loop => true,
                _ => false,
            };
            Ok(PressPlan::Fire { clock: c, len, looping })
        },
        None => Err(PlanError::PlayerHasNoClock(id.clone())),
    }
}

/// How long a pad's source sounds, before tempo conversion: a length in
/// samples, or a MIDI placement's span in ticks for the caller to convert
/// through the tempo map the arrangement uses.
#[derive(Clone, Copy, Debug, PartialEq, Eq, Structural)]
pub enum SourceExtent {
    Samples(u64),
    Ticks { start: u64, end: u64 },
}

/// The extent of a pad's source: an audio clip's length; a MIDI clip's
/// placement (start to start + length) — or nothing at all while the
/// engine has no sample rate; nothing for a knobs-only pad. A source
/// clip the document no longer holds is an error.
pub fn player_source_extent(
    source: &PlayerSource,
    clips: &Vec<crate::types::Clip>,
    midi_clips: &Vec<crate::types::MidiClip>,
    rate: u32,
) -> (r: Result<SourceExtent, PlanError>)
    requires
        source matches PlayerSource::MidiClip { clip_id } ==> {
            let i = crate::plane::first_match(midi_clips@, |c: crate::types::MidiClip| c.id@, clip_id@);
            i != -1 ==> midi_clips@[i].timeline_start_ticks + midi_clips@[i].length_ticks <= u64::MAX
        },
    ensures
        match source {
            PlayerSource::Empty => r == Ok::<SourceExtent, PlanError>(SourceExtent::Samples(0)),
            PlayerSource::AudioClip { clip_id } => {
                let i = crate::plane::first_match(clips@, |c: crate::types::Clip| c.id@, clip_id@);
                if i == -1 {
                    r == Err::<SourceExtent, PlanError>(PlanError::UnknownClip(*clip_id))
                } else {
                    r == Ok::<SourceExtent, PlanError>(SourceExtent::Samples(clips@[i].length_samples))
                }
            },
            PlayerSource::MidiClip { clip_id } => {
                let i = crate::plane::first_match(midi_clips@, |c: crate::types::MidiClip| c.id@, clip_id@);
                if i == -1 {
                    r == Err::<SourceExtent, PlanError>(PlanError::UnknownMidiClip(*clip_id))
                } else if rate == 0 {
                    r == Ok::<SourceExtent, PlanError>(SourceExtent::Samples(0))
                } else {
                    r == Ok::<SourceExtent, PlanError>(SourceExtent::Ticks {
                        start: midi_clips@[i].timeline_start_ticks,
                        end: (midi_clips@[i].timeline_start_ticks + midi_clips@[i].length_ticks) as u64,
                    })
                }
            },
        },
{
    match source {
        PlayerSource::Empty => Ok(SourceExtent::Samples(0)),
        PlayerSource::AudioClip { clip_id } => {
            let mut i: usize = 0;
            while i < clips.len()
                invariant
                    i <= clips@.len(),
                    *source == (PlayerSource::AudioClip { clip_id: *clip_id }),
                    forall|j: int| 0 <= j < i ==> #[trigger] clips@[j].id@ != clip_id@,
                decreases clips.len() - i,
            {
                if clips[i].id == *clip_id {
                    proof {
                        crate::plane::lemma_first_match_at(clips@, |c: crate::types::Clip| c.id@, clip_id@, i as int);
                    }
                    return Ok(SourceExtent::Samples(clips[i].length_samples));
                }
                i = i + 1;
            }
            proof {
                crate::plane::lemma_first_match(clips@, |c: crate::types::Clip| c.id@, clip_id@, clips@.len() as int);
            }
            Err(PlanError::UnknownClip(clip_id.clone()))
        },
        PlayerSource::MidiClip { clip_id } => {
            let mut i: usize = 0;
            while i < midi_clips.len()
                invariant
                    i <= midi_clips@.len(),
                    *source == (PlayerSource::MidiClip { clip_id: *clip_id }),
                    forall|j: int| 0 <= j < i ==> #[trigger] midi_clips@[j].id@ != clip_id@,
                    ({
                        let f = crate::plane::first_match(midi_clips@, |c: crate::types::MidiClip| c.id@, clip_id@);
                        f != -1 ==> midi_clips@[f].timeline_start_ticks + midi_clips@[f].length_ticks <= u64::MAX
                    }),
                decreases midi_clips.len() - i,
            {
                if midi_clips[i].id == *clip_id {
                    proof {
                        crate::plane::lemma_first_match_at(midi_clips@, |c: crate::types::MidiClip| c.id@, clip_id@, i as int);
                    }
                    if rate == 0 {
                        return Ok(SourceExtent::Samples(0));
                    }
                    let c = &midi_clips[i];
                    return Ok(SourceExtent::Ticks { start: c.timeline_start_ticks, end: c.timeline_start_ticks + c.length_ticks });
                }
                i = i + 1;
            }
            proof {
                crate::plane::lemma_first_match(midi_clips@, |c: crate::types::MidiClip| c.id@, clip_id@, midi_clips@.len() as int);
            }
            Err(PlanError::UnknownMidiClip(clip_id.clone()))
        },
    }
}

/// A converted MIDI span in samples: the difference of its two ends (so a
/// placement under a tempo change is as long as it actually sounds), never
/// negative.
pub fn span_samples(start: u64, end: u64) -> (n: u64)
    ensures
        n == (if end >= start { end - start } else { 0 }),
{
    if end >= start { end - start } else { 0 }
}

/// Why releasing a pad failed, given whether the document knows the pad:
/// a pad the graph has not been rebuilt for has no clock yet; anything
/// else is unknown.
pub fn player_stop_error(id: &String, in_document: bool) -> (e: PlanError)
    ensures
        e == (if in_document { PlanError::PlayerHasNoClock(*id) } else { PlanError::UnknownPlayer(*id) }),
{
    if in_document {
        PlanError::PlayerHasNoClock(id.clone())
    } else {
        PlanError::UnknownPlayer(id.clone())
    }
}

// ---------------------------------------------------------------------------
// Quantize grid
// ---------------------------------------------------------------------------

/// The signature governing `tick`: the latest change at or before it (the
/// last one listed among equals), else 4/4 from tick 0.
pub open spec fn governs(meters: Seq<MeterEvent>, tick: u64, i: int) -> bool {
    &&& 0 <= i < meters.len()
    &&& meters[i].tick <= tick
    &&& forall|j: int| 0 <= j < meters.len() && #[trigger] meters[j].tick <= tick ==> meters[j].tick <= meters[i].tick
    &&& forall|j: int| i < j < meters.len() && #[trigger] meters[j].tick <= tick ==> meters[j].tick < meters[i].tick
}

/// Whether some signature change lies at or before `tick`.
pub open spec fn has_meter_before(meters: Seq<MeterEvent>, tick: u64) -> bool {
    exists|j: int| 0 <= j < meters.len() && #[trigger] meters[j].tick <= tick
}

/// The signature governing `tick`, as a value.
pub open spec fn governing(meters: Seq<MeterEvent>, tick: u64) -> MeterEvent {
    if has_meter_before(meters, tick) {
        meters[choose|i: int| governs(meters, tick, i)]
    } else {
        MeterEvent { tick: 0, num: 4, den: 4 }
    }
}

/// At most one change governs a tick.
pub proof fn lemma_governs_unique(meters: Seq<MeterEvent>, tick: u64, i: int, k: int)
    requires
        governs(meters, tick, i),
        governs(meters, tick, k),
    ensures
        i == k,
{
    assert(meters[k].tick <= meters[i].tick);
    assert(meters[i].tick <= meters[k].tick);
}

/// The signature governing `tick`.
pub fn governing_meter(meters: &Vec<MeterEvent>, tick: u64) -> (e: MeterEvent)
    ensures
        has_meter_before(meters@, tick) ==> exists|i: int| governs(meters@, tick, i) && e == meters@[i],
        !has_meter_before(meters@, tick) ==> e == (MeterEvent { tick: 0, num: 4, den: 4 }),
        e == governing(meters@, tick),
{
    let mut best: Option<usize> = None;
    let mut i: usize = 0;
    while i < meters.len()
        invariant
            i <= meters@.len(),
            match best {
                Some(b) => b < i && governs(meters@.subrange(0, i as int), tick, b as int),
                None => forall|j: int| 0 <= j < i ==> #[trigger] meters@[j].tick > tick,
            },
        decreases meters.len() - i,
    {
        let t = meters[i].tick;
        if t <= tick {
            match best {
                Some(b) => {
                    if t >= meters[b].tick {
                        best = Some(i);
                    }
                },
                None => {
                    best = Some(i);
                },
            }
        }
        proof {
            let sub = meters@.subrange(0, i + 1);
            match best {
                Some(b) => {
                    assert forall|j: int| 0 <= j < sub.len() && #[trigger] sub[j].tick <= tick implies sub[j].tick <= sub[b as int].tick by {
                        if j < i {
                            assert(sub[j] == meters@.subrange(0, i as int)[j]);
                        }
                    }
                    assert forall|j: int| b < j < sub.len() && #[trigger] sub[j].tick <= tick implies sub[j].tick < sub[b as int].tick by {
                        if j < i {
                            assert(sub[j] == meters@.subrange(0, i as int)[j]);
                        }
                    }
                },
                None => {},
            }
        }
        i = i + 1;
    }
    proof {
        assert(meters@.subrange(0, meters@.len() as int) =~= meters@);
        match best {
            Some(b) => {
                assert(meters@[b as int].tick <= tick);
                assert(has_meter_before(meters@, tick));
                let c = choose|i: int| governs(meters@, tick, i);
                lemma_governs_unique(meters@, tick, b as int, c);
            },
            None => {},
        }
    }
    match best {
        Some(b) => meters[b],
        None => MeterEvent { tick: 0, num: 4, den: 4 },
    }
}

/// A bar of `e` in ticks at `ppq` per quarter (never zero; a zero
/// denominator counts as one).
pub open spec fn spec_bar_ticks(e: MeterEvent, ppq: u32) -> u64 {
    let den: int = if e.den == 0 { 1 } else { e.den as int };
    let bar = (e.num * ppq * 4) / den;
    if bar < 1 { 1 } else { bar as u64 }
}

/// THE BAR LAW: a bar of `num/den` at `ppq` ticks per quarter spans
/// `num` beats of `4/den` quarters each — `num * ppq * 4 / den` ticks,
/// rounded down (a zero denominator counts as one), and never less than
/// one tick. So the bar scales with the document's resolution: at twice
/// the resolution a bar of a meter that divides evenly is twice as long.
pub proof fn lemma_bar_ticks_measures_the_meter(e: MeterEvent, ppq: u32)
    requires
        e.num * ppq * 4 <= u64::MAX,
    ensures
        ({
            let d: int = if e.den == 0 { 1 } else { e.den as int };
            let whole: int = e.num as int * ppq as int * 4;
            let bar: int = spec_bar_ticks(e, ppq) as int;
            &&& whole >= d ==> bar * d <= whole && whole < (bar + 1) * d
            &&& whole < d ==> bar == 1
            &&& bar >= 1
        }),
        ({
            let d: int = if e.den == 0 { 1 } else { e.den as int };
            let whole: int = e.num as int * ppq as int * 4;
            (whole % d == 0 && whole >= d && 2 * ppq <= u32::MAX && 2 * whole <= u64::MAX)
                ==> spec_bar_ticks(e, (2 * ppq) as u32) as int == 2 * spec_bar_ticks(e, ppq) as int
        }),
{
    let d: int = if e.den == 0 { 1 } else { e.den as int };
    let whole: int = e.num as int * ppq as int * 4;
    let q = whole / d;
    assert(q * d <= whole && whole < q * d + d) by (nonlinear_arith)
        requires
            q == whole / d,
            d > 0,
            whole >= 0,
    ;
    assert(whole >= d ==> q >= 1) by (nonlinear_arith)
        requires
            q == whole / d,
            d > 0,
            whole >= 0,
    ;
    assert(whole < d ==> q == 0) by (nonlinear_arith)
        requires
            q == whole / d,
            d > 0,
            whole >= 0,
    ;
    assert((q + 1) * d == q * d + d) by (nonlinear_arith);
    assert(q <= whole) by (nonlinear_arith)
        requires
            q == whole / d,
            d > 0,
            whole >= 0,
    ;
    if whole % d == 0 && whole >= d && 2 * ppq <= u32::MAX && 2 * whole <= u64::MAX {
        let p2 = (2 * ppq) as u32;
        let whole2: int = e.num as int * p2 as int * 4;
        assert(whole2 == 2 * whole) by (nonlinear_arith)
            requires
                p2 == 2 * ppq,
                whole == e.num as int * ppq as int * 4,
                whole2 == e.num as int * p2 as int * 4,
        ;
        assert(whole2 / d == 2 * q) by (nonlinear_arith)
            requires
                whole % d == 0,
                q == whole / d,
                whole2 == 2 * whole,
                d > 0,
        ;
    }
}

/// A bar of `e` in ticks.
pub fn bar_ticks(e: MeterEvent, ppq: u32) -> (r: u64)
    requires
        e.num * ppq * 4 <= u64::MAX,
    ensures
        r == spec_bar_ticks(e, ppq),
        r >= 1,
{
    let den: u64 = if e.den == 0 { 1 } else { e.den as u64 };
    proof {
        assert(e.num as u64 * ppq as u64 <= e.num * ppq * 4) by (nonlinear_arith);
    }
    let product: u64 = e.num as u64 * ppq as u64 * 4;
    let bar: u64 = product / den;
    if bar < 1 { 1 } else { bar }
}

/// The first grid line strictly after `tick`, on a grid of `grid` ticks
/// anchored at `origin` (a tick before the origin counts as the origin).
pub open spec fn spec_next_grid_tick(tick: u64, origin: u64, grid: u64) -> int {
    let since: int = if tick >= origin { tick - origin } else { 0 };
    origin + (since / grid as int + 1) * grid
}

/// The first grid line after `tick`.
pub fn next_grid_tick(tick: u64, origin: u64, grid: u64) -> (r: u64)
    requires
        grid >= 1,
        spec_next_grid_tick(tick, origin, grid) <= u64::MAX,
    ensures
        r == spec_next_grid_tick(tick, origin, grid),
{
    let since: u64 = if tick >= origin { tick - origin } else { 0 };
    let q: u64 = since / grid;
    proof {
        assert((q + 1) * grid <= spec_next_grid_tick(tick, origin, grid) - origin);
        assert(q * grid <= since) by (nonlinear_arith)
            requires
                q == since / grid,
                grid >= 1,
        ;
        assert((q + 1) * grid == q * grid + grid) by (nonlinear_arith);
        assert(q + 1 <= (q + 1) * grid) by (nonlinear_arith)
            requires
                grid >= 1,
                q >= 0,
        ;
    }
    let steps: u64 = q + 1;
    origin + steps * grid
}

/// A quantized start lands on the grid, strictly after the playhead, and
/// no grid line lies between the playhead and it.
pub proof fn lemma_next_grid_tick_is_next(tick: u64, origin: u64, grid: u64)
    requires
        grid >= 1,
    ensures
        spec_next_grid_tick(tick, origin, grid) > tick,
        spec_next_grid_tick(tick, origin, grid) > origin,
        (spec_next_grid_tick(tick, origin, grid) - origin) % (grid as int) == 0,
        tick >= origin ==> spec_next_grid_tick(tick, origin, grid) - grid <= tick,
{
    let since: int = if tick >= origin { tick - origin } else { 0 };
    let g = grid as int;
    let q = since / g;
    assert(q * g <= since < q * g + g) by (nonlinear_arith)
        requires
            q == since / g,
            g >= 1,
            since >= 0,
    ;
    assert((q + 1) * g == q * g + g) by (nonlinear_arith);
    assert(q >= 0) by (nonlinear_arith)
        requires
            q == since / g,
            g >= 1,
            since >= 0,
    ;
    assert(((q + 1) * g) % g == 0) by (nonlinear_arith)
        requires
            g >= 1,
    ;
}

/// What a pad press is quantized to. A division of a fixed number of
/// quarters arrives as its length in ticks at the document's resolution.
#[derive(Clone, Copy, Debug, PartialEq, Eq, Structural)]
pub enum QuantizeGrid {
    /// Start at once.
    Off,
    /// The next bar line of the governing signature.
    Bar,
    /// The next line of a grid of this many ticks, anchored at tick 0 (a
    /// zero length counts as one tick).
    Ticks(u64),
}

/// Whether a press is quantized at all: quantize must be on, the transport
/// rolling (`"playing"` or `"recording"`; a stopped playhead never reaches a
/// target), and the engine must have a sample rate.
pub open spec fn quantize_applies(q: QuantizeGrid, transport_state: Seq<char>, rate: u32) -> bool {
    &&& q !is Off
    &&& (transport_state == "playing"@ || transport_state == "recording"@)
    &&& rate != 0
}

/// The grid line a press at `tick` waits for.
pub open spec fn quantize_line(q: QuantizeGrid, ppq: u32, meters: Seq<MeterEvent>, tick: u64) -> int {
    match q {
        QuantizeGrid::Ticks(g) => spec_next_grid_tick(tick, 0, if g == 0 { 1 } else { g }),
        _ => {
            let e = governing(meters, tick);
            spec_next_grid_tick(tick, e.tick, spec_bar_ticks(e, ppq))
        },
    }
}

/// The grid arithmetic of a press at `tick` fits in 64 bits.
pub open spec fn quantize_fits(q: QuantizeGrid, ppq: u32, meters: Seq<MeterEvent>, tick: u64) -> bool {
    &&& (q is Bar ==> governing(meters, tick).num * ppq * 4 <= u64::MAX)
    &&& quantize_line(q, ppq, meters, tick) <= u64::MAX
}

/// The tick a press should wait for, or `None` to start at once: when
/// quantize is off, the transport is not rolling, there is no sample rate,
/// or the playhead's tick could not be had (`tick` is `None` when the
/// tempo map cannot be built). Otherwise the first grid line strictly
/// after the playhead: a bar line counted from the governing signature's
/// change, or a line of the fixed grid counted from tick 0.
pub fn quantize_target_tick(
    q: QuantizeGrid,
    transport_state: &String,
    rate: u32,
    ppq: u32,
    meters: &Vec<MeterEvent>,
    tick: Option<u64>,
) -> (r: Option<u64>)
    requires
        quantize_applies(q, transport_state@, rate) ==> (tick matches Some(t) ==> quantize_fits(q, ppq, meters@, t)),
    ensures
        r == (match tick {
            Some(t) => if quantize_applies(q, transport_state@, rate) {
                Some(quantize_line(q, ppq, meters@, t) as u64)
            } else {
                None::<u64>
            },
            None => None::<u64>,
        }),
{
    proof {
        reveal_strlit("playing");
        reveal_strlit("recording");
    }
    let rolling = str_is(transport_state, "playing") || str_is(transport_state, "recording");
    let applies = match q {
        QuantizeGrid::Off => false,
        _ => rolling && rate != 0,
    };
    if !applies {
        return None;
    }
    let t = match tick {
        Some(t) => t,
        None => {
            return None;
        },
    };
    match q {
        QuantizeGrid::Ticks(g) => {
            let grid: u64 = if g == 0 { 1 } else { g };
            Some(next_grid_tick(t, 0, grid))
        },
        _ => {
            let e = governing_meter(meters, t);
            let bar = bar_ticks(e, ppq);
            Some(next_grid_tick(t, e.tick, bar))
        },
    }
}

/// Where a quantized press starts: at `target` when that lies ahead of the
/// playhead, else at once (`None`).
pub fn start_if_ahead(target: u64, pos: u64) -> (r: Option<u64>)
    ensures
        r == (if target > pos { Some(target) } else { None::<u64> }),
{
    if target > pos { Some(target) } else { None }
}

} // verus!
