//! The control plane's command planners: what each front-door command
//! validates, and which ops it hands the transaction to apply.
//!
//! The control plane itself (locks, the engine handle, the commit path,
//! event emission) belongs to the caller; every decision it makes on the
//! way in lives here.

use vstd::prelude::*;
use crate::op::{ObjectRef, Op, PropPath, WireValue};
use crate::ops::{Store, TrackMixChange};
use crate::text::{decimal, push_decimal, str_is};
use crate::types::{
    AutomationMode, Clip, MeterEvent, MidiClip, PluginInstanceInfo, SendSlot, TempoEvent, TrackState,
    TransportState,
};

verus! {

// ---------------------------------------------------------------------------
// Wire types
// ---------------------------------------------------------------------------

/// The MIDI half of the document.
pub struct MidiStore {
    pub clips: Vec<MidiClip>,
    pub ppq: u32,
    pub tempo_events: Vec<TempoEvent>,
    pub meter_events: Vec<MeterEvent>,
    /// The project directory this MIDI state was loaded from or saved to.
    pub loaded_dir: Option<String>,
    /// Unsaved MIDI changes.
    pub dirty: bool,
}

/// Mark `midi` as belonging to the freshly created project `dir`, whose
/// on-disk state already matches it: nothing is left to persist.
pub fn adopt_midi_dir(midi: &mut MidiStore, dir: &String)
    ensures
        final(midi).loaded_dir == Some(*dir),
        !final(midi).dirty,
        final(midi).clips == old(midi).clips,
        final(midi).ppq == old(midi).ppq,
        final(midi).tempo_events == old(midi).tempo_events,
        final(midi).meter_events == old(midi).meter_events,
{
    midi.loaded_dir = Some(dir.clone());
    midi.dirty = false;
}

/// What a tempo-map edit resolves to before it is validated: the requested
/// resolution (else the document's), and the requested signature map
/// (else the document's), with whether a map was requested.
pub struct TempoTarget {
    pub ppq: u32,
    pub meter: Vec<MeterEvent>,
    /// A signature map came with the request, so it is validated on its
    /// own before the tempo map is.
    pub meter_given: bool,
}

/// Resolve a tempo-map edit against the document's MIDI state.
pub fn resolve_tempo_target(ppq: Option<u32>, meter: Option<Vec<MeterEvent>>, midi: &MidiStore) -> (t: TempoTarget)
    ensures
        t.ppq == (match ppq {
            Some(q) => q,
            None => midi.ppq,
        }),
        t.meter@ == (match meter {
            Some(v) => v@,
            None => midi.meter_events@,
        }),
        t.meter_given == meter is Some,
{
    let resolved = match ppq {
        Some(q) => q,
        None => midi.ppq,
    };
    let given = meter.is_some();
    let meter = match meter {
        Some(m) => m,
        None => copy_meters(&midi.meter_events),
    };
    TempoTarget { ppq: resolved, meter, meter_given: given }
}

/// The one op a tempo-map edit applies, or why nothing is applied.
/// `meter_check` is the verdict on a requested signature map and
/// `tempo_check` the verdict on building the tempo map from the resolved
/// resolution, events and signatures; a bad requested signature map is
/// reported first, and a refused edit applies no op at all.
pub fn plan_tempo_map(
    target: TempoTarget,
    events: Vec<TempoEvent>,
    meter_check: Result<(), String>,
    tempo_check: Result<(), String>,
) -> (r: Result<Op, PlanError>)
    ensures
        r is Err <==> (target.meter_given && meter_check is Err) || tempo_check is Err,
        target.meter_given ==> (meter_check matches Err(e) ==> r == Err::<Op, PlanError>(PlanError::TempoMapRejected(e))),
        (!target.meter_given || meter_check is Ok) ==> (tempo_check matches Err(e) ==> r == Err::<Op, PlanError>(PlanError::TempoMapRejected(e))),
        r matches Ok(op) ==> op == (Op::TempoSet { ppq: target.ppq, events, meter: target.meter }),
{
    if target.meter_given {
        if let Err(e) = meter_check {
            return Err(PlanError::TempoMapRejected(e));
        }
    }
    match tempo_check {
        Err(e) => Err(PlanError::TempoMapRejected(e)),
        Ok(()) => Ok(Op::TempoSet { ppq: target.ppq, events, meter: target.meter }),
    }
}

fn copy_meters(v: &Vec<MeterEvent>) -> (r: Vec<MeterEvent>)
    ensures
        r@ == v@,
{
    let mut r: Vec<MeterEvent> = Vec::new();
    let mut i: usize = 0;
    while i < v.len()
        invariant
            i <= v@.len(),
            r@ == v@.subrange(0, i as int),
        decreases v.len() - i,
    {
        r.push(v[i]);
        proof {
            assert(v@.subrange(0, i + 1) =~= v@.subrange(0, i as int).push(v@[i as int]));
        }
        i = i + 1;
    }
    proof {
        assert(v@.subrange(0, v@.len() as int) =~= v@);
    }
    r
}

/// Full state snapshot. Sections whose shape this crate does not own (the
/// period events, the section table, the harmony document) ride along as
/// their JSON text.
pub struct ProjectSnapshot {
    pub project_name: Option<String>,
    pub project_dir: Option<String>,
    pub transport: TransportState,
    pub tracks: Vec<TrackState>,
    pub clips: Vec<Clip>,
    pub midi_clips: Vec<MidiClip>,
    pub ppq: u32,
    pub tempo_events: Vec<TempoEvent>,
    pub meter_map: Vec<MeterEvent>,
    pub period_events: String,
    pub section_table: String,
    pub section_table_rule_version: u32,
    pub harmony: String,
}

/// Argument of `import_audio_clip`.
pub struct ImportClipRequest {
    /// Absolute path to a wav/flac file.
    pub path: String,
    /// Target track; `None` = a new audio track named after the file.
    pub track_id: Option<String>,
    /// Timeline placement in samples; `None` = 0.
    pub at_samples: Option<u64>,
}

/// One clip's new placement in a `move_clips` batch: audio clips in
/// samples, MIDI clips in ticks. `None` lengths mean unchanged.
pub enum ClipPlacement {
    Audio { clip_id: String, timeline_start_samples: u64 },
    Midi {
        clip_id: String,
        timeline_start_ticks: u64,
        length_ticks: Option<u64>,
        content_length_ticks: Option<u64>,
    },
}

impl ClipPlacement {
    /// The id of the clip this placement moves.
    pub open spec fn spec_clip_id(self) -> String {
        match self {
            ClipPlacement::Audio { clip_id, .. } => clip_id,
            ClipPlacement::Midi { clip_id, .. } => clip_id,
        }
    }

    /// The id of the clip this placement moves.
    pub fn clip_id(&self) -> (id: &String)
        ensures
            *id == self.spec_clip_id(),
    {
        match self {
            ClipPlacement::Audio { clip_id, .. } => clip_id,
            ClipPlacement::Midi { clip_id, .. } => clip_id,
        }
    }
}

/// One lane of an arrangement: a track and its group label.
pub struct LaneArrangement {
    pub track_id: String,
    pub group: Option<String>,
}

/// Why a command was refused before any op was applied.
#[derive(Debug)]
pub enum PlanError {
    UnknownTrack(String),
    UnknownClip(String),
    UnknownMidiClip(String),
    /// The track exists but is not a MIDI track; carries its kind.
    NotMidiTrack { track_id: String, kind: String },
    /// An enabled loop region with `end <= start`.
    EmptyLoopRegion { start: u64, end: u64 },
    /// The session already has audible content.
    AlreadyHasContent,
    /// An automation clip with an empty id, track id or curve id.
    EmptyAutomationClipField(AutomationClipField),
    /// The instance is already an insert on some track.
    InstanceIsInsert(String),
    /// The plugin is an effect; carries its name.
    EffectAsInstrument(String),
    UnknownPlayer(String),
    UnknownInsertSlot(String),
    UnknownPluginInstance(String),
    UnknownSend(String),
    /// The pad is in the document but the graph has no clock for it yet.
    PlayerHasNoClock(String),
    /// A tempo-map edit whose signature map or tempo map is invalid;
    /// carries the validator's reason.
    TempoMapRejected(String),
}

/// The text of a refusal, as the command reports it.
pub open spec fn plan_error_text(e: PlanError) -> Seq<char> {
    match e {
        PlanError::UnknownTrack(id) => "unknown track: "@ + id@,
        PlanError::UnknownClip(id) => "unknown clip: "@ + id@,
        PlanError::UnknownMidiClip(id) => "unknown midi clip: "@ + id@,
        PlanError::NotMidiTrack { track_id, kind } => "track "@ + track_id@ + " is kind \""@ + kind@
            + "\" (a midi route needs a midi track)"@,
        PlanError::EmptyLoopRegion { start, end } => "loop region is empty (start "@ + decimal(start as nat)
            + " >= end "@ + decimal(end as nat) + ")"@,
        PlanError::AlreadyHasContent => "project already has content"@,
        PlanError::EmptyAutomationClipField(f) => match f {
            AutomationClipField::Id => "automation clip id must not be empty"@,
            AutomationClipField::TrackId => "automation clip trackId must not be empty"@,
            AutomationClipField::CurveId => "automation clip curveId must not be empty"@,
        },
        PlanError::InstanceIsInsert(id) => "plugin instance "@ + id@
            + " is already an insert; cannot bind as instrument"@,
        PlanError::EffectAsInstrument(name) => name@ + " is an effect; cannot bind as instrument"@,
        PlanError::UnknownPlayer(id) => "unknown player: "@ + id@,
        PlanError::UnknownInsertSlot(id) => "unknown insert slot: "@ + id@,
        PlanError::UnknownPluginInstance(id) => "unknown plugin instance: "@ + id@,
        PlanError::UnknownSend(id) => "unknown send: "@ + id@,
        PlanError::PlayerHasNoClock(id) => "player has no clock yet: "@ + id@,
        PlanError::TempoMapRejected(reason) => reason@,
    }
}

fn prefixed(prefix: &str, s: &String) -> (r: String)
    ensures
        r@ == prefix@ + s@,
{
    let mut r = String::from_str(prefix);
    r.append(s.as_str());
    r
}

impl PlanError {
    /// The refusal as the command reports it to its caller.
    pub fn message(&self) -> (m: String)
        ensures
            m@ == plan_error_text(*self),
    {
        match self {
            PlanError::UnknownTrack(id) => prefixed("unknown track: ", id),
            PlanError::UnknownClip(id) => prefixed("unknown clip: ", id),
            PlanError::UnknownMidiClip(id) => prefixed("unknown midi clip: ", id),
            PlanError::NotMidiTrack { track_id, kind } => {
                let mut m = prefixed("track ", track_id);
                m.append(" is kind \"");
                m.append(kind.as_str());
                m.append("\" (a midi route needs a midi track)");
                m
            },
            PlanError::EmptyLoopRegion { start, end } => {
                let mut m = String::from_str("loop region is empty (start ");
                push_decimal(&mut m, *start);
                m.append(" >= end ");
                push_decimal(&mut m, *end);
                m.append(")");
                m
            },
            PlanError::AlreadyHasContent => String::from_str("project already has content"),
            PlanError::EmptyAutomationClipField(f) => match f {
                AutomationClipField::Id => String::from_str("automation clip id must not be empty"),
                AutomationClipField::TrackId => String::from_str("automation clip trackId must not be empty"),
                AutomationClipField::CurveId => String::from_str("automation clip curveId must not be empty"),
            },
            PlanError::InstanceIsInsert(id) => {
                let mut m = prefixed("plugin instance ", id);
                m.append(" is already an insert; cannot bind as instrument");
                m
            },
            PlanError::EffectAsInstrument(name) => {
                let mut m = prefixed("", name);
                proof {
                    reveal_strlit("");
                    assert(""@ + name@ =~= name@);
                }
                m.append(" is an effect; cannot bind as instrument");
                m
            },
            PlanError::UnknownPlayer(id) => prefixed("unknown player: ", id),
            PlanError::UnknownInsertSlot(id) => prefixed("unknown insert slot: ", id),
            PlanError::UnknownPluginInstance(id) => prefixed("unknown plugin instance: ", id),
            PlanError::UnknownSend(id) => prefixed("unknown send: ", id),
            PlanError::PlayerHasNoClock(id) => prefixed("player has no clock yet: ", id),
            PlanError::TempoMapRejected(reason) => reason.clone(),
        }
    }
}

/// Which automation clip field was empty.
#[derive(Clone, Copy, Debug, PartialEq, Eq, Structural)]
pub enum AutomationClipField {
    Id,
    TrackId,
    CurveId,
}

// ---------------------------------------------------------------------------
// Lookups
// ---------------------------------------------------------------------------

/// Whether some track of `tracks` has the id `id`.
pub open spec fn has_track(tracks: Seq<TrackState>, id: Seq<char>) -> bool {
    exists|i: int| 0 <= i < tracks.len() && #[trigger] tracks[i].id@ == id
}

/// Whether some audio clip of `clips` has the id `id`.
pub open spec fn has_clip(clips: Seq<Clip>, id: Seq<char>) -> bool {
    exists|i: int| 0 <= i < clips.len() && #[trigger] clips[i].id@ == id
}

/// Whether some MIDI clip of `clips` has the id `id`.
pub open spec fn has_midi_clip(clips: Seq<MidiClip>, id: Seq<char>) -> bool {
    exists|i: int| 0 <= i < clips.len() && #[trigger] clips[i].id@ == id
}

/// The index of the first of the first `n` items whose key is `id`, or -1.
pub open spec fn first_match_in<T>(s: Seq<T>, key: spec_fn(T) -> Seq<char>, id: Seq<char>, n: int) -> int
    decreases n,
{
    if n <= 0 {
        -1
    } else {
        let p = first_match_in(s, key, id, n - 1);
        if p >= 0 {
            p
        } else if key(s[n - 1]) == id {
            n - 1
        } else {
            -1
        }
    }
}

/// The index of the first item whose key is `id`, or -1.
pub open spec fn first_match<T>(s: Seq<T>, key: spec_fn(T) -> Seq<char>, id: Seq<char>) -> int {
    first_match_in(s, key, id, s.len() as int)
}

/// `first_match_in` is -1 exactly when no key matches, and otherwise the
/// smallest index that does.
pub proof fn lemma_first_match<T>(s: Seq<T>, key: spec_fn(T) -> Seq<char>, id: Seq<char>, n: int)
    requires
        0 <= n <= s.len(),
    ensures
        first_match_in(s, key, id, n) == -1 <==> forall|j: int| 0 <= j < n ==> key(#[trigger] s[j]) != id,
        first_match_in(s, key, id, n) != -1 ==> {
            let f = first_match_in(s, key, id, n);
            &&& 0 <= f < n
            &&& key(s[f]) == id
            &&& forall|j: int| 0 <= j < f ==> key(#[trigger] s[j]) != id
        },
    decreases n,
{
    if n > 0 {
        lemma_first_match(s, key, id, n - 1);
    }
}

/// An index whose key is `id`, with no match before it, is the first
/// match.
pub proof fn lemma_first_match_at<T>(s: Seq<T>, key: spec_fn(T) -> Seq<char>, id: Seq<char>, i: int)
    requires
        0 <= i < s.len(),
        key(s[i]) == id,
        forall|j: int| 0 <= j < i ==> key(#[trigger] s[j]) != id,
    ensures
        first_match(s, key, id) == i,
{
    lemma_first_match(s, key, id, s.len() as int);
}

/// The first track with the id `id`, if any.
pub fn find_track(tracks: &Vec<TrackState>, id: &String) -> (r: Option<usize>)
    ensures
        match r {
            Some(i) => i < tracks@.len() && tracks@[i as int].id@ == id@
                && forall|j: int| 0 <= j < i ==> #[trigger] tracks@[j].id@ != id@,
            None => !has_track(tracks@, id@),
        },
{
    let mut i: usize = 0;
    while i < tracks.len()
        invariant
            i <= tracks@.len(),
            forall|j: int| 0 <= j < i ==> #[trigger] tracks@[j].id@ != id@,
        decreases tracks.len() - i,
    {
        if tracks[i].id == *id {
            return Some(i);
        }
        i = i + 1;
    }
    None
}

/// Whether `clips` holds an audio clip with the id `id`.
pub fn clip_exists(clips: &Vec<Clip>, id: &String) -> (b: bool)
    ensures
        b == has_clip(clips@, id@),
{
    let mut i: usize = 0;
    while i < clips.len()
        invariant
            i <= clips@.len(),
            forall|j: int| 0 <= j < i ==> #[trigger] clips@[j].id@ != id@,
        decreases clips.len() - i,
    {
        if clips[i].id == *id {
            return true;
        }
        i = i + 1;
    }
    false
}

/// Whether `clips` holds a MIDI clip with the id `id`.
pub fn midi_clip_exists(clips: &Vec<MidiClip>, id: &String) -> (b: bool)
    ensures
        b == has_midi_clip(clips@, id@),
{
    let mut i: usize = 0;
    while i < clips.len()
        invariant
            i <= clips@.len(),
            forall|j: int| 0 <= j < i ==> #[trigger] clips@[j].id@ != id@,
        decreases clips.len() - i,
    {
        if clips[i].id == *id {
            return true;
        }
        i = i + 1;
    }
    false
}

// ---------------------------------------------------------------------------
// Mix batches
// ---------------------------------------------------------------------------

/// Whether a track in this automation mode records automation.
pub open spec fn spec_records_automation(mode: AutomationMode) -> bool {
    mode == AutomationMode::Write || mode == AutomationMode::Touch || mode == AutomationMode::Latch
}

/// Whether a track in this automation mode records automation.
pub fn records_automation(mode: AutomationMode) -> (b: bool)
    ensures
        b == spec_records_automation(mode),
{
    match mode {
        AutomationMode::Write | AutomationMode::Touch | AutomationMode::Latch => true,
        _ => false,
    }
}

/// A property-addressed `Set` for a track; `from` is advisory, so `Null`.
pub open spec fn spec_set_prop(track_id: String, path: PropPath, to: WireValue) -> Op {
    Op::SetProp { object: ObjectRef::Track(track_id), path, from: WireValue::Null, to }
}

/// A property-addressed `Set` for a track.
pub fn set_prop(track_id: &String, path: PropPath, to: WireValue) -> (op: Op)
    ensures
        op == spec_set_prop(*track_id, path, to),
{
    Op::SetProp { object: ObjectRef::Track(track_id.clone()), path, from: WireValue::Null, to }
}

/// `s` followed by the `Set` a present field applies, if any.
pub open spec fn push_field_op(s: Seq<Op>, id: String, path: PropPath, v: Option<WireValue>) -> Seq<Op> {
    match v {
        Some(x) => s.push(spec_set_prop(id, path, x)),
        None => s,
    }
}

/// An optional `f64` bit pattern as a wire value.
pub open spec fn float_value(v: Option<u64>) -> Option<WireValue> {
    match v {
        Some(b) => Some(WireValue::Float(b)),
        None => None,
    }
}

/// An optional flag as a wire value.
pub open spec fn bool_value(v: Option<bool>) -> Option<WireValue> {
    match v {
        Some(b) => Some(WireValue::Bool(b)),
        None => None,
    }
}

/// An optional automation mode as a wire value.
pub open spec fn mode_value(v: Option<AutomationMode>) -> Option<WireValue> {
    match v {
        Some(m) => Some(WireValue::Mode(m)),
        None => None,
    }
}

/// `s` followed by the ops one mix change applies: one `Set` per present
/// field, in the order gain, pan, mute, solo, arm, automation mode.
pub open spec fn with_change_ops(s: Seq<Op>, c: TrackMixChange) -> Seq<Op> {
    let id = c.track_id;
    push_field_op(
        push_field_op(
            push_field_op(
                push_field_op(
                    push_field_op(
                        push_field_op(s, id, PropPath::Gain, float_value(c.gain_db_bits)),
                        id,
                        PropPath::Pan,
                        float_value(c.pan_bits),
                    ),
                    id,
                    PropPath::Muted,
                    bool_value(c.muted),
                ),
                id,
                PropPath::Soloed,
                bool_value(c.soloed),
            ),
            id,
            PropPath::Armed,
            bool_value(c.armed),
        ),
        id,
        PropPath::AutomationMode,
        mode_value(c.automation_mode),
    )
}

/// The ops a whole mix batch applies, change by change.
pub open spec fn batch_ops(cs: Seq<TrackMixChange>) -> Seq<Op>
    decreases cs.len(),
{
    if cs.len() == 0 {
        Seq::empty()
    } else {
        with_change_ops(batch_ops(cs.drop_last()), cs.last())
    }
}

/// The value a mix change asks the track property `path` to take, if any:
/// gain and pan as `f64` bit patterns, mute, solo and arm as flags, the
/// automation mode as itself. No other property is a mix field.
pub open spec fn mix_field(c: TrackMixChange, path: PropPath) -> Option<WireValue> {
    match path {
        PropPath::Gain => match c.gain_db_bits {
            Some(b) => Some(WireValue::Float(b)),
            None => None,
        },
        PropPath::Pan => match c.pan_bits {
            Some(b) => Some(WireValue::Float(b)),
            None => None,
        },
        PropPath::Muted => match c.muted {
            Some(b) => Some(WireValue::Bool(b)),
            None => None,
        },
        PropPath::Soloed => match c.soloed {
            Some(b) => Some(WireValue::Bool(b)),
            None => None,
        },
        PropPath::Armed => match c.armed {
            Some(b) => Some(WireValue::Bool(b)),
            None => None,
        },
        PropPath::AutomationMode => match c.automation_mode {
            Some(m) => Some(WireValue::Mode(m)),
            None => None,
        },
        _ => None,
    }
}

proof fn lemma_push_field_op(s: Seq<Op>, id: String, path: PropPath, v: Option<WireValue>)
    ensures
        push_field_op(s, id, path, v).len() == s.len() + (if v is Some { 1int } else { 0int }),
        forall|k: int| 0 <= k < s.len() ==> #[trigger] push_field_op(s, id, path, v)[k] == s[k],
        v matches Some(x) ==> push_field_op(s, id, path, v)[s.len() as int] == (Op::SetProp {
            object: ObjectRef::Track(id),
            path,
            from: WireValue::Null,
            to: x,
        }),
{
}

/// THE MIX LAW: the ops one mix change appends are exactly its present
/// fields, each written to its own property of its own track — a `Set` of
/// path `p` to `v` is appended exactly when the change asks `p` to take
/// `v`, once per present field, and nothing before them is touched.
pub proof fn lemma_mix_change_writes_each_field_to_its_path(s: Seq<Op>, c: TrackMixChange)
    ensures
        ({
            let out = with_change_ops(s, c);
            &&& s.len() <= out.len()
            &&& forall|k: int| 0 <= k < s.len() ==> #[trigger] out[k] == s[k]
            &&& forall|i: int| s.len() <= i < out.len() ==> (#[trigger] out[i] matches Op::SetProp {
                object: ObjectRef::Track(t),
                path,
                from: WireValue::Null,
                to,
            } && t == c.track_id && mix_field(c, path) == Some(to))
            &&& forall|i: int, j: int| s.len() <= i < j < out.len() ==> (#[trigger] out[i] matches Op::SetProp {
                path: pi,
                ..
            } && (#[trigger] out[j] matches Op::SetProp { path: pj, .. } && pi != pj))
            &&& forall|p: PropPath| #[trigger] mix_field(c, p) is Some ==> exists|i: int|
                s.len() <= i < out.len() && #[trigger] out[i] == (Op::SetProp {
                    object: ObjectRef::Track(c.track_id),
                    path: p,
                    from: WireValue::Null,
                    to: mix_field(c, p)->0,
                })
        }),
{
    let id = c.track_id;
    let s1 = push_field_op(s, id, PropPath::Gain, float_value(c.gain_db_bits));
    let s2 = push_field_op(s1, id, PropPath::Pan, float_value(c.pan_bits));
    let s3 = push_field_op(s2, id, PropPath::Muted, bool_value(c.muted));
    let s4 = push_field_op(s3, id, PropPath::Soloed, bool_value(c.soloed));
    let s5 = push_field_op(s4, id, PropPath::Armed, bool_value(c.armed));
    let s6 = push_field_op(s5, id, PropPath::AutomationMode, mode_value(c.automation_mode));
    lemma_push_field_op(s, id, PropPath::Gain, float_value(c.gain_db_bits));
    lemma_push_field_op(s1, id, PropPath::Pan, float_value(c.pan_bits));
    lemma_push_field_op(s2, id, PropPath::Muted, bool_value(c.muted));
    lemma_push_field_op(s3, id, PropPath::Soloed, bool_value(c.soloed));
    lemma_push_field_op(s4, id, PropPath::Armed, bool_value(c.armed));
    lemma_push_field_op(s5, id, PropPath::AutomationMode, mode_value(c.automation_mode));
    let out = with_change_ops(s, c);
    assert(out == s6);
    // Where each field's op lands, and which path it carries.
    assert forall|k: int| 0 <= k < s1.len() implies #[trigger] s6[k] == s1[k] by {
        assert(s2[k] == s1[k]);
        assert(s3[k] == s2[k]);
        assert(s4[k] == s3[k]);
        assert(s5[k] == s4[k]);
    }
    assert forall|k: int| 0 <= k < s2.len() implies #[trigger] s6[k] == s2[k] by {
        assert(s3[k] == s2[k]);
        assert(s4[k] == s3[k]);
        assert(s5[k] == s4[k]);
    }
    assert forall|k: int| 0 <= k < s3.len() implies #[trigger] s6[k] == s3[k] by {
        assert(s4[k] == s3[k]);
        assert(s5[k] == s4[k]);
    }
    assert forall|k: int| 0 <= k < s4.len() implies #[trigger] s6[k] == s4[k] by {
        assert(s5[k] == s4[k]);
    }
    assert forall|k: int| 0 <= k < s.len() implies #[trigger] out[k] == s[k] by {
        assert(s6[k] == s1[k]);
    }
    // The path rank of the op at a new index: every new op sits in the
    // segment of its field, and the segments come in a fixed order.
    assert forall|i: int| s.len() <= i < out.len() implies (#[trigger] out[i] matches Op::SetProp {
        object: ObjectRef::Track(t),
        path,
        from: WireValue::Null,
        to,
    } && t == c.track_id && mix_field(c, path) == Some(to)) by {
        if i < s1.len() {
            assert(s6[i] == s1[i]);
        } else if i < s2.len() {
            assert(s6[i] == s2[i]);
        } else if i < s3.len() {
            assert(s6[i] == s3[i]);
        } else if i < s4.len() {
            assert(s6[i] == s4[i]);
        } else if i < s5.len() {
            assert(s6[i] == s5[i]);
        }
    }
    assert forall|i: int, j: int| s.len() <= i < j < out.len() implies (#[trigger] out[i] matches Op::SetProp {
        path: pi,
        ..
    } && (#[trigger] out[j] matches Op::SetProp { path: pj, .. } && pi != pj)) by {
        if i < s1.len() {
            assert(s6[i] == s1[i]);
        } else if i < s2.len() {
            assert(s6[i] == s2[i]);
        } else if i < s3.len() {
            assert(s6[i] == s3[i]);
        } else if i < s4.len() {
            assert(s6[i] == s4[i]);
        } else if i < s5.len() {
            assert(s6[i] == s5[i]);
        }
        if j < s1.len() {
            assert(s6[j] == s1[j]);
        } else if j < s2.len() {
            assert(s6[j] == s2[j]);
        } else if j < s3.len() {
            assert(s6[j] == s3[j]);
        } else if j < s4.len() {
            assert(s6[j] == s4[j]);
        } else if j < s5.len() {
            assert(s6[j] == s5[j]);
        }
    }
    assert forall|p: PropPath| #[trigger] mix_field(c, p) is Some implies exists|i: int|
        s.len() <= i < out.len() && #[trigger] out[i] == (Op::SetProp {
            object: ObjectRef::Track(c.track_id),
            path: p,
            from: WireValue::Null,
            to: mix_field(c, p)->0,
        }) by {
        match p {
            PropPath::Gain => {
                let i = s.len() as int;
                assert(out[i] == s1[i]);
            },
            PropPath::Pan => {
                let i = s1.len() as int;
                assert(out[i] == s2[i]);
            },
            PropPath::Muted => {
                let i = s2.len() as int;
                assert(out[i] == s3[i]);
            },
            PropPath::Soloed => {
                let i = s3.len() as int;
                assert(out[i] == s4[i]);
            },
            PropPath::Armed => {
                let i = s4.len() as int;
                assert(out[i] == s5[i]);
            },
            PropPath::AutomationMode => {
                let i = s5.len() as int;
                assert(out[i] == s6[i]);
            },
            _ => {},
        }
    }
}

fn float_opt(v: Option<u64>) -> (r: Option<WireValue>)
    ensures
        r == float_value(v),
{
    match v {
        Some(b) => Some(WireValue::Float(b)),
        None => None,
    }
}

fn bool_opt(v: Option<bool>) -> (r: Option<WireValue>)
    ensures
        r == bool_value(v),
{
    match v {
        Some(b) => Some(WireValue::Bool(b)),
        None => None,
    }
}

fn mode_opt(v: Option<AutomationMode>) -> (r: Option<WireValue>)
    ensures
        r == mode_value(v),
{
    match v {
        Some(m) => Some(WireValue::Mode(m)),
        None => None,
    }
}

fn push_field(out: &mut Vec<Op>, id: &String, path: PropPath, v: Option<WireValue>)
    ensures
        final(out)@ == push_field_op(old(out)@, *id, path, v),
{
    match v {
        Some(x) => {
            out.push(set_prop(id, path, x));
        },
        None => {},
    }
}

fn push_change_ops(out: &mut Vec<Op>, c: &TrackMixChange)
    ensures
        final(out)@ == with_change_ops(old(out)@, *c),
{
    let id = &c.track_id;
    push_field(out, id, PropPath::Gain, float_opt(c.gain_db_bits));
    push_field(out, id, PropPath::Pan, float_opt(c.pan_bits));
    push_field(out, id, PropPath::Muted, bool_opt(c.muted));
    push_field(out, id, PropPath::Soloed, bool_opt(c.soloed));
    push_field(out, id, PropPath::Armed, bool_opt(c.armed));
    push_field(out, id, PropPath::AutomationMode, mode_opt(c.automation_mode));
}

/// The ops a mix batch applies inside its one transaction.
pub fn mix_change_ops(changes: &Vec<TrackMixChange>) -> (ops: Vec<Op>)
    ensures
        ops@ == batch_ops(changes@),
{
    let mut ops: Vec<Op> = Vec::new();
    let mut i: usize = 0;
    while i < changes.len()
        invariant
            i <= changes@.len(),
            ops@ == batch_ops(changes@.subrange(0, i as int)),
        decreases changes.len() - i,
    {
        push_change_ops(&mut ops, &changes[i]);
        proof {
            let pre = changes@.subrange(0, i as int);
            let post = changes@.subrange(0, i + 1);
            assert(post.drop_last() =~= pre);
            assert(post.last() == changes@[i as int]);
        }
        i = i + 1;
    }
    proof {
        assert(changes@.subrange(0, changes@.len() as int) =~= changes@);
    }
    ops
}

/// Whether a change writes anything at all.
pub open spec fn change_writes(c: TrackMixChange) -> bool {
    c.gain_db_bits is Some || c.pan_bits is Some || c.muted is Some || c.soloed is Some || c.armed is Some
        || c.automation_mode is Some
}

/// Whether a mix batch carries any document change.
pub fn has_document_changes(changes: &Vec<TrackMixChange>) -> (b: bool)
    ensures
        b == exists|i: int| 0 <= i < changes@.len() && change_writes(#[trigger] changes@[i]),
{
    let mut i: usize = 0;
    while i < changes.len()
        invariant
            i <= changes@.len(),
            forall|j: int| 0 <= j < i ==> !change_writes(#[trigger] changes@[j]),
        decreases changes.len() - i,
    {
        let c = &changes[i];
        if c.gain_db_bits.is_some() || c.pan_bits.is_some() || c.muted.is_some() || c.soloed.is_some()
            || c.armed.is_some() || c.automation_mode.is_some() {
            return true;
        }
        i = i + 1;
    }
    false
}

/// Validate a mix batch before anything is written: every change must
/// name an existing track, or the whole batch fails on the first one that
/// does not (even a change with no field set).
pub fn check_mix_targets(tracks: &Vec<TrackState>, changes: &Vec<TrackMixChange>) -> (r: Result<(), PlanError>)
    ensures
        r is Ok <==> forall|i: int| 0 <= i < changes@.len() ==> has_track(tracks@, #[trigger] changes@[i].track_id@),
        r matches Err(e) ==> exists|i: int| 0 <= i < changes@.len() && !has_track(tracks@, #[trigger] changes@[i].track_id@)
            && (forall|j: int| 0 <= j < i ==> has_track(tracks@, #[trigger] changes@[j].track_id@))
            && e == PlanError::UnknownTrack(changes@[i].track_id),
{
    let mut i: usize = 0;
    while i < changes.len()
        invariant
            i <= changes@.len(),
            forall|j: int| 0 <= j < i ==> has_track(tracks@, #[trigger] changes@[j].track_id@),
        decreases changes.len() - i,
    {
        if find_track(tracks, &changes[i].track_id).is_none() {
            return Err(PlanError::UnknownTrack(changes[i].track_id.clone()));
        }
        i = i + 1;
    }
    Ok(())
}

/// The tracks whose gain change drives the automation recorder: while
/// the transport plays, every change carrying a gain whose (first) track
/// records automation, in order; nothing while stopped.
pub open spec fn recording_gain_ids(tracks: Seq<TrackState>, changes: Seq<TrackMixChange>, playing: bool) -> Seq<String>
    decreases changes.len(),
{
    if !playing || changes.len() == 0 {
        Seq::empty()
    } else {
        let rest = recording_gain_ids(tracks, changes.drop_last(), playing);
        let c = changes.last();
        let i = first_match(tracks, |t: TrackState| t.id@, c.track_id@);
        if c.gain_db_bits is Some && i != -1 && spec_records_automation(tracks[i].automation_mode) {
            rest.push(c.track_id)
        } else {
            rest
        }
    }
}

/// The ids of [`recording_gain_ids`].
pub fn recording_gain_tracks(tracks: &Vec<TrackState>, changes: &Vec<TrackMixChange>, playing: bool) -> (ids: Vec<String>)
    ensures
        ids@ == recording_gain_ids(tracks@, changes@, playing),
{
    let mut ids: Vec<String> = Vec::new();
    if !playing {
        return ids;
    }
    let mut k: usize = 0;
    while k < changes.len()
        invariant
            playing,
            k <= changes@.len(),
            ids@ == recording_gain_ids(tracks@, changes@.subrange(0, k as int), playing),
        decreases changes.len() - k,
    {
        let c = &changes[k];
        proof {
            assert(changes@.subrange(0, k + 1).drop_last() =~= changes@.subrange(0, k as int));
        }
        if c.gain_db_bits.is_some() {
            match find_track(tracks, &c.track_id) {
                Some(i) => {
                    proof {
                        lemma_first_match_at(tracks@, |t: TrackState| t.id@, c.track_id@, i as int);
                    }
                    if records_automation(tracks[i].automation_mode) {
                        ids.push(c.track_id.clone());
                    }
                },
                None => {
                    proof {
                        lemma_first_match(tracks@, |t: TrackState| t.id@, c.track_id@, tracks@.len() as int);
                    }
                },
            }
        }
        k = k + 1;
    }
    proof {
        assert(changes@.subrange(0, changes@.len() as int) =~= changes@);
    }
    ids
}

/// Drop the gain of every change whose track is a live automation
/// controller right now (its fader drives the recorder, not the document).
pub fn strip_live_gains(changes: &mut Vec<TrackMixChange>, live_ids: &Vec<String>)
    ensures
        final(changes)@.len() == old(changes)@.len(),
        forall|i: int| 0 <= i < old(changes)@.len() ==> {
            let c = #[trigger] final(changes)@[i];
            let o = old(changes)@[i];
            &&& c.track_id == o.track_id
            &&& c.gain_db_bits == (if crate::gesture::holds_text(live_ids@, o.track_id@) { None } else { o.gain_db_bits })
            &&& c.pan_bits == o.pan_bits
            &&& c.muted == o.muted
            &&& c.soloed == o.soloed
            &&& c.armed == o.armed
            &&& c.automation_mode == o.automation_mode
        },
{
    let ghost orig = changes@;
    let mut i: usize = 0;
    while i < changes.len()
        invariant
            i <= changes@.len(),
            changes@.len() == orig.len(),
            forall|j: int| i <= j < orig.len() ==> #[trigger] changes@[j] == orig[j],
            forall|j: int| 0 <= j < i ==> {
                let c = #[trigger] changes@[j];
                let o = orig[j];
                &&& c.track_id == o.track_id
                &&& c.gain_db_bits == (if crate::gesture::holds_text(live_ids@, o.track_id@) { None } else { o.gain_db_bits })
                &&& c.pan_bits == o.pan_bits
                &&& c.muted == o.muted
                &&& c.soloed == o.soloed
                &&& c.armed == o.armed
                &&& c.automation_mode == o.automation_mode
            },
        decreases changes.len() - i,
    {
        let live = contains_text(live_ids, &changes[i].track_id);
        if live {
            let mut c = changes.remove(i);
            c.gain_db_bits = None;
            changes.insert(i, c);
        }
        i = i + 1;
    }
}

/// Whether one of `v` reads the same as `s`.
pub fn contains_text(v: &Vec<String>, s: &String) -> (b: bool)
    ensures
        b == crate::gesture::holds_text(v@, s@),
{
    let mut i: usize = 0;
    while i < v.len()
        invariant
            i <= v@.len(),
            forall|j: int| 0 <= j < i ==> #[trigger] v@[j]@ != s@,
        decreases v.len() - i,
    {
        if v[i] == *s {
            proof {
                assert(v@[i as int]@ == s@);
            }
            return true;
        }
        i = i + 1;
    }
    false
}

/// A mix change with its gain taken out when its track is under live
/// control.
pub open spec fn without_live_gain(c: TrackMixChange, live: Seq<String>) -> TrackMixChange {
    TrackMixChange {
        gain_db_bits: if crate::gesture::holds_text(live, c.track_id@) { None } else { c.gain_db_bits },
        ..c
    }
}

/// The first half of a mix command, before the gesture is asked: every
/// change must name a known track (else nothing is written), and while the
/// transport plays, the gain changes on tracks that record automation are
/// the candidates for live control.
pub fn plan_mix_live(tracks: &Vec<TrackState>, changes: &Vec<TrackMixChange>, playing: bool) -> (r: Result<Vec<String>, PlanError>)
    ensures
        r is Ok <==> forall|i: int| 0 <= i < changes@.len() ==> has_track(tracks@, #[trigger] changes@[i].track_id@),
        r matches Err(e) ==> exists|i: int| 0 <= i < changes@.len() && !has_track(tracks@, #[trigger] changes@[i].track_id@)
            && (forall|j: int| 0 <= j < i ==> has_track(tracks@, #[trigger] changes@[j].track_id@))
            && e == PlanError::UnknownTrack(changes@[i].track_id),
        r matches Ok(ids) ==> ids@ == recording_gain_ids(tracks@, changes@, playing),
{
    match check_mix_targets(tracks, changes) {
        Err(e) => Err(e),
        Ok(()) => Ok(recording_gain_tracks(tracks, changes, playing)),
    }
}

/// The second half of a mix command, once the gesture said whether it
/// took live control of the candidates' gains: those gains leave the
/// batch, and what is left commits as one transaction of ops, or nothing
/// commits when no change writes anything.
pub fn plan_mix_commit(changes: &mut Vec<TrackMixChange>, live_ids: &Vec<String>, live_controlled: bool) -> (ops: Option<Vec<Op>>)
    ensures
        final(changes)@ == (if live_controlled {
            old(changes)@.map_values(|c: TrackMixChange| without_live_gain(c, live_ids@))
        } else {
            old(changes)@
        }),
        match ops {
            Some(v) => (exists|i: int| 0 <= i < final(changes)@.len() && change_writes(#[trigger] final(changes)@[i]))
                && v@ == batch_ops(final(changes)@),
            None => !exists|i: int| 0 <= i < final(changes)@.len() && change_writes(#[trigger] final(changes)@[i]),
        },
{
    if live_controlled {
        let ghost before = changes@;
        strip_live_gains(changes, live_ids);
        proof {
            assert(changes@ =~= before.map_values(|c: TrackMixChange| without_live_gain(c, live_ids@)));
        }
    }
    if has_document_changes(changes) {
        Some(mix_change_ops(changes))
    } else {
        None
    }
}

} // verus!
