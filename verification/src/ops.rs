//! Shared control-plane operations on the document store: building and
//! inserting track rows, and composing the live transport snapshot.

use vstd::prelude::*;
use crate::op::Op;
use crate::text::{decimal, fresh_id, numbered, str_is};
use crate::transport::Player;
use crate::types::{AutomationMode, Clip, TrackState, TrackView, TransportState, opt_text};

verus! {

/// The document store the mixer and arrangement commands read.
pub struct Store {
    pub tracks: Vec<TrackState>,
    pub clips: Vec<Clip>,
    pub transport: TransportState,
    pub project_name: Option<String>,
    pub project_dir: Option<String>,
    /// When the project was first created (as the project file records it).
    pub created_at: Option<String>,
    /// The performance pads: document objects, but not tracks.
    pub players: Vec<Player>,
}

/// One batched mix change; `None` = leave unchanged. Gain and pan are the
/// `f64` bit patterns.
pub struct TrackMixChange {
    pub track_id: String,
    pub gain_db_bits: Option<u64>,
    pub pan_bits: Option<u64>,
    pub muted: Option<bool>,
    pub soloed: Option<bool>,
    pub armed: Option<bool>,
    pub automation_mode: Option<AutomationMode>,
}

impl TrackMixChange {
    /// A change for `track_id` that leaves every field unchanged.
    pub fn new(track_id: &str) -> (c: TrackMixChange)
        ensures
            c.track_id@ == track_id@,
            c.gain_db_bits is None,
            c.pan_bits is None,
            c.muted is None,
            c.soloed is None,
            c.armed is None,
            c.automation_mode is None,
    {
        TrackMixChange {
            track_id: String::from_str(track_id),
            gain_db_bits: None,
            pan_bits: None,
            muted: None,
            soloed: None,
            armed: None,
            automation_mode: None,
        }
    }
}

/// Why a track row was not built.
pub enum TrackError {
    /// The requested kind is not `audio`, `midi` or `automation`.
    UnsupportedKind(String),
}

/// The six track colors, cycled by track count.
pub open spec fn track_color(i: nat) -> Seq<char> {
    if i == 0 { "#7c9cff"@ }
    else if i == 1 { "#ff9c7c"@ }
    else if i == 2 { "#7cffb0"@ }
    else if i == 3 { "#e07cff"@ }
    else if i == 4 { "#ffe07c"@ }
    else { "#7cd8ff"@ }
}

/// How many colors the palette cycles through.
pub const TRACK_COLOR_COUNT: usize = 6;

fn color_at(i: usize) -> (c: &'static str)
    requires
        i < 6,
    ensures
        c@ == track_color(i as nat),
{
    if i == 0 { "#7c9cff" }
    else if i == 1 { "#ff9c7c" }
    else if i == 2 { "#7cffb0" }
    else if i == 3 { "#e07cff" }
    else if i == 4 { "#ffe07c" }
    else { "#7cd8ff" }
}

/// The kinds a track may have.
pub open spec fn valid_kind(k: Seq<char>) -> bool {
    k == "audio"@ || k == "midi"@ || k == "automation"@
}

/// The kind a request asks for (`"audio"` when unspecified).
pub open spec fn requested_kind(kind: Option<String>) -> Seq<char> {
    match kind {
        Some(k) => k@,
        None => "audio"@,
    }
}

/// The name a fresh row gets: the requested one, else `"Track <n+1>"`.
pub open spec fn fresh_name(name: Option<String>, n: nat) -> Seq<char> {
    match name {
        Some(s) => s@,
        None => "Track "@ + decimal(n + 1),
    }
}

/// `t` is a fresh row built at position `n` of a store, named `name`, of
/// kind `kind`: unity gain, center pan, no flags, the `n`-th palette
/// color, unbound, ungrouped, routed to the master, no sends, no inserts,
/// and a 36-character random id.
pub open spec fn is_fresh_row_named(t: TrackView, n: nat, name: Seq<char>, kind: Seq<char>) -> bool {
    &&& t.id.len() == 36
    &&& t.name == name
    &&& t.kind == kind
    &&& t.gain_db_bits == 0
    &&& t.pan_bits == 0
    &&& !t.muted
    &&& !t.soloed
    &&& !t.armed
    &&& t.color == track_color(n % 6)
    &&& t.instrument_id is None
    &&& t.group is None
    &&& t.automation_mode == AutomationMode::Off
    &&& t.output is None
    &&& t.sends.len() == 0
    &&& t.inserts.len() == 0
}

/// `t` is the fresh row built at position `n` for a request: the
/// requested name (else `"Track <n+1>"`) and kind (else `"audio"`).
pub open spec fn is_fresh_row(t: TrackView, n: nat, name: Option<String>, kind: Option<String>) -> bool {
    is_fresh_row_named(t, n, fresh_name(name, n), requested_kind(kind))
}

/// Structural core: insert `track` at `index`, clamped to the current
/// length (an out-of-range index appends).
pub fn insert_track(store: &mut Store, track: TrackState, index: usize)
    ensures
        final(store).tracks@ == old(store).tracks@.insert(
            if index <= old(store).tracks@.len() { index as int } else { old(store).tracks@.len() as int },
            track,
        ),
        final(store).clips@ == old(store).clips@,
        final(store).transport == old(store).transport,
        final(store).project_name == old(store).project_name,
        final(store).project_dir == old(store).project_dir,
        final(store).created_at == old(store).created_at,
        final(store).players == old(store).players,
{
    let len = store.tracks.len();
    let index = if index < len { index } else { len };
    store.tracks.insert(index, track);
}

/// The fresh row for position `n`, of a kind already checked.
pub(crate) fn fresh_row(n: usize, name: Option<String>, kind: String) -> (t: TrackState)
    requires
        n < u64::MAX,
    ensures
        is_fresh_row_named(t@, n as nat, fresh_name(name, n as nat), kind@),
{
    let id = fresh_id();
    let name = match name {
        Some(s) => s,
        None => numbered("Track ", n as u64 + 1),
    };
    let track = TrackState {
        id,
        name,
        kind,
        gain_db_bits: 0,
        pan_bits: 0,
        muted: false,
        soloed: false,
        armed: false,
        color: String::from_str(color_at(n % TRACK_COLOR_COUNT)),
        instrument_id: None,
        group: None,
        automation_mode: AutomationMode::Off,
        output: None,
        sends: Vec::new(),
        inserts: Vec::new(),
    };
    proof {
        assert(track@.sends =~= Seq::<crate::types::SendView>::empty());
        assert(track@.inserts =~= Seq::<crate::types::InsertView>::empty());
    }
    track
}

/// Build the fresh row for position `n` of a store.
pub fn track_row_at(n: usize, name: Option<String>, kind: Option<String>) -> (r: Result<TrackState, TrackError>)
    requires
        n < u64::MAX,
    ensures
        r is Ok <==> valid_kind(requested_kind(kind)),
        r matches Ok(t) ==> is_fresh_row(t@, n as nat, name, kind),
        r matches Err(TrackError::UnsupportedKind(k)) ==> k@ == requested_kind(kind),
{
    proof {
        reveal_strlit("audio");
        reveal_strlit("midi");
        reveal_strlit("automation");
    }
    let kind = match kind {
        Some(k) => k,
        None => String::from_str("audio"),
    };
    if !(str_is(&kind, "audio") || str_is(&kind, "midi") || str_is(&kind, "automation")) {
        return Err(TrackError::UnsupportedKind(kind));
    }
    Ok(fresh_row(n, name, kind))
}

/// Build a fresh track row for `store` without inserting it. Returns the
/// row and its intended position (the end of the current list).
pub fn new_track_row(
    store: &Store,
    name: Option<String>,
    kind: Option<String>,
) -> (r: Result<(TrackState, usize), TrackError>)
    requires
        store.tracks@.len() < u64::MAX,
    ensures
        r is Ok <==> valid_kind(requested_kind(kind)),
        r matches Ok((t, i)) ==> i == store.tracks@.len() && is_fresh_row(
            t@,
            store.tracks@.len() as nat,
            name,
            kind,
        ),
        r matches Err(TrackError::UnsupportedKind(k)) ==> k@ == requested_kind(kind),
{
    let n = store.tracks.len();
    match track_row_at(n, name, kind) {
        Ok(t) => Ok((t, n)),
        Err(e) => Err(e),
    }
}

/// Create a track in the store, appended at the end. STRUCTURAL: the
/// caller rebuilds the graph afterwards.
pub fn add_track(
    store: &mut Store,
    name: Option<String>,
    kind: Option<String>,
) -> (r: Result<TrackState, TrackError>)
    requires
        old(store).tracks@.len() < u64::MAX,
    ensures
        r is Ok <==> valid_kind(requested_kind(kind)),
        r matches Ok(t) ==> {
            &&& is_fresh_row(t@, old(store).tracks@.len() as nat, name, kind)
            &&& final(store).tracks@.len() == old(store).tracks@.len() + 1
            &&& final(store).tracks@.subrange(0, old(store).tracks@.len() as int) == old(store).tracks@
            &&& final(store).tracks@.last()@ == t@
        },
        r is Err ==> final(store).tracks@ == old(store).tracks@,
        r matches Err(TrackError::UnsupportedKind(k)) ==> k@ == requested_kind(kind),
        final(store).clips@ == old(store).clips@,
        final(store).transport == old(store).transport,
        final(store).project_name == old(store).project_name,
        final(store).project_dir == old(store).project_dir,
        final(store).created_at == old(store).created_at,
        final(store).players == old(store).players,
{
    let (track, index) = match new_track_row(store, name, kind) {
        Ok(p) => p,
        Err(e) => return Err(e),
    };
    let copy = track.duplicate();
    let ghost before = store.tracks@;
    insert_track(store, copy, index);
    proof {
        assert(store.tracks@.subrange(0, before.len() as int) =~= before);
    }
    Ok(track)
}

/// The transaction-channel sibling of [`add_track`]: builds the row
/// against the transaction's store view and returns it together with the
/// `TrackAdd` op the transaction applies (with no clips).
pub fn add_track_tx(
    store: &Store,
    name: Option<String>,
    kind: Option<String>,
) -> (r: Result<(TrackState, Op), TrackError>)
    requires
        store.tracks@.len() < u64::MAX,
    ensures
        r is Ok <==> valid_kind(requested_kind(kind)),
        r matches Ok((t, op)) ==> {
            &&& is_fresh_row(t@, store.tracks@.len() as nat, name, kind)
            &&& op matches Op::TrackAdd { track, index, clips, clip_indices } && track@ == t@
                && index == store.tracks@.len() && clips@.len() == 0 && clip_indices@.len() == 0
        },
        r matches Err(TrackError::UnsupportedKind(k)) ==> k@ == requested_kind(kind),
{
    let (track, index) = match new_track_row(store, name, kind) {
        Ok(p) => p,
        Err(e) => return Err(e),
    };
    let op = Op::TrackAdd { track: track.duplicate(), index, clips: Vec::new(), clip_indices: Vec::new() };
    Ok((track, op))
}

/// One reading of the real-time transport cells.
pub struct RtReading {
    pub count_in_left: u64,
    pub recording: bool,
    pub playing: bool,
    pub position: u64,
    pub sample_rate: u32,
    pub loop_enabled: bool,
    pub loop_start: u64,
    pub loop_end: u64,
    pub song_end: u64,
    pub stop_at_end: bool,
}

/// The transport state label a snapshot reports: recording wins, then a
/// rolling or counting-in engine reads as playing, else the document label.
pub open spec fn snapshot_state(store_state: Seq<char>, rt: RtReading) -> Seq<char> {
    if rt.recording {
        "recording"@
    } else if rt.playing || rt.count_in_left > 0 {
        "playing"@
    } else {
        store_state
    }
}

/// Compose the live transport snapshot from the document fields and one
/// reading of the real-time cells.
pub fn transport_snapshot(store: &Store, rt: &RtReading) -> (t: TransportState)
    ensures
        t.state@ == snapshot_state(store.transport.state@, *rt),
        t.position_samples == rt.position,
        t.sample_rate == rt.sample_rate,
        t.tempo_bpm_bits == store.transport.tempo_bpm_bits,
        t.loop_enabled == rt.loop_enabled,
        t.loop_start_samples == rt.loop_start,
        t.loop_end_samples == rt.loop_end,
        t.song_end_samples == rt.song_end,
        t.stop_at_end == rt.stop_at_end,
        t.count_in_left_samples == rt.count_in_left,
{
    let state = if rt.recording {
        String::from_str("recording")
    } else if rt.playing || rt.count_in_left > 0 {
        String::from_str("playing")
    } else {
        store.transport.state.clone()
    };
    TransportState {
        state,
        position_samples: rt.position,
        sample_rate: rt.sample_rate,
        tempo_bpm_bits: store.transport.tempo_bpm_bits,
        loop_enabled: rt.loop_enabled,
        loop_start_samples: rt.loop_start,
        loop_end_samples: rt.loop_end,
        song_end_samples: rt.song_end,
        stop_at_end: rt.stop_at_end,
        count_in_left_samples: rt.count_in_left,
    }
}

} // verus!
