//! The op vocabulary and transaction metadata for session mutations.
//!
//! Every document change travels as an [`Op`]: property-addressed `Set`s,
//! whole-row structural inserts/removes, and whole-value replacements. Ops
//! are absolute-valued (never deltas), which is what lets history replay an
//! entry's `ops` for redo and its `inverses` for undo.

use vstd::prelude::*;
use crate::types::{
    AutomationLane, AutomationMode, InsertSlot, SendSlot, Clip, MeterEvent, MidiClip, MidiNote, PluginInstanceInfo, TempoEvent,
    TrackState,
};
use crate::text::fresh_id;

verus! {

/// The op wire-format version every journal line carries.
pub const OP_FORMAT_VERSION: u16 = 2;

/// A property value on the wire: the JSON shapes a `Set` carries.
/// `Float` holds the `f64`'s bit pattern.
#[derive(Clone, Debug)]
pub enum WireValue {
    Null,
    Bool(bool),
    UInt(u64),
    Float(u64),
    Text(String),
    /// A track automation mode.
    Mode(AutomationMode),
}

/// A wire value, by value.
pub enum WireKey {
    Null,
    Bool(bool),
    UInt(u64),
    Float(u64),
    Text(Seq<char>),
    Mode(AutomationMode),
}

impl View for WireValue {
    type V = WireKey;

    open spec fn view(&self) -> WireKey {
        match self {
            WireValue::Null => WireKey::Null,
            WireValue::Bool(b) => WireKey::Bool(*b),
            WireValue::UInt(n) => WireKey::UInt(*n),
            WireValue::Float(b) => WireKey::Float(*b),
            WireValue::Text(s) => WireKey::Text(s@),
            WireValue::Mode(m) => WireKey::Mode(*m),
        }
    }
}

/// What an op addresses.
#[derive(Clone, Debug)]
pub enum ObjectRef {
    Track(String),
    Clip(String),
    MidiClip(String),
    /// The transport is a singleton.
    Transport,
    /// A plugin instance id.
    Plugin(String),
}

/// What an [`ObjectRef`] addresses, by value.
pub enum ObjectKey {
    Track(Seq<char>),
    Clip(Seq<char>),
    MidiClip(Seq<char>),
    Transport,
    Plugin(Seq<char>),
}

impl View for ObjectRef {
    type V = ObjectKey;

    open spec fn view(&self) -> ObjectKey {
        match self {
            ObjectRef::Track(id) => ObjectKey::Track(id@),
            ObjectRef::Clip(id) => ObjectKey::Clip(id@),
            ObjectRef::MidiClip(id) => ObjectKey::MidiClip(id@),
            ObjectRef::Transport => ObjectKey::Transport,
            ObjectRef::Plugin(id) => ObjectKey::Plugin(id@),
        }
    }
}

impl ObjectRef {
    /// An owned copy, equal to `self`.
    pub fn duplicate(&self) -> (r: ObjectRef)
        ensures
            r == *self,
    {
        match self {
            ObjectRef::Track(id) => ObjectRef::Track(id.clone()),
            ObjectRef::Clip(id) => ObjectRef::Clip(id.clone()),
            ObjectRef::MidiClip(id) => ObjectRef::MidiClip(id.clone()),
            ObjectRef::Transport => ObjectRef::Transport,
            ObjectRef::Plugin(id) => ObjectRef::Plugin(id.clone()),
        }
    }

    /// Whether two refs address the same object.
    pub fn same_as(&self, other: &ObjectRef) -> (r: bool)
        ensures
            r == (self@ == other@),
    {
        match (self, other) {
            (ObjectRef::Track(a), ObjectRef::Track(b)) => *a == *b,
            (ObjectRef::Clip(a), ObjectRef::Clip(b)) => *a == *b,
            (ObjectRef::MidiClip(a), ObjectRef::MidiClip(b)) => *a == *b,
            (ObjectRef::Transport, ObjectRef::Transport) => true,
            (ObjectRef::Plugin(a), ObjectRef::Plugin(b)) => *a == *b,
            _ => false,
        }
    }
}

/// Property paths are a closed enum, not strings.
#[derive(Clone, Copy, Debug, PartialEq, Eq, Structural)]
pub enum PropPath {
    Gain,
    Pan,
    Muted,
    Soloed,
    Armed,
    AutomationMode,
    /// Track: sampler-bank id or `plugin:<instanceId>`, `None` = unbound.
    InstrumentId,
    Name,
    /// Track: lane group label.
    Group,
    TimelineStartSamples,
    LengthSamples,
    OffsetSamples,
    TimelineStartTicks,
    LengthTicks,
    ContentLengthTicks,
    TransportState,
    LoopEnabled,
    LoopStartSamples,
    LoopEndSamples,
    StopAtEnd,
    SampleRate,
    /// Plugin: one parameter, by its stable per-plugin id.
    Param { index: u32 },
}

/// Who asked for a transaction.
#[derive(Clone, Debug)]
pub enum Actor {
    User,
    Agent { tool: String },
    Engine,
    System,
}

/// Who an [`Actor`] is, by value.
pub enum ActorKey {
    User,
    Agent(Seq<char>),
    Engine,
    System,
}

impl View for Actor {
    type V = ActorKey;

    open spec fn view(&self) -> ActorKey {
        match self {
            Actor::User => ActorKey::User,
            Actor::Agent { tool } => ActorKey::Agent(tool@),
            Actor::Engine => ActorKey::Engine,
            Actor::System => ActorKey::System,
        }
    }
}

impl Actor {
    /// An owned copy, equal to `self`.
    pub fn duplicate(&self) -> (r: Actor)
        ensures
            r == *self,
    {
        match self {
            Actor::User => Actor::User,
            Actor::Agent { tool } => Actor::Agent { tool: tool.clone() },
            Actor::Engine => Actor::Engine,
            Actor::System => Actor::System,
        }
    }

    /// Whether two actors are the same.
    pub fn same_as(&self, other: &Actor) -> (r: bool)
        ensures
            r == (self@ == other@),
    {
        match (self, other) {
            (Actor::User, Actor::User) => true,
            (Actor::Agent { tool: a }, Actor::Agent { tool: b }) => *a == *b,
            (Actor::Engine, Actor::Engine) => true,
            (Actor::System, Actor::System) => true,
            _ => false,
        }
    }
}

/// Transaction metadata: attribution, correlation and the transient flag.
#[derive(Clone, Debug)]
pub struct TxMeta {
    pub actor: Actor,
    /// Correlation id for a multi-transaction run.
    pub run: String,
    pub label: String,
    /// RT/document-visible, but excluded from history and journal.
    pub transient: bool,
}

impl TxMeta {
    /// A fresh correlation id and `label`, attributed to a human.
    pub fn user(label: &str) -> (m: TxMeta)
        ensures
            m.actor == Actor::User,
            m.label@ == label@,
            m.run@.len() == 36,
            !m.transient,
    {
        TxMeta { actor: Actor::User, run: fresh_id(), label: String::from_str(label), transient: false }
    }

    /// Same, attributed to the named agent tool call.
    pub fn agent(tool: &str, label: &str) -> (m: TxMeta)
        ensures
            m.actor matches Actor::Agent { tool: t } && t@ == tool@,
            m.label@ == label@,
            m.run@.len() == 36,
            !m.transient,
    {
        TxMeta {
            actor: Actor::Agent { tool: String::from_str(tool) },
            run: fresh_id(),
            label: String::from_str(label),
            transient: false,
        }
    }

    /// Same, attributed to an automated system process.
    pub fn system(label: &str) -> (m: TxMeta)
        ensures
            m.actor == Actor::System,
            m.label@ == label@,
            m.run@.len() == 36,
            !m.transient,
    {
        TxMeta { actor: Actor::System, run: fresh_id(), label: String::from_str(label), transient: false }
    }

    /// Same, attributed to the engine itself.
    pub fn engine(label: &str) -> (m: TxMeta)
        ensures
            m.actor == Actor::Engine,
            m.label@ == label@,
            m.run@.len() == 36,
            !m.transient,
    {
        TxMeta { actor: Actor::Engine, run: fresh_id(), label: String::from_str(label), transient: false }
    }

    /// Builder: mark this transaction transient.
    pub fn transient(self) -> (m: TxMeta)
        ensures
            m == (TxMeta { transient: true, ..self }),
    {
        let mut m = self;
        m.transient = true;
        m
    }

    /// An owned copy, equal to `self`.
    pub fn duplicate(&self) -> (m: TxMeta)
        ensures
            m == *self,
    {
        TxMeta {
            actor: self.actor.duplicate(),
            run: self.run.clone(),
            label: self.label.clone(),
            transient: self.transient,
        }
    }
}

/// One document mutation.
///
/// Rows whose shape this crate does not own (modulation curves, bindings,
/// automation clips, plugin parameter records) ride along as their JSON
/// text.
#[derive(Clone, Debug)]
#[allow(inconsistent_fields)]
pub enum Op {
    /// Property-addressed change. `from` is advisory; the store's truth wins.
    SetProp { object: ObjectRef, path: PropPath, from: WireValue, to: WireValue },
    /// Create a track with the clips it carries (inverse: `TrackRemove`).
    TrackAdd { track: TrackState, index: usize, clips: Vec<Clip>, clip_indices: Vec<usize> },
    /// Remove a track (inverse: `TrackAdd` with its clips).
    TrackRemove { track: TrackState, index: usize, clips: Vec<Clip>, clip_indices: Vec<usize> },
    ClipAdd { clip: Clip, index: usize },
    ClipRemove { clip: Clip, index: usize },
    /// Atomic tempo/meter replacement.
    TempoSet { ppq: u32, events: Vec<TempoEvent>, meter: Vec<MeterEvent> },
    MidiClipAdd { clip: MidiClip, index: usize },
    MidiClipRemove { clip: MidiClip, index: usize },
    /// Whole-notes replacement of one MIDI clip.
    MidiSetNotes { clip: String, notes: Vec<MidiNote> },
    /// Upsert (`Some`) or delete (`None`) one automation lane by id.
    AutomationSetLane { key: String, lane: Option<AutomationLane> },
    PluginAdd { row: PluginInstanceInfo, index: usize },
    /// `params`: the JSON text of each parameter record at removal time.
    PluginRemove { row: PluginInstanceInfo, index: usize, state: Option<Vec<u8>>, params: Vec<String> },
    PluginSetState { instance: String, state: Vec<u8> },
    /// Point a track's output at a bus, or at the master (`None`).
    TrackSetOutput { track_id: String, output: Option<String> },
    /// Remove one send edge; `slot`/`index` advisory beyond the ids.
    SendRemove { track_id: String, slot: SendSlot, index: usize },
    /// Add a send edge (`index` clamped to the list; `usize::MAX` appends).
    SendAdd { track_id: String, slot: SendSlot, index: usize },
    /// Add an insert slot to a track's chain at `index`.
    InsertAdd { track_id: String, slot: InsertSlot, index: usize },
    /// Remove one insert slot from a track's chain.
    InsertRemove { track_id: String, slot: InsertSlot, index: usize },
    /// New display order; must list every track exactly once.
    TrackReorder { order: Vec<String> },
    /// A send's absolute amount (`f64` dB bit pattern).
    SendSetAmount { track_id: String, send_id: String, amount_db_bits: u64 },
    /// Upsert/delete one modulation curve (JSON text).
    ModulationSetCurve { key: String, curve: Option<String> },
    /// Upsert/delete one modulation binding (JSON text).
    ModulationSetBinding { key: String, binding: Option<String> },
    /// Upsert/delete one automation clip (JSON text).
    AutomationClipSet { key: String, clip: Option<String> },
}

} // verus!
