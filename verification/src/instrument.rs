//! Plugin-facing planners: binding a track's instrument, parameter
//! batches, automation lanes and automation clips, and the MIDI routing
//! checks.

use vstd::prelude::*;
use vstd::string::StrSliceExecFns;
use crate::arrange::{instance_key, track_key, find_instance};
use crate::op::{ObjectRef, Op, PropPath, WireKey, WireValue};
use crate::plane::{
    find_track, first_match, has_midi_clip, lemma_first_match, lemma_first_match_at, midi_clip_exists,
    AutomationClipField, PlanError,
};
use crate::text::str_is;
use crate::types::{AutomationLane, MidiClip, PluginInstanceInfo, TrackState};

verus! {

// ---------------------------------------------------------------------------
// Instrument binding
// ---------------------------------------------------------------------------

/// A scanned plugin descriptor, as far as binding reads it.
pub struct ScannedPlugin {
    pub uid: String,
    pub name: String,
    pub is_instrument: bool,
}

/// A descriptor's uid.
pub open spec fn scanned_key() -> spec_fn(ScannedPlugin) -> Seq<char> {
    |d: ScannedPlugin| d.uid@
}

/// Whether `s` names a plugin instance (`plugin:<instanceId>`).
pub open spec fn is_plugin_ref(s: Seq<char>) -> bool {
    s.len() >= 7 && s.subrange(0, 7) == "plugin:"@
}

/// The instance id a `plugin:<instanceId>` reference names, if it is one.
pub fn plugin_instance_of(instrument_id: &String) -> (r: Option<String>)
    ensures
        r is Some <==> is_plugin_ref(instrument_id@),
        r matches Some(x) ==> x@ == instrument_id@.subrange(7, instrument_id@.len() as int),
{
    proof {
        reveal_strlit("plugin:");
    }
    let s = instrument_id.as_str();
    let n = s.unicode_len();
    if n < 7 {
        return None;
    }
    let head = String::from_str(s.substring_char(0, 7));
    if str_is(&head, "plugin:") {
        Some(String::from_str(s.substring_char(7, n)))
    } else {
        None
    }
}

/// Whether some track of `tracks` carries the instance `id` as an insert.
pub open spec fn used_as_insert(tracks: Seq<TrackState>, id: Seq<char>) -> bool {
    exists|i: int, k: int| 0 <= i < tracks.len() && 0 <= k < tracks[i].inserts@.len()
        && #[trigger] tracks[i].inserts@[k].instance_id@ == id
}

/// The scan, by value.
pub open spec fn scan_view(scanned: Option<Vec<ScannedPlugin>>) -> Option<Seq<ScannedPlugin>> {
    match scanned {
        Some(v) => Some(v@),
        None => None,
    }
}

/// Whether the instance `id` may be bound as an instrument: not when some
/// track already carries it as an insert, nor when the scan knows its
/// plugin and says it is an effect; otherwise yes (an instance the
/// document does not hold, no scan, or a plugin the scan does not list).
pub open spec fn instrument_allowed(
    tracks: Seq<TrackState>,
    instances: Seq<PluginInstanceInfo>,
    scanned: Option<Seq<ScannedPlugin>>,
    id: Seq<char>,
) -> bool {
    &&& !used_as_insert(tracks, id)
    &&& {
        let f = first_match(instances, instance_key(), id);
        f != -1 ==> match scanned {
            None => true,
            Some(ds) => {
                let d = first_match(ds, scanned_key(), instances[f].uid@);
                d == -1 || ds[d].is_instrument
            },
        }
    }
}

/// The verdict on binding the instance `id` (the text of `instance_id`)
/// as an instrument, with the error a refusal carries.
pub open spec fn instrument_verdict(
    tracks: Seq<TrackState>,
    instances: Seq<PluginInstanceInfo>,
    scanned: Option<Seq<ScannedPlugin>>,
    id: Seq<char>,
    instance_id: String,
) -> Result<(), PlanError> {
    if used_as_insert(tracks, id) {
        Err(PlanError::InstanceIsInsert(instance_id))
    } else if instrument_allowed(tracks, instances, scanned, id) {
        Ok(())
    } else {
        let f = first_match(instances, instance_key(), id);
        let ds = scanned->Some_0;
        Err(PlanError::EffectAsInstrument(ds[first_match(ds, scanned_key(), instances[f].uid@)].name))
    }
}

/// The instance a binding names, if it names one.
pub open spec fn bound_instance(instrument_id: Option<String>) -> Option<Seq<char>> {
    match instrument_id {
        Some(iid) => if is_plugin_ref(iid@) { Some(iid@.subrange(7, iid@.len() as int)) } else { None },
        None => None,
    }
}

/// Whether some track carries the instance `id` as an insert.
pub fn instance_is_insert(tracks: &Vec<TrackState>, id: &String) -> (b: bool)
    ensures
        b == used_as_insert(tracks@, id@),
{
    let mut i: usize = 0;
    while i < tracks.len()
        invariant
            i <= tracks@.len(),
            forall|a: int, k: int| 0 <= a < i && 0 <= k < tracks@[a].inserts@.len()
                ==> #[trigger] tracks@[a].inserts@[k].instance_id@ != id@,
        decreases tracks.len() - i,
    {
        let slots = &tracks[i].inserts;
        let mut k: usize = 0;
        while k < slots.len()
            invariant
                i < tracks@.len(),
                *slots == tracks@[i as int].inserts,
                k <= slots@.len(),
                forall|m: int| 0 <= m < k ==> #[trigger] slots@[m].instance_id@ != id@,
            decreases slots.len() - k,
        {
            if slots[k].instance_id == *id {
                return true;
            }
            k = k + 1;
        }
        i = i + 1;
    }
    false
}

fn find_scanned(ds: &Vec<ScannedPlugin>, uid: &String) -> (r: Option<usize>)
    ensures
        match r {
            Some(k) => k == first_match(ds@, scanned_key(), uid@) && k < ds@.len(),
            None => first_match(ds@, scanned_key(), uid@) == -1,
        },
{
    let mut i: usize = 0;
    while i < ds.len()
        invariant
            i <= ds@.len(),
            forall|j: int| 0 <= j < i ==> #[trigger] ds@[j].uid@ != uid@,
        decreases ds.len() - i,
    {
        if ds[i].uid == *uid {
            proof {
                lemma_first_match_at(ds@, scanned_key(), uid@, i as int);
            }
            return Some(i);
        }
        i = i + 1;
    }
    proof {
        lemma_first_match(ds@, scanned_key(), uid@, ds@.len() as int);
    }
    None
}

/// Refuse binding an insert, or an effect, as an instrument. `scanned` is
/// the plugin scan, when one is available.
pub fn check_instrument_instance(
    tracks: &Vec<TrackState>,
    instances: &Vec<PluginInstanceInfo>,
    scanned: &Option<Vec<ScannedPlugin>>,
    instance_id: &String,
) -> (r: Result<(), PlanError>)
    ensures
        r == instrument_verdict(tracks@, instances@, scan_view(*scanned), instance_id@, *instance_id),
{
    if instance_is_insert(tracks, instance_id) {
        return Err(PlanError::InstanceIsInsert(instance_id.clone()));
    }
    let f = match find_instance(instances, instance_id) {
        Some(f) => f,
        None => return Ok(()),
    };
    match scanned {
        None => Ok(()),
        Some(ds) => match find_scanned(ds, &instances[f].uid) {
            None => Ok(()),
            Some(d) => {
                if ds[d].is_instrument {
                    Ok(())
                } else {
                    Err(PlanError::EffectAsInstrument(ds[d].name.clone()))
                }
            },
        },
    }
}

/// Plan `set_track_instrument`: a `plugin:<id>` reference must pass
/// [`check_instrument_instance`]; any other reference (a sampler bank) or
/// `None` (unbind) is written as is.
pub fn plan_set_track_instrument(
    tracks: &Vec<TrackState>,
    instances: &Vec<PluginInstanceInfo>,
    scanned: &Option<Vec<ScannedPlugin>>,
    track_id: &String,
    instrument_id: &Option<String>,
) -> (r: Result<Op, PlanError>)
    ensures
        r is Ok <==> match bound_instance(*instrument_id) {
            Some(id) => instrument_allowed(tracks@, instances@, scan_view(*scanned), id),
            None => true,
        },
        r matches Err(e) ==> bound_instance(*instrument_id) matches Some(id) && exists|x: String| x@ == id
            && Err::<(), PlanError>(e) == instrument_verdict(tracks@, instances@, scan_view(*scanned), id, x),
        r matches Ok(op) ==> op matches Op::SetProp { object, path, from, to } && object == ObjectRef::Track(*track_id)
            && path == PropPath::InstrumentId && from is Null && to@ == match instrument_id {
            Some(iid) => WireKey::Text(iid@),
            None => WireKey::Null,
        },
{
    match instrument_id {
        Some(iid) => {
            match plugin_instance_of(iid) {
                Some(pid) => {
                    match check_instrument_instance(tracks, instances, scanned, &pid) {
                        Ok(()) => {},
                        Err(e) => return Err(e),
                    }
                },
                None => {},
            }
        },
        None => {},
    }
    let to = match instrument_id {
        Some(iid) => WireValue::Text(iid.clone()),
        None => WireValue::Null,
    };
    Ok(Op::SetProp { object: ObjectRef::Track(track_id.clone()), path: PropPath::InstrumentId, from: WireValue::Null, to })
}

// ---------------------------------------------------------------------------
// Parameter batches
// ---------------------------------------------------------------------------

/// One plugin parameter write: the parameter's stable id and its new value
/// (the `f64`'s bit pattern).
pub struct ParamChange {
    pub id: u32,
    pub value_bits: u64,
}

/// The `Set` one parameter change applies to the instance `instance_id`.
pub open spec fn param_op(instance_id: String, c: ParamChange) -> Op {
    Op::SetProp {
        object: ObjectRef::Plugin(instance_id),
        path: PropPath::Param { index: c.id },
        from: WireValue::Null,
        to: WireValue::Float(c.value_bits),
    }
}

/// Plan a parameter batch: the instance must exist (or the whole batch
/// fails), then one `Set` per change, in order.
pub fn plan_plugin_params(
    instances: &Vec<PluginInstanceInfo>,
    instance_id: &String,
    changes: &Vec<ParamChange>,
) -> (r: Result<Vec<Op>, PlanError>)
    ensures
        r is Err <==> first_match(instances@, instance_key(), instance_id@) == -1,
        r matches Err(e) ==> e == PlanError::UnknownPluginInstance(*instance_id),
        r matches Ok(ops) ==> ops@.len() == changes@.len() && forall|k: int| 0 <= k < changes@.len() ==> #[trigger] ops@[k]
            == param_op(*instance_id, changes@[k]),
{
    if find_instance(instances, instance_id).is_none() {
        return Err(PlanError::UnknownPluginInstance(instance_id.clone()));
    }
    let mut ops: Vec<Op> = Vec::new();
    let mut k: usize = 0;
    while k < changes.len()
        invariant
            k <= changes@.len(),
            ops@.len() == k,
            forall|m: int| 0 <= m < k ==> #[trigger] ops@[m] == param_op(*instance_id, changes@[m]),
        decreases changes.len() - k,
    {
        let c = &changes[k];
        ops.push(Op::SetProp {
            object: ObjectRef::Plugin(instance_id.clone()),
            path: PropPath::Param { index: c.id },
            from: WireValue::Null,
            to: WireValue::Float(c.value_bits),
        });
        k = k + 1;
    }
    Ok(ops)
}

// ---------------------------------------------------------------------------
// Automation lanes and clips
// ---------------------------------------------------------------------------

/// The upsert for a (normalized) automation lane, keyed by its id; a lane
/// with no points is a delete.
pub fn automation_lane_op(lane: AutomationLane) -> (op: Op)
    ensures
        op matches Op::AutomationSetLane { key, lane: l } && key == lane.id
            && (if lane.points@.len() == 0 { l is None } else { l == Some(lane) }),
{
    let key = lane.id.clone();
    if lane.points.len() == 0 {
        Op::AutomationSetLane { key, lane: None }
    } else {
        Op::AutomationSetLane { key, lane: Some(lane) }
    }
}

/// Validate an automation clip upsert: its id (the key it is stored
/// under), its track id and its curve id must all be non-empty, checked in
/// that order.
pub fn check_automation_clip(key: &String, track_id: &String, curve_id: &String) -> (r: Result<(), PlanError>)
    ensures
        r == (if key@.len() == 0 {
            Err(PlanError::EmptyAutomationClipField(AutomationClipField::Id))
        } else if track_id@.len() == 0 {
            Err(PlanError::EmptyAutomationClipField(AutomationClipField::TrackId))
        } else if curve_id@.len() == 0 {
            Err(PlanError::EmptyAutomationClipField(AutomationClipField::CurveId))
        } else {
            Ok(())
        }),
{
    proof {
        reveal_strlit("");
        assert(""@ =~= Seq::<char>::empty());
    }
    let no_key = str_is(key, "");
    let no_track = str_is(track_id, "");
    let no_curve = str_is(curve_id, "");
    proof {
        if key@.len() == 0 {
            assert(key@ =~= ""@);
        }
        if track_id@.len() == 0 {
            assert(track_id@ =~= ""@);
        }
        if curve_id@.len() == 0 {
            assert(curve_id@ =~= ""@);
        }
    }
    if no_key {
        Err(PlanError::EmptyAutomationClipField(AutomationClipField::Id))
    } else if no_track {
        Err(PlanError::EmptyAutomationClipField(AutomationClipField::TrackId))
    } else if no_curve {
        Err(PlanError::EmptyAutomationClipField(AutomationClipField::CurveId))
    } else {
        Ok(())
    }
}

// ---------------------------------------------------------------------------
// MIDI routing checks
// ---------------------------------------------------------------------------

/// The verdict on routing MIDI through the track `id`: it must exist and
/// be a MIDI track.
pub open spec fn midi_track_verdict(tracks: Seq<TrackState>, id: String) -> Result<(), PlanError> {
    let i = first_match(tracks, track_key(), id@);
    if i == -1 {
        Err(PlanError::UnknownTrack(id))
    } else if tracks[i].kind@ == "midi"@ {
        Ok(())
    } else {
        Err(PlanError::NotMidiTrack { track_id: id, kind: tracks[i].kind })
    }
}

/// Check that `id` names a MIDI track (MIDI input, MIDI output routes and
/// hardware returns all hang on one).
pub fn check_midi_track(tracks: &Vec<TrackState>, id: &String) -> (r: Result<(), PlanError>)
    ensures
        r == midi_track_verdict(tracks@, *id),
{
    let i = match find_track(tracks, id) {
        Some(i) => i,
        None => {
            proof {
                lemma_first_match(tracks@, track_key(), id@, tracks@.len() as int);
            }
            return Err(PlanError::UnknownTrack(id.clone()));
        },
    };
    proof {
        lemma_first_match_at(tracks@, track_key(), id@, i as int);
        reveal_strlit("midi");
    }
    if str_is(&tracks[i].kind, "midi") {
        Ok(())
    } else {
        Err(PlanError::NotMidiTrack { track_id: id.clone(), kind: tracks[i].kind.clone() })
    }
}

/// Check a track route: routing to a port needs a MIDI track, while
/// clearing a route (`routing == false`) always passes, so a route left
/// behind by a removed track stays clearable.
pub fn check_midi_track_route(tracks: &Vec<TrackState>, id: &String, routing: bool) -> (r: Result<(), PlanError>)
    ensures
        r == (if routing { midi_track_verdict(tracks@, *id) } else { Ok(()) }),
{
    if routing {
        check_midi_track(tracks, id)
    } else {
        Ok(())
    }
}

/// Check a clip route: routing to a port needs the MIDI clip to exist;
/// clearing always passes.
pub fn check_midi_clip_route(clips: &Vec<MidiClip>, id: &String, routing: bool) -> (r: Result<(), PlanError>)
    ensures
        r == (if routing && !has_midi_clip(clips@, id@) { Err(PlanError::UnknownMidiClip(*id)) } else { Ok(()) }),
{
    if routing && !midi_clip_exists(clips, id) {
        Err(PlanError::UnknownMidiClip(id.clone()))
    } else {
        Ok(())
    }
}

} // verus!
