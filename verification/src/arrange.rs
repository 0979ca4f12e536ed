//! Arrangement planners: moving clips, arranging lanes, and removing a
//! track, an audio clip, an insert or a send. Each validates against the
//! document it was handed and returns the ops its one transaction applies.

use vstd::prelude::*;
use crate::op::{ObjectRef, Op, PropPath, WireKey, WireValue};
use crate::plane::{
    find_track, first_match, has_clip, has_midi_clip, has_track, lemma_first_match, lemma_first_match_at, ClipPlacement,
    LaneArrangement, PlanError,
};
use crate::types::{
    Clip, InsertSlot, MidiClip, PluginInstanceInfo, SendSlot, TrackState, opt_text,
};

verus! {

// ---------------------------------------------------------------------------
// Moving clips
// ---------------------------------------------------------------------------

/// Whether the clip a placement moves exists in its half of the document.
pub open spec fn placement_known(p: ClipPlacement, clips: Seq<Clip>, midi_clips: Seq<MidiClip>) -> bool {
    match p {
        ClipPlacement::Audio { clip_id, .. } => has_clip(clips, clip_id@),
        ClipPlacement::Midi { clip_id, .. } => has_midi_clip(midi_clips, clip_id@),
    }
}

/// A property-addressed `Set` with an advisory `Null` from.
pub open spec fn set_op(object: ObjectRef, path: PropPath, to: WireValue) -> Op {
    Op::SetProp { object, path, from: WireValue::Null, to }
}

/// The `Set` an optional tick bound applies to a MIDI clip, if present.
pub open spec fn opt_tick_op(clip_id: String, path: PropPath, v: Option<u64>) -> Seq<Op> {
    match v {
        Some(t) => seq![set_op(ObjectRef::MidiClip(clip_id), path, WireValue::UInt(t))],
        None => Seq::empty(),
    }
}

/// The ops one placement applies: an audio clip's start in samples; a MIDI
/// clip's start in ticks, then its length and content length where given.
pub open spec fn placement_ops(p: ClipPlacement) -> Seq<Op> {
    match p {
        ClipPlacement::Audio { clip_id, timeline_start_samples } => seq![
            set_op(ObjectRef::Clip(clip_id), PropPath::TimelineStartSamples, WireValue::UInt(timeline_start_samples)),
        ],
        ClipPlacement::Midi { clip_id, timeline_start_ticks, length_ticks, content_length_ticks } => seq![
            set_op(ObjectRef::MidiClip(clip_id), PropPath::TimelineStartTicks, WireValue::UInt(timeline_start_ticks)),
        ] + opt_tick_op(clip_id, PropPath::LengthTicks, length_ticks) + opt_tick_op(
            clip_id,
            PropPath::ContentLengthTicks,
            content_length_ticks,
        ),
    }
}

/// The ops a whole batch applies, placement by placement.
pub open spec fn placements_ops(ps: Seq<ClipPlacement>) -> Seq<Op>
    decreases ps.len(),
{
    if ps.len() == 0 {
        Seq::empty()
    } else {
        placements_ops(ps.drop_last()) + placement_ops(ps.last())
    }
}

fn push_placement_ops(out: &mut Vec<Op>, p: &ClipPlacement)
    ensures
        final(out)@ == old(out)@ + placement_ops(*p),
{
    match p {
        ClipPlacement::Audio { clip_id, timeline_start_samples } => {
            out.push(Op::SetProp {
                object: ObjectRef::Clip(clip_id.clone()),
                path: PropPath::TimelineStartSamples,
                from: WireValue::Null,
                to: WireValue::UInt(*timeline_start_samples),
            });
            assert(final(out)@ =~= old(out)@ + placement_ops(*p));
        },
        ClipPlacement::Midi { clip_id, timeline_start_ticks, length_ticks, content_length_ticks } => {
            out.push(Op::SetProp {
                object: ObjectRef::MidiClip(clip_id.clone()),
                path: PropPath::TimelineStartTicks,
                from: WireValue::Null,
                to: WireValue::UInt(*timeline_start_ticks),
            });
            let ghost first = out@;
            match length_ticks {
                Some(len) => {
                    out.push(Op::SetProp {
                        object: ObjectRef::MidiClip(clip_id.clone()),
                        path: PropPath::LengthTicks,
                        from: WireValue::Null,
                        to: WireValue::UInt(*len),
                    });
                },
                None => {},
            }
            assert(out@ =~= first + opt_tick_op(*clip_id, PropPath::LengthTicks, *length_ticks));
            let ghost second = out@;
            match content_length_ticks {
                Some(cl) => {
                    out.push(Op::SetProp {
                        object: ObjectRef::MidiClip(clip_id.clone()),
                        path: PropPath::ContentLengthTicks,
                        from: WireValue::Null,
                        to: WireValue::UInt(*cl),
                    });
                },
                None => {},
            }
            assert(out@ =~= second + opt_tick_op(*clip_id, PropPath::ContentLengthTicks, *content_length_ticks));
            assert(final(out)@ =~= old(out)@ + placement_ops(*p));
        },
    }
}

/// Validate and plan a `move_clips` batch. Every placement must name a
/// clip that exists, or the batch fails on the first that does not and
/// nothing moves. An empty batch plans no ops (nothing is committed).
pub fn plan_move_clips(
    clips: &Vec<Clip>,
    midi_clips: &Vec<MidiClip>,
    placements: &Vec<ClipPlacement>,
) -> (r: Result<Vec<Op>, PlanError>)
    ensures
        r is Ok <==> forall|i: int| 0 <= i < placements@.len() ==> placement_known(#[trigger] placements@[i], clips@, midi_clips@),
        r matches Ok(ops) ==> ops@ == placements_ops(placements@),
        r matches Err(e) ==> exists|i: int| 0 <= i < placements@.len()
            && !placement_known(#[trigger] placements@[i], clips@, midi_clips@)
            && (forall|j: int| 0 <= j < i ==> placement_known(#[trigger] placements@[j], clips@, midi_clips@))
            && e == PlanError::UnknownClip(placements@[i].spec_clip_id()),
{
    let mut i: usize = 0;
    while i < placements.len()
        invariant
            i <= placements@.len(),
            forall|j: int| 0 <= j < i ==> placement_known(#[trigger] placements@[j], clips@, midi_clips@),
        decreases placements.len() - i,
    {
        let known = match &placements[i] {
            ClipPlacement::Audio { clip_id, .. } => crate::plane::clip_exists(clips, clip_id),
            ClipPlacement::Midi { clip_id, .. } => crate::plane::midi_clip_exists(midi_clips, clip_id),
        };
        if !known {
            return Err(PlanError::UnknownClip(placements[i].clip_id().clone()));
        }
        i = i + 1;
    }
    let mut ops: Vec<Op> = Vec::new();
    let mut k: usize = 0;
    while k < placements.len()
        invariant
            k <= placements@.len(),
            ops@ == placements_ops(placements@.subrange(0, k as int)),
        decreases placements.len() - k,
    {
        push_placement_ops(&mut ops, &placements[k]);
        proof {
            let post = placements@.subrange(0, k + 1);
            assert(post.drop_last() =~= placements@.subrange(0, k as int));
        }
        k = k + 1;
    }
    proof {
        assert(placements@.subrange(0, placements@.len() as int) =~= placements@);
    }
    Ok(ops)
}

// ---------------------------------------------------------------------------
// Lane arrangement
// ---------------------------------------------------------------------------

/// Unicode `White_Space`, the set `char::is_whitespace` tests.
pub open spec fn is_white_space(c: char) -> bool {
    let u = c as u32;
    (0x9 <= u <= 0xd) || u == 0x20 || u == 0x85 || u == 0xa0 || u == 0x1680 || (0x2000 <= u <= 0x200a)
        || u == 0x2028 || u == 0x2029 || u == 0x202f || u == 0x205f || u == 0x3000
}

/// `s` without its leading and trailing white space.
pub open spec fn trim_spec(s: Seq<char>) -> Seq<char>
    decreases s.len(),
{
    if s.len() == 0 {
        s
    } else if is_white_space(s[0]) {
        trim_spec(s.drop_first())
    } else if is_white_space(s.last()) {
        trim_spec(s.drop_last())
    } else {
        s
    }
}

/// Whether `c` is white space.
fn white_space_char(c: char) -> (b: bool)
    ensures
        b == is_white_space(c),
{
    let u = c as u32;
    (0x9 <= u && u <= 0xd) || u == 0x20 || u == 0x85 || u == 0xa0 || u == 0x1680 || (0x2000 <= u && u <= 0x200a)
        || u == 0x2028 || u == 0x2029 || u == 0x202f || u == 0x205f || u == 0x3000
}

/// An owned copy of `s` without leading and trailing white space.
pub(crate) fn trim_text(s: &String) -> (r: String)
    ensures
        r@ == trim_spec(s@),
{
    let t = s.as_str();
    let n = t.unicode_len();
    proof {
        assert(s@.subrange(0, n as int) =~= s@);
    }
    let mut lo: usize = 0;
    while lo < n && white_space_char(t.get_char(lo))
        invariant
            n == s@.len(),
            t@ == s@,
            lo <= n,
            trim_spec(s@) == trim_spec(s@.subrange(lo as int, n as int)),
        decreases n - lo,
    {
        proof {
            assert(s@.subrange(lo as int, n as int).drop_first() =~= s@.subrange(lo + 1, n as int));
        }
        lo = lo + 1;
    }
    let mut hi: usize = n;
    while hi > lo && white_space_char(t.get_char(hi - 1))
        invariant
            n == s@.len(),
            t@ == s@,
            lo <= hi <= n,
            lo < n ==> !is_white_space(s@[lo as int]),
            trim_spec(s@) == trim_spec(s@.subrange(lo as int, hi as int)),
        decreases hi - lo,
    {
        proof {
            let sub = s@.subrange(lo as int, hi as int);
            assert(sub[0] == s@[lo as int]);
            assert(sub.drop_last() =~= s@.subrange(lo as int, hi - 1));
        }
        hi = hi - 1;
    }
    proof {
        let sub = s@.subrange(lo as int, hi as int);
        if lo < hi {
            assert(sub[0] == s@[lo as int]);
            assert(sub.last() == s@[hi - 1]);
        }
    }
    String::from_str(t.substring_char(lo, hi))
}

/// The group label a lane asks for: trimmed, and an empty label means
/// ungrouped.
pub open spec fn wanted_group(g: Option<String>) -> Option<Seq<char>> {
    match g {
        Some(s) => if trim_spec(s@).len() > 0 { Some(trim_spec(s@)) } else { None },
        None => None,
    }
}

/// The group the document holds for `id` (the last row with that id wins;
/// an unknown id has none).
pub open spec fn current_group(tracks: Seq<TrackState>, id: Seq<char>) -> Option<Seq<char>>
    decreases tracks.len(),
{
    if tracks.len() == 0 {
        None
    } else if tracks.last().id@ == id {
        opt_text(tracks.last().group)
    } else {
        current_group(tracks.drop_last(), id)
    }
}

/// The lanes whose group actually changes, in order.
pub open spec fn regrouped_lanes(lanes: Seq<LaneArrangement>, tracks: Seq<TrackState>) -> Seq<LaneArrangement>
    decreases lanes.len(),
{
    if lanes.len() == 0 {
        Seq::empty()
    } else {
        let rest = regrouped_lanes(lanes.drop_last(), tracks);
        let l = lanes.last();
        if wanted_group(l.group) == current_group(tracks, l.track_id@) {
            rest
        } else {
            rest.push(l)
        }
    }
}

/// `op` writes `want` as the group of the track `track_id`.
pub open spec fn is_group_write(op: Op, track_id: String, want: Option<Seq<char>>) -> bool {
    op matches Op::SetProp { object, path, from, to } && object == ObjectRef::Track(track_id)
        && path == PropPath::Group && from is Null && to@ == match want {
        Some(g) => WireKey::Text(g),
        None => WireKey::Null,
    }
}

fn current_group_of(tracks: &Vec<TrackState>, id: &String) -> (g: Option<String>)
    ensures
        opt_text(g) == current_group(tracks@, id@),
{
    let mut i: usize = tracks.len();
    proof {
        assert(tracks@.subrange(0, i as int) =~= tracks@);
    }
    while i > 0
        invariant
            i <= tracks@.len(),
            current_group(tracks@, id@) == current_group(tracks@.subrange(0, i as int), id@),
        decreases i,
    {
        let t = &tracks[i - 1];
        proof {
            let pre = tracks@.subrange(0, i as int);
            assert(pre.drop_last() =~= tracks@.subrange(0, i - 1));
            assert(pre.last() == tracks@[i - 1]);
        }
        if t.id == *id {
            return crate::types::dup_opt(&t.group);
        }
        i = i - 1;
    }
    None
}

/// Plan an `arrange_lanes` transaction: the reorder first (it is the op
/// that validates the id set, so a bogus arrangement fails before any
/// label is rewritten), then one group write for each lane whose trimmed
/// label differs from the one the document holds.
pub fn arrange_lanes_ops(tracks: &Vec<TrackState>, lanes: &Vec<LaneArrangement>) -> (ops: Vec<Op>)
    ensures
        ops@.len() == 1 + regrouped_lanes(lanes@, tracks@).len(),
        ops@[0] matches Op::TrackReorder { order } && order@ == lanes@.map_values(|l: LaneArrangement| l.track_id),
        forall|k: int| 0 <= k < regrouped_lanes(lanes@, tracks@).len() ==> is_group_write(
            #[trigger] ops@[k + 1],
            regrouped_lanes(lanes@, tracks@)[k].track_id,
            wanted_group(regrouped_lanes(lanes@, tracks@)[k].group),
        ),
{
    let mut order: Vec<String> = Vec::new();
    let mut i: usize = 0;
    while i < lanes.len()
        invariant
            i <= lanes@.len(),
            order@ == lanes@.subrange(0, i as int).map_values(|l: LaneArrangement| l.track_id),
        decreases lanes.len() - i,
    {
        order.push(lanes[i].track_id.clone());
        proof {
            assert(lanes@.subrange(0, i + 1).map_values(|l: LaneArrangement| l.track_id) =~= lanes@.subrange(
                0,
                i as int,
            ).map_values(|l: LaneArrangement| l.track_id).push(lanes@[i as int].track_id));
        }
        i = i + 1;
    }
    proof {
        assert(lanes@.subrange(0, lanes@.len() as int) =~= lanes@);
    }
    let mut ops: Vec<Op> = Vec::new();
    ops.push(Op::TrackReorder { order });
    let mut k: usize = 0;
    while k < lanes.len()
        invariant
            k <= lanes@.len(),
            ops@.len() == 1 + regrouped_lanes(lanes@.subrange(0, k as int), tracks@).len(),
            ops@[0] matches Op::TrackReorder { order } && order@ == lanes@.map_values(|l: LaneArrangement| l.track_id),
            forall|m: int| 0 <= m < regrouped_lanes(lanes@.subrange(0, k as int), tracks@).len() ==> is_group_write(
                #[trigger] ops@[m + 1],
                regrouped_lanes(lanes@.subrange(0, k as int), tracks@)[m].track_id,
                wanted_group(regrouped_lanes(lanes@.subrange(0, k as int), tracks@)[m].group),
            ),
        decreases lanes.len() - k,
    {
        let lane = &lanes[k];
        let want: Option<String> = match &lane.group {
            Some(g) => {
                let t = trim_text(g);
                if crate::text::str_is(&t, "") { None } else { Some(t) }
            },
            None => None,
        };
        proof {
            reveal_strlit("");
        }
        let have = current_group_of(tracks, &lane.track_id);
        let same = crate::text::opt_string_eq(&want, &have);
        proof {
            let pre = lanes@.subrange(0, k as int);
            let post = lanes@.subrange(0, k + 1);
            assert(post.drop_last() =~= pre);
            assert(post.last() == lanes@[k as int]);
            assert(""@ =~= Seq::<char>::empty());
            match &lane.group {
                Some(g) => {
                    if trim_spec(g@).len() == 0 {
                        assert(trim_spec(g@) =~= ""@);
                    }
                },
                None => {},
            }
            assert(opt_text(want) == wanted_group(lane.group));
        }
        if !same {
            let to = match want {
                Some(g) => WireValue::Text(g),
                None => WireValue::Null,
            };
            ops.push(Op::SetProp {
                object: ObjectRef::Track(lane.track_id.clone()),
                path: PropPath::Group,
                from: WireValue::Null,
                to,
            });
        }
        k = k + 1;
    }
    proof {
        assert(lanes@.subrange(0, lanes@.len() as int) =~= lanes@);
    }
    ops
}

/// A pure reorder journals one op: when no lane's label changes what the
/// document holds, the arrangement writes no group at all.
pub proof fn lemma_pure_reorder_writes_no_group(lanes: Seq<LaneArrangement>, tracks: Seq<TrackState>)
    requires
        forall|i: int| 0 <= i < lanes.len() ==> wanted_group(#[trigger] lanes[i].group) == current_group(
            tracks,
            lanes[i].track_id@,
        ),
    ensures
        regrouped_lanes(lanes, tracks).len() == 0,
    decreases lanes.len(),
{
    if lanes.len() > 0 {
        let l = lanes.last();
        assert(lanes[lanes.len() - 1] == l);
        lemma_pure_reorder_writes_no_group(lanes.drop_last(), tracks);
    }
}

// ---------------------------------------------------------------------------
// Removing a track
// ---------------------------------------------------------------------------

/// A track's id, as the key lookups go by.
pub open spec fn track_key() -> spec_fn(TrackState) -> Seq<char> {
    |t: TrackState| t.id@
}

/// A plugin instance's id.
pub open spec fn instance_key() -> spec_fn(PluginInstanceInfo) -> Seq<char> {
    |r: PluginInstanceInfo| r.id@
}

/// An insert slot's id.
pub open spec fn insert_key() -> spec_fn(InsertSlot) -> Seq<char> {
    |s: InsertSlot| s.id@
}

/// A send's id.
pub open spec fn send_key() -> spec_fn(SendSlot) -> Seq<char> {
    |s: SendSlot| s.id@
}

/// The instance rows behind a chain of insert slots, in slot order; a slot
/// whose instance the document does not hold is skipped.
pub open spec fn insert_rows(slots: Seq<InsertSlot>, instances: Seq<PluginInstanceInfo>) -> Seq<PluginInstanceInfo>
    decreases slots.len(),
{
    if slots.len() == 0 {
        Seq::empty()
    } else {
        let rest = insert_rows(slots.drop_last(), instances);
        let k = first_match(instances, instance_key(), slots.last().instance_id@);
        if k >= 0 {
            rest.push(instances[k])
        } else {
            rest
        }
    }
}

/// The sends of the track `track_id` that point into `dest`, with the id
/// of the track that owns each.
pub open spec fn sends_to(track_id: String, sends: Seq<SendSlot>, dest: Seq<char>) -> Seq<(String, SendSlot)>
    decreases sends.len(),
{
    if sends.len() == 0 {
        Seq::empty()
    } else {
        let rest = sends_to(track_id, sends.drop_last(), dest);
        if sends.last().dest@ == dest {
            rest.push((track_id, sends.last()))
        } else {
            rest
        }
    }
}

/// Every send in the document that points into `dest`, track by track.
pub open spec fn sends_into(tracks: Seq<TrackState>, dest: Seq<char>) -> Seq<(String, SendSlot)>
    decreases tracks.len(),
{
    if tracks.len() == 0 {
        Seq::empty()
    } else {
        sends_into(tracks.drop_last(), dest) + sends_to(tracks.last().id, tracks.last().sends@, dest)
    }
}

/// The tracks routed into `dest`, in order.
pub open spec fn routed_into(tracks: Seq<TrackState>, dest: Seq<char>) -> Seq<String>
    decreases tracks.len(),
{
    if tracks.len() == 0 {
        Seq::empty()
    } else {
        let rest = routed_into(tracks.drop_last(), dest);
        if opt_text(tracks.last().output) == Some(dest) {
            rest.push(tracks.last().id)
        } else {
            rest
        }
    }
}

/// The ids of the MIDI clips on the track `id`, in order.
pub open spec fn midi_clips_on(clips: Seq<MidiClip>, id: Seq<char>) -> Seq<String>
    decreases clips.len(),
{
    if clips.len() == 0 {
        Seq::empty()
    } else {
        let rest = midi_clips_on(clips.drop_last(), id);
        if clips.last().track_id@ == id {
            rest.push(clips.last().id)
        } else {
            rest
        }
    }
}

/// What removing a track takes with it, captured before the commit.
pub struct RemoveTrackPlan {
    /// The row being removed (the first with the id).
    pub track: TrackState,
    /// Its MIDI clips, whose routing is cleared after the commit.
    pub midi_clip_ids: Vec<String>,
    /// The instance rows of its inserts, removed with it.
    pub insert_rows: Vec<PluginInstanceInfo>,
    /// Every send into it, with its owning track.
    pub send_removes: Vec<(String, SendSlot)>,
    /// Every track routed into it, reset to the master.
    pub output_resets: Vec<String>,
}

/// What the host held for one insert instance at removal time: its
/// encoded state, if any, and its parameter records.
pub struct CapturedInstance {
    pub state: Option<Vec<u8>>,
    pub params: Vec<String>,
}

fn midi_clip_ids_on(clips: &Vec<MidiClip>, id: &String) -> (r: Vec<String>)
    ensures
        r@ == midi_clips_on(clips@, id@),
{
    let mut r: Vec<String> = Vec::new();
    let mut i: usize = 0;
    while i < clips.len()
        invariant
            i <= clips@.len(),
            r@ == midi_clips_on(clips@.subrange(0, i as int), id@),
        decreases clips.len() - i,
    {
        proof {
            assert(clips@.subrange(0, i + 1).drop_last() =~= clips@.subrange(0, i as int));
        }
        if clips[i].track_id == *id {
            r.push(clips[i].id.clone());
        }
        i = i + 1;
    }
    proof {
        assert(clips@.subrange(0, clips@.len() as int) =~= clips@);
    }
    r
}

/// The first instance with the id `id`.
pub fn find_instance(instances: &Vec<PluginInstanceInfo>, id: &String) -> (r: Option<usize>)
    ensures
        match r {
            Some(k) => k == first_match(instances@, instance_key(), id@) && k < instances@.len(),
            None => first_match(instances@, instance_key(), id@) == -1,
        },
{
    let mut i: usize = 0;
    while i < instances.len()
        invariant
            i <= instances@.len(),
            forall|j: int| 0 <= j < i ==> #[trigger] instances@[j].id@ != id@,
        decreases instances.len() - i,
    {
        if instances[i].id == *id {
            proof {
                lemma_first_match_at(instances@, instance_key(), id@, i as int);
            }
            return Some(i);
        }
        i = i + 1;
    }
    proof {
        lemma_first_match(instances@, instance_key(), id@, instances@.len() as int);
    }
    None
}

fn collect_insert_rows(slots: &Vec<InsertSlot>, instances: &Vec<PluginInstanceInfo>) -> (r: Vec<PluginInstanceInfo>)
    ensures
        r@ == insert_rows(slots@, instances@),
{
    let mut r: Vec<PluginInstanceInfo> = Vec::new();
    let mut i: usize = 0;
    while i < slots.len()
        invariant
            i <= slots@.len(),
            r@ == insert_rows(slots@.subrange(0, i as int), instances@),
        decreases slots.len() - i,
    {
        proof {
            assert(slots@.subrange(0, i + 1).drop_last() =~= slots@.subrange(0, i as int));
        }
        match find_instance(instances, &slots[i].instance_id) {
            Some(k) => {
                r.push(instances[k].duplicate());
            },
            None => {},
        }
        i = i + 1;
    }
    proof {
        assert(slots@.subrange(0, slots@.len() as int) =~= slots@);
    }
    r
}

fn push_sends_to(out: &mut Vec<(String, SendSlot)>, track_id: &String, sends: &Vec<SendSlot>, dest: &String)
    ensures
        final(out)@ == old(out)@ + sends_to(*track_id, sends@, dest@),
{
    let ghost base = out@;
    let mut j: usize = 0;
    while j < sends.len()
        invariant
            j <= sends@.len(),
            out@ == base + sends_to(*track_id, sends@.subrange(0, j as int), dest@),
        decreases sends.len() - j,
    {
        proof {
            assert(sends@.subrange(0, j + 1).drop_last() =~= sends@.subrange(0, j as int));
        }
        if sends[j].dest == *dest {
            out.push((track_id.clone(), sends[j].duplicate()));
            proof {
                assert(out@ =~= base + sends_to(*track_id, sends@.subrange(0, j + 1), dest@));
            }
        }
        j = j + 1;
    }
    proof {
        assert(sends@.subrange(0, sends@.len() as int) =~= sends@);
    }
}

/// Capture what removing the track `id` takes with it: the row, its MIDI
/// clips, the instance rows of its inserts, every send into it, and every
/// track routed into it. Fails only for an unknown track.
pub fn plan_remove_track(
    tracks: &Vec<TrackState>,
    midi_clips: &Vec<MidiClip>,
    instances: &Vec<PluginInstanceInfo>,
    id: &String,
) -> (r: Result<RemoveTrackPlan, PlanError>)
    ensures
        r is Err <==> !has_track(tracks@, id@),
        r matches Err(e) ==> e == PlanError::UnknownTrack(*id),
        r matches Ok(p) ==> {
            let i = first_match(tracks@, track_key(), id@);
            &&& 0 <= i < tracks@.len()
            &&& p.track@ == tracks@[i]@
            &&& p.insert_rows@ == insert_rows(tracks@[i].inserts@, instances@)
        },
        r matches Ok(p) ==> p.midi_clip_ids@ == midi_clips_on(midi_clips@, id@),
        r matches Ok(p) ==> p.send_removes@ == sends_into(tracks@, id@),
        r matches Ok(p) ==> p.output_resets@ == routed_into(tracks@, id@),
{
    let i = match find_track(tracks, id) {
        Some(i) => i,
        None => return Err(PlanError::UnknownTrack(id.clone())),
    };
    proof {
        lemma_first_match_at(tracks@, track_key(), id@, i as int);
    }
    let track = tracks[i].duplicate();
    let midi_clip_ids = midi_clip_ids_on(midi_clips, id);
    let insert_rows = collect_insert_rows(&tracks[i].inserts, instances);
    let mut send_removes: Vec<(String, SendSlot)> = Vec::new();
    let mut output_resets: Vec<String> = Vec::new();
    let mut t: usize = 0;
    while t < tracks.len()
        invariant
            t <= tracks@.len(),
            send_removes@ == sends_into(tracks@.subrange(0, t as int), id@),
            output_resets@ == routed_into(tracks@.subrange(0, t as int), id@),
        decreases tracks.len() - t,
    {
        proof {
            let post = tracks@.subrange(0, t + 1);
            assert(post.drop_last() =~= tracks@.subrange(0, t as int));
            assert(post.last() == tracks@[t as int]);
        }
        let row = &tracks[t];
        push_sends_to(&mut send_removes, &row.id, &row.sends, id);
        let routed = match &row.output {
            Some(o) => *o == *id,
            None => false,
        };
        if routed {
            output_resets.push(row.id.clone());
        }
        t = t + 1;
    }
    proof {
        assert(tracks@.subrange(0, tracks@.len() as int) =~= tracks@);
    }
    Ok(RemoveTrackPlan { track, midi_clip_ids, insert_rows, send_removes, output_resets })
}

/// The ops of a track removal, in the order one undo must reverse them:
/// reset every output routed into the track, remove every send into it,
/// remove the row, then remove each insert instance with the state and
/// parameters the host held for it. `captured` runs parallel to the
/// plan's insert rows.
pub fn remove_track_ops(plan: RemoveTrackPlan, captured: Vec<CapturedInstance>) -> (ops: Vec<Op>)
    requires
        captured@.len() == plan.insert_rows@.len(),
    ensures
        ops@.len() == plan.output_resets@.len() + plan.send_removes@.len() + 1 + plan.insert_rows@.len(),
        forall|k: int| 0 <= k < plan.output_resets@.len() ==> #[trigger] ops@[k] == (Op::TrackSetOutput {
            track_id: plan.output_resets@[k],
            output: None,
        }),
        forall|k: int| 0 <= k < plan.send_removes@.len() ==> #[trigger] ops@[plan.output_resets@.len() + k] == (
        Op::SendRemove { track_id: plan.send_removes@[k].0, slot: plan.send_removes@[k].1, index: 0 }),
        ops@[(plan.output_resets@.len() + plan.send_removes@.len()) as int] matches Op::TrackRemove {
            track,
            index,
            clips,
            clip_indices,
        } && track == plan.track && index == 0 && clips@.len() == 0 && clip_indices@.len() == 0,
        forall|k: int| 0 <= k < plan.insert_rows@.len() ==> #[trigger] ops@[plan.output_resets@.len()
            + plan.send_removes@.len() + 1 + k] == (Op::PluginRemove {
            row: plan.insert_rows@[k],
            index: 0,
            state: captured@[k].state,
            params: captured@[k].params,
        }),
{
    let RemoveTrackPlan { track, midi_clip_ids: _, insert_rows, send_removes, output_resets } = plan;
    let mut ops: Vec<Op> = Vec::new();
    let mut i: usize = 0;
    while i < output_resets.len()
        invariant
            i <= output_resets@.len(),
            ops@.len() == i,
            forall|k: int| 0 <= k < i ==> #[trigger] ops@[k] == (Op::TrackSetOutput { track_id: output_resets@[k], output: None }),
        decreases output_resets.len() - i,
    {
        ops.push(Op::TrackSetOutput { track_id: output_resets[i].clone(), output: None });
        i = i + 1;
    }
    let n_out = output_resets.len();
    let mut j: usize = 0;
    while j < send_removes.len()
        invariant
            j <= send_removes@.len(),
            n_out == output_resets@.len(),
            ops@.len() == n_out + j,
            forall|k: int| 0 <= k < n_out ==> #[trigger] ops@[k] == (Op::TrackSetOutput { track_id: output_resets@[k], output: None }),
            forall|k: int| 0 <= k < j ==> #[trigger] ops@[n_out + k] == (Op::SendRemove {
                track_id: send_removes@[k].0,
                slot: send_removes@[k].1,
                index: 0,
            }),
        decreases send_removes.len() - j,
    {
        let (tid, slot) = &send_removes[j];
        ops.push(Op::SendRemove { track_id: tid.clone(), slot: slot.duplicate(), index: 0 });
        j = j + 1;
    }
    let n_pre = ops.len();
    ops.push(Op::TrackRemove { track, index: 0, clips: Vec::new(), clip_indices: Vec::new() });
    let mut captured = captured;
    let mut rows = insert_rows;
    let ghost rows0 = rows@;
    let ghost caps0 = captured@;
    let total = rows.len();
    let mut m: usize = 0;
    while rows.len() > 0
        invariant
            total == rows0.len(),
            m <= rows0.len(),
            rows@ == rows0.subrange(m as int, rows0.len() as int),
            captured@ == caps0.subrange(m as int, caps0.len() as int),
            caps0.len() == rows0.len(),
            n_pre == n_out + send_removes@.len(),
            n_out == output_resets@.len(),
            ops@.len() == n_pre + 1 + m,
            forall|k: int| 0 <= k < n_out ==> #[trigger] ops@[k] == (Op::TrackSetOutput { track_id: output_resets@[k], output: None }),
            forall|k: int| 0 <= k < send_removes@.len() ==> #[trigger] ops@[n_out + k] == (Op::SendRemove {
                track_id: send_removes@[k].0,
                slot: send_removes@[k].1,
                index: 0,
            }),
            ops@[n_pre as int] matches Op::TrackRemove { track: t, index, clips, clip_indices } && t == plan.track
                && index == 0 && clips@.len() == 0 && clip_indices@.len() == 0,
            forall|k: int| 0 <= k < m ==> #[trigger] ops@[n_pre + 1 + k] == (Op::PluginRemove {
                row: rows0[k],
                index: 0,
                state: caps0[k].state,
                params: caps0[k].params,
            }),
        decreases rows.len(),
    {
        let row = rows.remove(0);
        let cap = captured.remove(0);
        let CapturedInstance { state, params } = cap;
        ops.push(Op::PluginRemove { row, index: 0, state, params });
        m = m + 1;
    }
    ops
}

// ---------------------------------------------------------------------------
// Adding sends and inserts, setting a track property
// ---------------------------------------------------------------------------

/// A new send into `dest`: a fresh 36-character id, at unity (0 dB, so
/// adding it is audible), tapped post-fader.
pub fn new_send(dest: &String) -> (s: SendSlot)
    ensures
        s.id@.len() == 36,
        s.dest == *dest,
        s.amount_db_bits == 0,
        !s.pre_fader,
{
    SendSlot { id: crate::text::fresh_id(), dest: dest.clone(), amount_db_bits: 0, pre_fader: false }
}

/// The ops of an insert add: the instance row (appended), then its slot
/// at `index` in the track's chain, in one transaction.
pub fn insert_add_ops(track_id: &String, row: PluginInstanceInfo, slot: InsertSlot, index: usize) -> (ops: Vec<Op>)
    ensures
        ops@ == seq![
            Op::PluginAdd { row, index: usize::MAX },
            Op::InsertAdd { track_id: *track_id, slot, index },
        ],
{
    let mut ops: Vec<Op> = Vec::new();
    let ghost r = row;
    let ghost sl = slot;
    ops.push(Op::PluginAdd { row, index: usize::MAX });
    ops.push(Op::InsertAdd { track_id: track_id.clone(), slot, index });
    assert(ops@ =~= seq![
        Op::PluginAdd { row: r, index: usize::MAX },
        Op::InsertAdd { track_id: *track_id, slot: sl, index },
    ]);
    ops
}

/// One property write to an existing track (a rename, a group label);
/// an unknown track is refused before anything is written.
pub fn plan_set_track_prop(tracks: &Vec<TrackState>, id: &String, path: PropPath, to: WireValue) -> (r: Result<Op, PlanError>)
    ensures
        r is Err <==> !has_track(tracks@, id@),
        r matches Err(e) ==> e == PlanError::UnknownTrack(*id),
        r matches Ok(op) ==> op == set_op(ObjectRef::Track(*id), path, to),
{
    match find_track(tracks, id) {
        Some(_) => Ok(Op::SetProp { object: ObjectRef::Track(id.clone()), path, from: WireValue::Null, to }),
        None => Err(PlanError::UnknownTrack(id.clone())),
    }
}

// ---------------------------------------------------------------------------
// Removing a clip, an insert, a send
// ---------------------------------------------------------------------------

/// The `ClipRemove` for the first audio clip with the id `id`; the store's
/// copy of the clip travels in the op so undo restores it as it was.
pub fn remove_clip_op(clips: &Vec<Clip>, id: &String) -> (r: Result<Op, PlanError>)
    ensures
        r is Err <==> !has_clip(clips@, id@),
        r matches Err(e) ==> e == PlanError::UnknownClip(*id),
        r matches Ok(op) ==> exists|i: int| 0 <= i < clips@.len() && #[trigger] clips@[i].id@ == id@
            && (forall|j: int| 0 <= j < i ==> #[trigger] clips@[j].id@ != id@)
            && op == (Op::ClipRemove { clip: clips@[i], index: 0 }),
{
    let mut i: usize = 0;
    while i < clips.len()
        invariant
            i <= clips@.len(),
            forall|j: int| 0 <= j < i ==> #[trigger] clips@[j].id@ != id@,
        decreases clips.len() - i,
    {
        if clips[i].id == *id {
            return Ok(Op::ClipRemove { clip: clips[i].duplicate(), index: 0 });
        }
        i = i + 1;
    }
    Err(PlanError::UnknownClip(id.clone()))
}

/// What removing one insert takes: the slot and its instance row.
pub struct InsertRemoval {
    pub slot: InsertSlot,
    pub row: PluginInstanceInfo,
}

/// Capture an insert removal: the slot `slot_id` on the (first) track
/// `track_id`, and the instance row behind it. Each missing piece is its
/// own error, checked in that order.
pub fn plan_insert_remove(
    tracks: &Vec<TrackState>,
    instances: &Vec<PluginInstanceInfo>,
    track_id: &String,
    slot_id: &String,
) -> (r: Result<InsertRemoval, PlanError>)
    ensures
        ({
            let ti = first_match(tracks@, track_key(), track_id@);
            &&& ti == -1 <==> r == Err::<InsertRemoval, PlanError>(PlanError::UnknownTrack(*track_id))
            &&& ti != -1 ==> {
                let slots = tracks@[ti].inserts@;
                let si = first_match(slots, insert_key(), slot_id@);
                &&& si == -1 <==> r == Err::<InsertRemoval, PlanError>(PlanError::UnknownInsertSlot(*slot_id))
                &&& si != -1 ==> {
                    let f = first_match(instances@, instance_key(), slots[si].instance_id@);
                    &&& f == -1 <==> r == Err::<InsertRemoval, PlanError>(
                        PlanError::UnknownPluginInstance(slots[si].instance_id),
                    )
                    &&& f != -1 ==> r == Ok::<InsertRemoval, PlanError>(
                        InsertRemoval { slot: slots[si], row: instances@[f] },
                    )
                }
            }
        }),
{
    let i = match find_track(tracks, track_id) {
        Some(i) => i,
        None => {
            proof {
                lemma_first_match(tracks@, track_key(), track_id@, tracks@.len() as int);
            }
            return Err(PlanError::UnknownTrack(track_id.clone()));
        },
    };
    proof {
        lemma_first_match_at(tracks@, track_key(), track_id@, i as int);
    }
    let slots = &tracks[i].inserts;
    let mut k: usize = 0;
    while k < slots.len()
        invariant
            k <= slots@.len(),
            i < tracks@.len(),
            first_match(tracks@, track_key(), track_id@) == i,
            *slots == tracks@[i as int].inserts,
            forall|m: int| 0 <= m < k ==> #[trigger] slots@[m].id@ != slot_id@,
        decreases slots.len() - k,
    {
        if slots[k].id == *slot_id {
            proof {
                lemma_first_match_at(slots@, insert_key(), slot_id@, k as int);
            }
            let slot = slots[k].duplicate();
            return match find_instance(instances, &slot.instance_id) {
                Some(f) => Ok(InsertRemoval { slot, row: instances[f].duplicate() }),
                None => Err(PlanError::UnknownPluginInstance(slot.instance_id)),
            };
        }
        k = k + 1;
    }
    proof {
        lemma_first_match(slots@, insert_key(), slot_id@, slots@.len() as int);
    }
    Err(PlanError::UnknownInsertSlot(slot_id.clone()))
}

/// The ops of an insert removal: the slot leaves the chain, then its
/// instance is removed with the state and parameters the host held.
pub fn insert_remove_ops(track_id: &String, removal: InsertRemoval, captured: CapturedInstance) -> (ops: Vec<Op>)
    ensures
        ops@ == seq![
            Op::InsertRemove { track_id: *track_id, slot: removal.slot, index: 0 },
            Op::PluginRemove { row: removal.row, index: 0, state: captured.state, params: captured.params },
        ],
{
    let InsertRemoval { slot, row } = removal;
    let CapturedInstance { state, params } = captured;
    let mut ops: Vec<Op> = Vec::new();
    ops.push(Op::InsertRemove { track_id: track_id.clone(), slot, index: 0 });
    ops.push(Op::PluginRemove { row, index: 0, state, params });
    assert(ops@ =~= seq![
        Op::InsertRemove { track_id: *track_id, slot: removal.slot, index: 0 },
        Op::PluginRemove { row: removal.row, index: 0, state: captured.state, params: captured.params },
    ]);
    ops
}

/// The `SendRemove` for the send `send_id` on the (first) track
/// `track_id`; the store's copy of the send travels in the op.
pub fn plan_send_remove(tracks: &Vec<TrackState>, track_id: &String, send_id: &String) -> (r: Result<Op, PlanError>)
    ensures
        ({
            let ti = first_match(tracks@, track_key(), track_id@);
            &&& ti == -1 <==> r == Err::<Op, PlanError>(PlanError::UnknownTrack(*track_id))
            &&& ti != -1 ==> {
                let sends = tracks@[ti].sends@;
                let si = first_match(sends, send_key(), send_id@);
                &&& si == -1 <==> r == Err::<Op, PlanError>(PlanError::UnknownSend(*send_id))
                &&& si != -1 ==> r == Ok::<Op, PlanError>(
                    Op::SendRemove { track_id: *track_id, slot: sends[si], index: 0 },
                )
            }
        }),
{
    let i = match find_track(tracks, track_id) {
        Some(i) => i,
        None => {
            proof {
                lemma_first_match(tracks@, track_key(), track_id@, tracks@.len() as int);
            }
            return Err(PlanError::UnknownTrack(track_id.clone()));
        },
    };
    proof {
        lemma_first_match_at(tracks@, track_key(), track_id@, i as int);
    }
    let sends = &tracks[i].sends;
    let mut k: usize = 0;
    while k < sends.len()
        invariant
            k <= sends@.len(),
            i < tracks@.len(),
            first_match(tracks@, track_key(), track_id@) == i,
            *sends == tracks@[i as int].sends,
            forall|m: int| 0 <= m < k ==> #[trigger] sends@[m].id@ != send_id@,
        decreases sends.len() - k,
    {
        if sends[k].id == *send_id {
            proof {
                lemma_first_match_at(sends@, send_key(), send_id@, k as int);
            }
            return Ok(Op::SendRemove { track_id: track_id.clone(), slot: sends[k].duplicate(), index: 0 });
        }
        k = k + 1;
    }
    proof {
        lemma_first_match(sends@, send_key(), send_id@, sends@.len() as int);
    }
    Err(PlanError::UnknownSend(send_id.clone()))
}

} // verus!
