use aura_control::arrange::{
    arrange_lanes_ops, insert_add_ops, insert_remove_ops, new_send, plan_insert_remove, plan_move_clips, plan_remove_track,
    plan_send_remove, plan_set_track_prop, remove_clip_op, remove_track_ops, CapturedInstance,
};
use aura_control::op::{ObjectRef, Op, PropPath, WireValue};
use aura_control::plane::{ClipPlacement, LaneArrangement, PlanError};
use aura_control::types::{AutomationMode, Clip, InsertSlot, MidiClip, PluginInstanceInfo, SendSlot, TrackState};

fn track(id: &str) -> TrackState {
    TrackState {
        id: id.to_string(),
        name: id.to_string(),
        kind: "audio".to_string(),
        gain_db_bits: 0,
        pan_bits: 0,
        muted: false,
        soloed: false,
        armed: false,
        color: "#7c9cff".to_string(),
        instrument_id: None,
        group: None,
        automation_mode: AutomationMode::Read,
        output: None,
        sends: Vec::new(),
        inserts: Vec::new(),
    }
}

fn clip(id: &str, track_id: &str) -> Clip {
    Clip {
        id: id.to_string(),
        track_id: track_id.to_string(),
        name: "clip".to_string(),
        source_path: "audio/a.wav".to_string(),
        source_id: "src-1".to_string(),
        source_channels: 2,
        source_sample_rate: 48_000,
        source_length_samples: 48_000,
        timeline_start_samples: 0,
        offset_samples: 0,
        length_samples: 48_000,
        gain_db_bits: 0,
        fade_in_samples: 0,
        fade_out_samples: 0,
        content_id: "content-1".to_string(),
        lane_id: track_id.to_string(),
    }
}

fn midi_clip(id: &str, track_id: &str) -> MidiClip {
    MidiClip {
        id: id.to_string(),
        track_id: track_id.to_string(),
        name: "notes".to_string(),
        timeline_start_ticks: 0,
        length_ticks: 3_840,
        notes: Vec::new(),
        next_note_id: 1,
        content_id: "content-2".to_string(),
        lane_id: track_id.to_string(),
        content_length_ticks: Some(1_920),
        transpose_semitones: 0,
        velocity_offset: 0,
    }
}

fn instance(id: &str) -> PluginInstanceInfo {
    PluginInstanceInfo {
        id: id.to_string(),
        uid: format!("uid-{id}"),
        name: "Reverb".to_string(),
        format: "clap".to_string(),
        status: "active".to_string(),
        track_id: None,
    }
}

fn send(id: &str, dest: &str) -> SendSlot {
    SendSlot { id: id.to_string(), dest: dest.to_string(), amount_db_bits: 0, pre_fader: false }
}

fn lane(id: &str, group: Option<&str>) -> LaneArrangement {
    LaneArrangement { track_id: id.to_string(), group: group.map(|g| g.to_string()) }
}

fn set_target(op: &Op) -> (String, PropPath, u64) {
    match op {
        Op::SetProp { object: ObjectRef::Clip(id), path, to: WireValue::UInt(v), .. }
        | Op::SetProp { object: ObjectRef::MidiClip(id), path, to: WireValue::UInt(v), .. } => (id.clone(), *path, *v),
        other => panic!("expected a clip Set, got {other:?}"),
    }
}

#[test]
fn move_clips_moves_audio_and_midi_in_one_transaction_and_one_history_entry() {
    let clips = vec![clip("a-1", "t-1")];
    let midi = vec![midi_clip("m-1", "t-1")];
    let placements = vec![
        ClipPlacement::Audio { clip_id: "a-1".to_string(), timeline_start_samples: 5_000 },
        ClipPlacement::Midi {
            clip_id: "m-1".to_string(),
            timeline_start_ticks: 960,
            length_ticks: Some(7_680),
            content_length_ticks: Some(480),
        },
    ];
    let ops = plan_move_clips(&clips, &midi, &placements).ok().expect("both clips exist");
    assert_eq!(ops.len(), 4, "one batch, every write in it");
    assert_eq!(set_target(&ops[0]), ("a-1".to_string(), PropPath::TimelineStartSamples, 5_000));
    assert!(matches!(&ops[0], Op::SetProp { object: ObjectRef::Clip(_), from: WireValue::Null, .. }));
    assert_eq!(set_target(&ops[1]), ("m-1".to_string(), PropPath::TimelineStartTicks, 960));
    assert!(matches!(&ops[1], Op::SetProp { object: ObjectRef::MidiClip(_), .. }));
    assert_eq!(set_target(&ops[2]), ("m-1".to_string(), PropPath::LengthTicks, 7_680));
    assert_eq!(set_target(&ops[3]), ("m-1".to_string(), PropPath::ContentLengthTicks, 480));
}

#[test]
fn move_clips_rejects_an_unknown_id_without_moving_anything() {
    let clips = vec![clip("a-1", "t-1")];
    let placements = vec![
        ClipPlacement::Audio { clip_id: "a-1".to_string(), timeline_start_samples: 5_000 },
        ClipPlacement::Audio { clip_id: "nope".to_string(), timeline_start_samples: 5_000 },
    ];
    match plan_move_clips(&clips, &Vec::new(), &placements) {
        Err(PlanError::UnknownClip(id)) => assert_eq!(id, "nope", "the error names the offending id"),
        _ => panic!("an unknown clip must fail the whole batch"),
    }
    let midi_as_audio = vec![ClipPlacement::Midi {
        clip_id: "a-1".to_string(),
        timeline_start_ticks: 0,
        length_ticks: None,
        content_length_ticks: None,
    }];
    assert!(plan_move_clips(&clips, &Vec::new(), &midi_as_audio).is_err(), "each placement is looked up in its own store");
}

#[test]
fn move_clips_midi_entry_sets_bounds_and_leaves_content_length_alone_when_absent() {
    let midi = vec![midi_clip("m-1", "t-1")];
    let placements = vec![ClipPlacement::Midi {
        clip_id: "m-1".to_string(),
        timeline_start_ticks: 960,
        length_ticks: Some(7_680),
        content_length_ticks: None,
    }];
    let ops = plan_move_clips(&Vec::new(), &midi, &placements).ok().unwrap();
    assert_eq!(ops.len(), 2, "an absent contentLengthTicks means UNCHANGED, not cleared");
    assert_eq!(set_target(&ops[0]), ("m-1".to_string(), PropPath::TimelineStartTicks, 960));
    assert_eq!(set_target(&ops[1]), ("m-1".to_string(), PropPath::LengthTicks, 7_680));
    assert_eq!(placements[0].clip_id(), "m-1");
}

#[test]
fn move_clips_with_no_placements_is_a_no_op() {
    let ops = plan_move_clips(&vec![clip("a-1", "t-1")], &Vec::new(), &Vec::new()).ok().unwrap();
    assert!(ops.is_empty(), "nothing to commit, not an error");
}

#[test]
fn arrange_lanes_emits_group_writes_only_where_the_group_changed() {
    let mut t1 = track("t-1");
    t1.group = Some("Keys".to_string());
    let tracks = vec![track("t-2"), t1, track("t-3")];
    let ops = arrange_lanes_ops(&tracks, &vec![lane("t-3", Some("Keys")), lane("t-1", Some("Keys")), lane("t-2", None)]);
    assert_eq!(ops.len(), 2, "1 reorder + 1 Set (for t-3) — not 3 Sets");
    match &ops[0] {
        Op::TrackReorder { order } => assert_eq!(order, &vec!["t-3".to_string(), "t-1".to_string(), "t-2".to_string()]),
        other => panic!("the reorder must come first, got {other:?}"),
    }
    match &ops[1] {
        Op::SetProp { object: ObjectRef::Track(id), path: PropPath::Group, to: WireValue::Text(g), .. } => {
            assert_eq!(id, "t-3");
            assert_eq!(g, "Keys");
        }
        other => panic!("expected t-3's group write, got {other:?}"),
    }
}

#[test]
fn arrange_lanes_reorders_and_regroups_in_one_undoable_step() {
    let tracks = vec![track("t-1"), track("t-2"), track("t-3")];
    let ops = arrange_lanes_ops(&tracks, &vec![lane("t-3", Some("Drums")), lane("t-1", Some("Drums")), lane("t-2", None)]);
    assert_eq!(ops.len(), 3, "one reorder and the two group writes, one transaction");
    let groups: Vec<(String, String)> = ops[1..]
        .iter()
        .map(|op| match op {
            Op::SetProp { object: ObjectRef::Track(id), to: WireValue::Text(g), .. } => (id.clone(), g.clone()),
            other => panic!("expected a group write, got {other:?}"),
        })
        .collect();
    assert_eq!(groups, vec![("t-3".to_string(), "Drums".to_string()), ("t-1".to_string(), "Drums".to_string())]);
}

#[test]
fn arrange_lanes_trims_labels_and_reads_a_blank_label_as_ungrouped() {
    let mut t1 = track("t-1");
    t1.group = Some("Keys".to_string());
    let tracks = vec![t1, track("t-2")];
    let ops = arrange_lanes_ops(&tracks, &vec![lane("t-1", Some("  Keys \t")), lane("t-2", Some("   "))]);
    assert_eq!(ops.len(), 1, "a padded copy of the stored label and a blank label on an ungrouped row change nothing");
    let ops = arrange_lanes_ops(&tracks, &vec![lane("t-1", Some("")), lane("t-2", Some(" Bass "))]);
    assert_eq!(ops.len(), 3);
    assert!(matches!(&ops[1], Op::SetProp { to: WireValue::Null, .. }), "an empty label ungroups");
    assert!(matches!(&ops[2], Op::SetProp { to: WireValue::Text(g), .. } if g == "Bass"));
}

#[test]
fn removing_a_bus_removes_the_sends_that_pointed_at_it() {
    let mut a = track("t-a");
    a.sends = vec![send("s-1", "bus"), send("s-2", "other")];
    let mut b = track("t-b");
    b.sends = vec![send("s-3", "bus")];
    let tracks = vec![a, b, track("bus"), track("other")];
    let plan = plan_remove_track(&tracks, &Vec::new(), &Vec::new(), &"bus".to_string()).ok().unwrap();
    let removed: Vec<(String, String)> = plan.send_removes.iter().map(|(t, s)| (t.clone(), s.id.clone())).collect();
    assert_eq!(removed, vec![("t-a".to_string(), "s-1".to_string()), ("t-b".to_string(), "s-3".to_string())]);
    let ops = remove_track_ops(plan, Vec::new());
    assert_eq!(ops.len(), 3);
    assert!(matches!(&ops[0], Op::SendRemove { track_id, slot, index: 0 } if track_id == "t-a" && slot.id == "s-1"));
    assert!(matches!(&ops[1], Op::SendRemove { track_id, slot, .. } if track_id == "t-b" && slot.id == "s-3"));
    assert!(matches!(&ops[2], Op::TrackRemove { track, index: 0, clips, .. } if track.id == "bus" && clips.is_empty()));
}

#[test]
fn removing_a_bus_re_routes_tracks_that_output_into_it() {
    let mut a = track("t-a");
    a.output = Some("bus".to_string());
    let mut b = track("t-b");
    b.output = Some("elsewhere".to_string());
    let tracks = vec![a, b, track("bus")];
    let plan = plan_remove_track(&tracks, &Vec::new(), &Vec::new(), &"bus".to_string()).ok().unwrap();
    assert_eq!(plan.output_resets, vec!["t-a".to_string()]);
    let ops = remove_track_ops(plan, Vec::new());
    assert!(matches!(&ops[0], Op::TrackSetOutput { track_id, output: None } if track_id == "t-a"), "reset before the row goes");
    assert!(matches!(&ops[1], Op::TrackRemove { .. }));
}

#[test]
fn remove_track_composes_plugin_remove_for_insert_instances() {
    let mut t = track("t-1");
    t.inserts = vec![
        InsertSlot { id: "slot-1".to_string(), instance_id: "fx-1".to_string(), bypassed: false },
        InsertSlot { id: "slot-2".to_string(), instance_id: "missing".to_string(), bypassed: false },
        InsertSlot { id: "slot-3".to_string(), instance_id: "fx-2".to_string(), bypassed: true },
    ];
    let tracks = vec![t, track("t-2")];
    let midi = vec![midi_clip("m-1", "t-1"), midi_clip("m-2", "t-2"), midi_clip("m-3", "t-1")];
    let instances = vec![instance("fx-2"), instance("fx-1")];
    let plan = plan_remove_track(&tracks, &midi, &instances, &"t-1".to_string()).ok().unwrap();
    assert_eq!(plan.midi_clip_ids, vec!["m-1".to_string(), "m-3".to_string()]);
    let rows: Vec<String> = plan.insert_rows.iter().map(|r| r.id.clone()).collect();
    assert_eq!(rows, vec!["fx-1".to_string(), "fx-2".to_string()], "slot order; an instance the document lacks is skipped");
    let captured = vec![
        CapturedInstance { state: Some(vec![1, 2, 3]), params: vec!["{\"id\":7}".to_string()] },
        CapturedInstance { state: None, params: Vec::new() },
    ];
    let ops = remove_track_ops(plan, captured);
    assert_eq!(ops.len(), 3);
    assert!(matches!(&ops[0], Op::TrackRemove { track, .. } if track.id == "t-1" && track.inserts.len() == 3));
    match &ops[1] {
        Op::PluginRemove { row, index, state, params } => {
            assert_eq!(row.id, "fx-1");
            assert_eq!(*index, 0);
            assert_eq!(state.as_deref(), Some(&[1u8, 2, 3][..]));
            assert_eq!(params.len(), 1);
        }
        other => panic!("expected a PluginRemove, got {other:?}"),
    }
    assert!(matches!(&ops[2], Op::PluginRemove { row, state: None, .. } if row.id == "fx-2"));
    match plan_remove_track(&tracks, &midi, &instances, &"gone".to_string()) {
        Err(PlanError::UnknownTrack(id)) => assert_eq!(id, "gone"),
        _ => panic!("an unknown track must be refused"),
    }
}

#[test]
fn remove_clip_rejects_unknown_clip_id() {
    let clips = vec![clip("a-1", "t-1"), clip("a-2", "t-1")];
    match remove_clip_op(&clips, &"nope".to_string()) {
        Err(PlanError::UnknownClip(id)) => assert_eq!(id, "nope"),
        _ => panic!("an unknown clip must be refused"),
    }
    match remove_clip_op(&clips, &"a-2".to_string()) {
        Ok(Op::ClipRemove { clip, index }) => {
            assert_eq!(clip.id, "a-2");
            assert_eq!(clip.source_path, "audio/a.wav", "the store's copy travels in the op");
            assert_eq!(index, 0);
        }
        _ => panic!("a known clip is removed"),
    }
}

#[test]
fn insert_removal_reports_each_missing_piece_in_order() {
    let mut t = track("t-1");
    t.inserts = vec![InsertSlot { id: "slot-1".to_string(), instance_id: "fx-1".to_string(), bypassed: false }];
    let mut u = track("t-2");
    u.inserts = vec![InsertSlot { id: "slot-9".to_string(), instance_id: "fx-9".to_string(), bypassed: false }];
    let tracks = vec![t, u];
    let instances = vec![instance("fx-1")];
    assert!(matches!(plan_insert_remove(&tracks, &instances, &"nope".to_string(), &"slot-1".to_string()),
        Err(PlanError::UnknownTrack(ref id)) if id == "nope"));
    assert!(matches!(plan_insert_remove(&tracks, &instances, &"t-1".to_string(), &"slot-2".to_string()),
        Err(PlanError::UnknownInsertSlot(ref id)) if id == "slot-2"));
    assert!(matches!(plan_insert_remove(&tracks, &instances, &"t-2".to_string(), &"slot-9".to_string()),
        Err(PlanError::UnknownPluginInstance(ref id)) if id == "fx-9"));
    let removal = plan_insert_remove(&tracks, &instances, &"t-1".to_string(), &"slot-1".to_string()).ok().unwrap();
    assert_eq!(removal.slot.id, "slot-1");
    assert_eq!(removal.row.id, "fx-1");
    let ops = insert_remove_ops(&"t-1".to_string(), removal, CapturedInstance { state: Some(vec![4]), params: Vec::new() });
    assert_eq!(ops.len(), 2);
    assert!(matches!(&ops[0], Op::InsertRemove { track_id, slot, index: 0 } if track_id == "t-1" && slot.id == "slot-1"));
    assert!(matches!(&ops[1], Op::PluginRemove { row, state: Some(s), .. } if row.id == "fx-1" && s == &vec![4u8]));
}

#[test]
fn send_removal_finds_the_send_on_its_track() {
    let mut t = track("t-1");
    t.sends = vec![send("s-1", "bus"), send("s-2", "bus")];
    let tracks = vec![t, track("bus")];
    assert!(matches!(plan_send_remove(&tracks, &"t-9".to_string(), &"s-1".to_string()),
        Err(PlanError::UnknownTrack(ref id)) if id == "t-9"));
    assert!(matches!(plan_send_remove(&tracks, &"bus".to_string(), &"s-1".to_string()),
        Err(PlanError::UnknownSend(ref id)) if id == "s-1"));
    match plan_send_remove(&tracks, &"t-1".to_string(), &"s-2".to_string()) {
        Ok(Op::SendRemove { track_id, slot, index }) => {
            assert_eq!(track_id, "t-1");
            assert_eq!(slot.id, "s-2");
            assert_eq!(slot.dest, "bus");
            assert_eq!(index, 0);
        }
        _ => panic!("a known send is removed"),
    }
}

#[test]
fn a_new_send_is_audible_and_post_fader() {
    let s = new_send(&"bus".to_string());
    assert_eq!(s.id.len(), 36);
    assert_eq!(s.dest, "bus");
    assert_eq!(f64::from_bits(s.amount_db_bits), 0.0, "unity");
    assert!(!s.pre_fader);
    assert_ne!(new_send(&"bus".to_string()).id, s.id);
}

#[test]
fn insert_add_is_one_transaction_plugin_plus_slot() {
    let slot = InsertSlot { id: "slot-1".to_string(), instance_id: "fx-1".to_string(), bypassed: false };
    let ops = insert_add_ops(&"t-1".to_string(), instance("fx-1"), slot, 2);
    assert_eq!(ops.len(), 2);
    assert!(matches!(&ops[0], Op::PluginAdd { row, index } if row.id == "fx-1" && *index == usize::MAX));
    assert!(matches!(&ops[1], Op::InsertAdd { track_id, slot, index: 2 } if track_id == "t-1" && slot.instance_id == "fx-1"));
}

#[test]
fn a_track_property_write_needs_the_track() {
    let tracks = vec![track("t-1")];
    match plan_set_track_prop(&tracks, &"t-1".to_string(), PropPath::Name, WireValue::Text("Bass".to_string())) {
        Ok(Op::SetProp { object: ObjectRef::Track(id), path: PropPath::Name, from: WireValue::Null, to: WireValue::Text(v) }) => {
            assert_eq!(id, "t-1");
            assert_eq!(v, "Bass");
        }
        _ => panic!("a known track takes the write"),
    }
    assert!(matches!(plan_set_track_prop(&tracks, &"nope".to_string(), PropPath::Group, WireValue::Null),
        Err(PlanError::UnknownTrack(ref id)) if id == "nope"));
}
