use aura_control::op::{Actor, ObjectRef, Op, PropPath, TxMeta, WireValue};
use aura_control::ops::{add_track, add_track_tx, new_track_row, transport_snapshot, RtReading, Store, TrackError, TrackMixChange};
use aura_control::plane::{
    plan_mix_commit, plan_mix_live, check_mix_targets, contains_text, has_document_changes, mix_change_ops, records_automation, recording_gain_tracks,
    strip_live_gains, PlanError,
};
use aura_control::text::{numbered, str_is};
use aura_control::types::{AutomationMode, TrackState, TransportState};

fn transport() -> TransportState {
    TransportState {
        state: "stopped".to_string(),
        position_samples: 0,
        sample_rate: 48_000,
        tempo_bpm_bits: 120.0f64.to_bits(),
        loop_enabled: false,
        loop_start_samples: 0,
        loop_end_samples: 0,
        song_end_samples: 0,
        stop_at_end: false,
        count_in_left_samples: 0,
    }
}

fn empty_store() -> Store {
    Store { tracks: Vec::new(), clips: Vec::new(), transport: transport(), project_name: None, project_dir: None, created_at: None, players: Vec::new() }
}

fn store_with_tracks(n: usize) -> Store {
    let mut store = empty_store();
    for i in 0..n {
        assert!(add_track(&mut store, Some(format!("T{i}")), None).is_ok());
    }
    store
}

fn track(id: &str) -> TrackState {
    TrackState {
        id: id.to_string(),
        name: id.to_string(),
        kind: "audio".to_string(),
        gain_db_bits: 0,
        pan_bits: 0,
        muted: false,
        soloed: false,
        armed: false,
        color: "#7c9cff".to_string(),
        instrument_id: None,
        group: None,
        automation_mode: AutomationMode::Read,
        output: None,
        sends: Vec::new(),
        inserts: Vec::new(),
    }
}

fn reading() -> RtReading {
    RtReading {
        count_in_left: 0,
        recording: false,
        playing: false,
        position: 96_000,
        sample_rate: 48_000,
        loop_enabled: true,
        loop_start: 10,
        loop_end: 20,
        song_end: 480_000,
        stop_at_end: true,
    }
}

#[test]
fn add_track_rejects_unknown_kind_and_accepts_midi() {
    let mut store = store_with_tracks(0);
    assert!(add_track(&mut store, None, Some("bus".into())).is_err());
    let t = add_track(&mut store, None, Some("midi".into())).ok().unwrap();
    assert_eq!(t.kind, "midi");
}

#[test]
fn add_track_accepts_automation_kind() {
    let mut store = store_with_tracks(0);
    let t = add_track(&mut store, Some("Auto".into()), Some("automation".into())).ok().unwrap();
    assert_eq!(t.kind, "automation");
    assert_eq!(store.tracks[0].kind, "automation");
}

#[test]
fn an_unsupported_kind_is_named_in_the_error_and_leaves_the_store_alone() {
    let mut store = store_with_tracks(2);
    match add_track(&mut store, None, Some("bus".into())) {
        Err(TrackError::UnsupportedKind(k)) => assert_eq!(k, "bus"),
        Ok(_) => panic!("a bus kind must be refused"),
    }
    assert_eq!(store.tracks.len(), 2);
}

#[test]
fn fresh_rows_are_numbered_colored_and_appended() {
    let mut store = store_with_tracks(0);
    let first = add_track(&mut store, None, None).ok().unwrap();
    assert_eq!(first.name, "Track 1");
    assert_eq!(first.kind, "audio");
    assert_eq!(first.color, "#7c9cff");
    assert_eq!(first.id.len(), 36);
    assert_eq!(first.automation_mode, AutomationMode::Off);
    assert!(first.sends.is_empty() && first.inserts.is_empty());
    for _ in 0..5 {
        assert!(add_track(&mut store, None, None).is_ok());
    }
    let seventh = add_track(&mut store, None, None).ok().unwrap();
    assert_eq!(seventh.name, "Track 7");
    assert_eq!(seventh.color, "#7c9cff", "the palette cycles every six tracks");
    assert_eq!(store.tracks[1].color, "#ff9c7c");
    assert_eq!(store.tracks[5].color, "#7cd8ff");
    assert_eq!(store.tracks.last().unwrap().id, seventh.id);
    assert_ne!(store.tracks[0].id, store.tracks[1].id, "every row gets its own id");
}

#[test]
fn new_track_row_does_not_insert_and_targets_the_end() {
    let store = store_with_tracks(3);
    let (t, index) = new_track_row(&store, None, Some("midi".into())).ok().unwrap();
    assert_eq!(index, 3);
    assert_eq!(t.name, "Track 4");
    assert_eq!(t.color, "#e07cff");
    assert_eq!(store.tracks.len(), 3);
}

#[test]
fn add_track_tx_returns_the_row_and_its_track_add() {
    let store = store_with_tracks(1);
    let (t, op) = add_track_tx(&store, Some("Pad".into()), Some("midi".into())).ok().unwrap();
    match op {
        Op::TrackAdd { track, index, clips, clip_indices } => {
            assert_eq!(track.id, t.id);
            assert_eq!(track.name, "Pad");
            assert_eq!(index, 1);
            assert!(clips.is_empty() && clip_indices.is_empty());
        }
        other => panic!("expected a TrackAdd, got {other:?}"),
    }
    match add_track_tx(&store, None, Some("bus".into())) {
        Err(TrackError::UnsupportedKind(k)) => assert_eq!(k, "bus", "the error names the refused kind"),
        Ok(_) => panic!("a bus kind must be refused"),
    }
}

#[test]
fn engine_meta_constructor_stamps_actor_engine() {
    let m = TxMeta::engine("auto-stop");
    assert!(matches!(m.actor, Actor::Engine));
    assert!(!m.transient);
    assert!(m.transient().transient);
}

#[test]
fn meta_constructors_attribute_and_mint_fresh_runs() {
    let a = TxMeta::user("set gain");
    let b = TxMeta::user("set gain");
    assert!(matches!(a.actor, Actor::User));
    assert_eq!(a.label, "set gain");
    assert_eq!(a.run.len(), 36);
    assert_ne!(a.run, b.run, "each meta gets its own correlation id");
    let ag = TxMeta::agent("mixer.set", "agent gain");
    match &ag.actor {
        Actor::Agent { tool } => assert_eq!(tool, "mixer.set"),
        other => panic!("expected an agent actor, got {other:?}"),
    }
    assert!(matches!(TxMeta::system("seed").actor, Actor::System));
    let t = a.transient();
    assert!(t.transient);
    assert_eq!(t.label, "set gain");
}

#[test]
fn transport_snapshot_reports_recording_over_playing_over_the_document() {
    let store = empty_store();
    let mut rt = reading();
    let idle = transport_snapshot(&store, &rt);
    assert_eq!(idle.state, "stopped");
    assert_eq!(idle.position_samples, 96_000);
    assert_eq!(idle.song_end_samples, 480_000);
    assert!(idle.loop_enabled && idle.stop_at_end);
    assert_eq!(idle.tempo_bpm_bits, 120.0f64.to_bits());
    rt.count_in_left = 5;
    assert_eq!(transport_snapshot(&store, &rt).state, "playing", "a count-in reads as playing");
    rt.playing = true;
    rt.count_in_left = 0;
    assert_eq!(transport_snapshot(&store, &rt).state, "playing");
    rt.recording = true;
    assert_eq!(transport_snapshot(&store, &rt).state, "recording");
}

#[test]
fn a_mix_batch_applies_one_set_per_present_field_in_order() {
    let mut c = TrackMixChange::new("t-1");
    c.gain_db_bits = Some((-3.0f64).to_bits());
    c.muted = Some(true);
    c.automation_mode = Some(AutomationMode::Touch);
    let mut d = TrackMixChange::new("t-2");
    d.pan_bits = Some(0.5f64.to_bits());
    let ops = mix_change_ops(&vec![c, d]);
    assert_eq!(ops.len(), 4);
    let expect = [
        ("t-1", PropPath::Gain),
        ("t-1", PropPath::Muted),
        ("t-1", PropPath::AutomationMode),
        ("t-2", PropPath::Pan),
    ];
    for (op, (id, path)) in ops.iter().zip(expect.iter()) {
        match op {
            Op::SetProp { object: ObjectRef::Track(t), path: p, from: WireValue::Null, .. } => {
                assert_eq!(t, id);
                assert_eq!(p, path);
            }
            other => panic!("expected a track Set, got {other:?}"),
        }
    }
    assert!(matches!(&ops[0], Op::SetProp { to: WireValue::Float(b), .. } if f64::from_bits(*b) == -3.0));
    assert!(matches!(&ops[1], Op::SetProp { to: WireValue::Bool(true), .. }));
    assert!(matches!(&ops[2], Op::SetProp { to: WireValue::Mode(AutomationMode::Touch), .. }));
    assert!(mix_change_ops(&vec![TrackMixChange::new("t-1")]).is_empty());
}

#[test]
fn a_mix_batch_names_its_first_unknown_track() {
    let tracks = vec![track("t-1"), track("t-2")];
    let ok = vec![TrackMixChange::new("t-2"), TrackMixChange::new("t-1")];
    assert!(check_mix_targets(&tracks, &ok).is_ok());
    let bad = vec![TrackMixChange::new("t-1"), TrackMixChange::new("gone"), TrackMixChange::new("also-gone")];
    match check_mix_targets(&tracks, &bad) {
        Err(PlanError::UnknownTrack(id)) => assert_eq!(id, "gone"),
        _ => panic!("the first unknown track must be reported"),
    }
}

#[test]
fn live_automation_faders_lose_only_their_gain() {
    let mut a = TrackMixChange::new("t-1");
    a.gain_db_bits = Some(1);
    a.pan_bits = Some(2);
    let mut b = TrackMixChange::new("t-2");
    b.gain_db_bits = Some(3);
    let mut changes = vec![a, b];
    strip_live_gains(&mut changes, &vec!["t-1".to_string()]);
    assert_eq!(changes[0].gain_db_bits, None);
    assert_eq!(changes[0].pan_bits, Some(2));
    assert_eq!(changes[1].gain_db_bits, Some(3));
    assert!(has_document_changes(&changes));
    let mut only_gain = TrackMixChange::new("t-1");
    only_gain.gain_db_bits = Some(9);
    let mut v = vec![only_gain];
    strip_live_gains(&mut v, &vec!["t-1".to_string()]);
    assert!(!has_document_changes(&v), "a batch reduced to nothing writes nothing");
}

#[test]
fn text_helpers_render_and_compare() {
    assert_eq!(numbered("Track ", 0), "Track 0");
    assert_eq!(numbered("PAD ", 12), "PAD 12");
    assert_eq!(numbered("", 1_234_567_890), "1234567890");
    assert!(str_is(&"midi".to_string(), "midi"));
    assert!(!str_is(&"midi ".to_string(), "midi"));
    assert!(contains_text(&vec!["a".to_string(), "b".to_string()], &"b".to_string()));
    assert!(!contains_text(&vec![], &"b".to_string()));
}

#[test]
fn only_recording_tracks_gains_drive_the_recorder_while_playing() {
    let mut w = track("t-write");
    w.automation_mode = AutomationMode::Write;
    let mut r = track("t-read");
    r.automation_mode = AutomationMode::Read;
    let mut l = track("t-latch");
    l.automation_mode = AutomationMode::Latch;
    let tracks = vec![w, r, l];
    let mut a = TrackMixChange::new("t-write");
    a.gain_db_bits = Some(1);
    let mut b = TrackMixChange::new("t-read");
    b.gain_db_bits = Some(1);
    let mut c = TrackMixChange::new("t-latch");
    c.pan_bits = Some(1);
    let mut d = TrackMixChange::new("t-latch");
    d.gain_db_bits = Some(2);
    let mut e = TrackMixChange::new("gone");
    e.gain_db_bits = Some(2);
    let changes = vec![a, b, c, d, e];
    assert_eq!(recording_gain_tracks(&tracks, &changes, true), vec!["t-write".to_string(), "t-latch".to_string()]);
    assert!(recording_gain_tracks(&tracks, &changes, false).is_empty(), "a stopped transport records nothing");
    assert!(records_automation(AutomationMode::Touch));
    assert!(!records_automation(AutomationMode::Off));
}

#[test]
fn adding_a_track_leaves_the_project_metadata_alone() {
    let mut store = empty_store();
    store.created_at = Some("2024-05-01T10:00:00Z".to_string());
    store.project_name = Some("Song".to_string());
    assert!(add_track(&mut store, None, Some("midi".to_string())).is_ok());
    assert!(add_track(&mut store, None, Some("video".to_string())).is_err());
    assert_eq!(store.created_at.as_deref(), Some("2024-05-01T10:00:00Z"));
    assert_eq!(store.project_name.as_deref(), Some("Song"));
    assert_eq!(store.tracks.len(), 1);
}

#[test]
fn recording_mode_gain_gesture_controls_live_gain_without_moving_the_base_fader() {
    let mut t = track("t-1");
    t.automation_mode = AutomationMode::Touch;
    let tracks = vec![t];
    let mut gain = TrackMixChange::new("t-1");
    gain.gain_db_bits = Some((-6.0f64).to_bits());
    let mut changes = vec![gain];
    let live = plan_mix_live(&tracks, &changes, true).ok().expect("t-1 exists");
    assert_eq!(live, vec!["t-1".to_string()]);
    assert!(plan_mix_commit(&mut changes, &live, true).is_none(), "the live gain commits nothing");
    assert_eq!(changes[0].gain_db_bits, None);
}

#[test]
fn a_mix_batch_outside_a_gesture_commits_its_sets() {
    let tracks = vec![track("t-1")];
    let mut c = TrackMixChange::new("t-1");
    c.gain_db_bits = Some((-6.0f64).to_bits());
    c.muted = Some(true);
    let mut changes = vec![c];
    let live = plan_mix_live(&tracks, &changes, false).ok().expect("t-1 exists");
    assert!(live.is_empty(), "a stopped transport records nothing live");
    let ops = plan_mix_commit(&mut changes, &live, false).expect("two fields change");
    assert_eq!(ops.len(), 2);
    let mut unknown = vec![TrackMixChange::new("gone")];
    assert!(matches!(plan_mix_live(&tracks, &unknown, true), Err(PlanError::UnknownTrack(ref id)) if id == "gone"));
    assert!(plan_mix_commit(&mut unknown, &Vec::new(), false).is_none(), "an all-None change writes nothing");
}

#[test]
fn refusals_read_as_the_commands_report_them() {
    assert_eq!(PlanError::UnknownTrack("t-9".to_string()).message(), "unknown track: t-9");
    assert_eq!(
        PlanError::EmptyLoopRegion { start: 200, end: 100 }.message(),
        "loop region is empty (start 200 >= end 100)"
    );
    assert_eq!(PlanError::UnknownPlayer("p-1".to_string()).message(), "unknown player: p-1");
    assert_eq!(PlanError::PlayerHasNoClock("p-1".to_string()).message(), "player has no clock yet: p-1");
    assert_eq!(PlanError::AlreadyHasContent.message(), "project already has content");
    assert_eq!(
        PlanError::InstanceIsInsert("i-1".to_string()).message(),
        "plugin instance i-1 is already an insert; cannot bind as instrument"
    );
    assert_eq!(PlanError::EffectAsInstrument("Reverb".to_string()).message(), "Reverb is an effect; cannot bind as instrument");
    assert_eq!(PlanError::TempoMapRejected("bpm must be positive".to_string()).message(), "bpm must be positive");
    assert_eq!(
        PlanError::NotMidiTrack { track_id: "t-1".to_string(), kind: "audio".to_string() }.message(),
        "track t-1 is kind \"audio\" (a midi route needs a midi track)"
    );
}
