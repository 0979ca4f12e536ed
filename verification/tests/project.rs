use aura_control::demo::check_seed_empty;
use aura_control::history::{HistoryEntry, UndoStacks};
use aura_control::host::{host_forward_step, instantiate_writeback, HostAction, HostForward, HostFormat};
use aura_control::ops::Store;
use aura_control::plane::PlanError;
use aura_control::project::{adopt_loaded_project, LoadedProject, LoadedTransport};
use aura_control::transport::{Player, PlayerSource, TriggerMode};
use aura_control::types::{AutomationMode, Clip, MidiClip, MidiNote, PluginInstanceInfo, TrackState, TransportState};

fn transport() -> TransportState {
    TransportState {
        state: "playing".to_string(),
        position_samples: 5,
        sample_rate: 48_000,
        tempo_bpm_bits: 120.0f64.to_bits(),
        loop_enabled: false,
        loop_start_samples: 0,
        loop_end_samples: 0,
        song_end_samples: 99,
        stop_at_end: true,
        count_in_left_samples: 0,
    }
}

fn track(id: &str) -> TrackState {
    TrackState {
        id: id.to_string(),
        name: id.to_string(),
        kind: "audio".to_string(),
        gain_db_bits: 0,
        pan_bits: 0,
        muted: false,
        soloed: false,
        armed: false,
        color: "#7c9cff".to_string(),
        instrument_id: None,
        group: None,
        automation_mode: AutomationMode::Read,
        output: None,
        sends: Vec::new(),
        inserts: Vec::new(),
    }
}

fn clip(id: &str) -> Clip {
    Clip {
        id: id.to_string(),
        track_id: "t-1".to_string(),
        name: "clip".to_string(),
        source_path: "audio/a.wav".to_string(),
        source_id: "s".to_string(),
        source_channels: 2,
        source_sample_rate: 48_000,
        source_length_samples: 10,
        timeline_start_samples: 0,
        offset_samples: 0,
        length_samples: 10,
        gain_db_bits: 0,
        fade_in_samples: 0,
        fade_out_samples: 0,
        content_id: "c".to_string(),
        lane_id: "t-1".to_string(),
    }
}

fn midi_clip(notes: Vec<MidiNote>) -> MidiClip {
    MidiClip {
        id: "m-1".to_string(),
        track_id: "t-1".to_string(),
        name: "notes".to_string(),
        timeline_start_ticks: 0,
        length_ticks: 3_840,
        notes,
        next_note_id: 1,
        content_id: "c".to_string(),
        lane_id: "t-1".to_string(),
        content_length_ticks: None,
        transpose_semitones: 0,
        velocity_offset: 0,
    }
}

fn row(id: &str, format: &str) -> PluginInstanceInfo {
    PluginInstanceInfo {
        id: id.to_string(),
        uid: format!("uid-{id}"),
        name: id.to_string(),
        format: format.to_string(),
        status: "stub".to_string(),
        track_id: None,
    }
}

fn entry(rev: u64) -> HistoryEntry {
    HistoryEntry { rev, epoch: 1, run: "r".to_string(), label: format!("e{rev}"), ops: Vec::new(), inverses: Vec::new() }
}

#[test]
fn opening_a_project_replaces_the_document_and_starts_history_over() {
    let mut store = Store {
        tracks: vec![track("old")],
        clips: vec![clip("old-clip")],
        transport: transport(),
        project_name: Some("Old".to_string()),
        project_dir: None,
        created_at: None,
        players: vec![Player {
            id: "old-pad".to_string(),
            name: "OLD".to_string(),
            source: PlayerSource::Empty,
            raw: false,
            trigger: TriggerMode::Gate,
        }],
    };
    let mut history = UndoStacks::new();
    history.record(entry(1));
    history.record(entry(2));
    let e = history.take_undo().unwrap();
    history.settle_undo(e, true);
    let mut epoch = 3u64;
    let t = LoadedTransport {
        tempo_bpm_bits: 90.0f64.to_bits(),
        loop_enabled: true,
        loop_start_samples: 100,
        loop_end_samples: 200,
        position_samples: 4_800,
    };
    let project = LoadedProject {
        name: "Song".to_string(),
        created_at: Some("2024-01-01".to_string()),
        tracks: vec![track("a"), track("b")],
        clips: vec![clip("c-1")],
        players: vec![Player {
            id: "pad-1".to_string(),
            name: "KICK".to_string(),
            source: PlayerSource::AudioClip { clip_id: "c-1".to_string() },
            raw: true,
            trigger: TriggerMode::OneShot,
        }],
        transport: Some(t),
    };
    let rt = adopt_loaded_project(&mut store, &mut history, project, &"/p/Song.aura".to_string(), &mut epoch);
    assert_eq!(rt, Some(t));
    assert_eq!(epoch, 4);
    assert!(history.undo.is_empty() && history.redo.is_empty());
    let ids: Vec<&str> = store.tracks.iter().map(|t| t.id.as_str()).collect();
    assert_eq!(ids, vec!["a", "b"]);
    assert_eq!(store.clips[0].id, "c-1");
    let pads: Vec<&str> = store.players.iter().map(|p| p.id.as_str()).collect();
    assert_eq!(pads, vec!["pad-1"], "the pads are swapped with the document");
    assert_eq!(store.project_name.as_deref(), Some("Song"));
    assert_eq!(store.project_dir.as_deref(), Some("/p/Song.aura"));
    assert_eq!(store.created_at.as_deref(), Some("2024-01-01"));
    assert_eq!(store.transport.state, "stopped");
    assert_eq!(f64::from_bits(store.transport.tempo_bpm_bits), 90.0);
    assert!(store.transport.loop_enabled);
    assert_eq!((store.transport.loop_start_samples, store.transport.loop_end_samples), (100, 200));
    assert_eq!(store.transport.song_end_samples, 99, "fields the file does not carry stay as they were");
}

#[test]
fn a_project_without_a_transport_block_keeps_the_transport() {
    let mut store = Store { tracks: vec![], clips: vec![], transport: transport(), project_name: None, project_dir: None, created_at: None, players: Vec::new() };
    let mut history = UndoStacks::new();
    let mut epoch = 0u64;
    let project = LoadedProject { name: "N".to_string(), created_at: None, tracks: vec![], clips: vec![], players: vec![], transport: None };
    assert!(adopt_loaded_project(&mut store, &mut history, project, &"/d".to_string(), &mut epoch).is_none());
    assert_eq!(store.transport.state, "playing");
    assert_eq!(epoch, 1);
}

#[test]
fn host_forwards_dispatch_by_format_and_state() {
    let clap = Some(row("p-1", "clap"));
    let lv2 = Some(row("p-2", "lv2"));
    let vst = Some(row("p-3", "vst3"));
    let inst = |id: &str| HostForward::Instantiate { instance: id.to_string() };
    assert!(matches!(host_forward_step(&inst("p-1"), &clap, false, true, false),
        HostAction::ReadParams { format: HostFormat::Clap, ref instance } if instance == "p-1"));
    assert!(matches!(host_forward_step(&inst("p-1"), &clap, true, false, false),
        HostAction::Instantiate { format: HostFormat::Clap, ref uid, as_effect: true, .. } if uid == "uid-p-1"));
    assert!(matches!(host_forward_step(&inst("p-2"), &lv2, false, false, false),
        HostAction::Instantiate { format: HostFormat::Lv2, as_effect: false, .. }));
    assert!(matches!(host_forward_step(&inst("p-3"), &vst, false, false, false), HostAction::Skip), "not hosted: stays a stub");
    assert!(matches!(host_forward_step(&inst("gone"), &None, false, false, false), HostAction::Skip), "the row vanished");
    let pw = HostForward::ParamWrite { instance: "p-2".to_string(), index: 4, value_bits: 0.5f32.to_bits() };
    assert!(matches!(host_forward_step(&pw, &lv2, false, false, false),
        HostAction::PostParam { format: HostFormat::Lv2, index: 4, value_bits, .. } if f32::from_bits(value_bits) == 0.5));
    assert!(matches!(host_forward_step(&pw, &None, false, false, false), HostAction::Skip));
    let d = HostForward::Destroy { instance: "p-1".to_string() };
    assert!(matches!(host_forward_step(&d, &clap, false, false, false), HostAction::Destroy { format: HostFormat::Clap, .. }));
    assert!(matches!(host_forward_step(&d, &vst, false, false, false), HostAction::Skip));
    let l = HostForward::LoadState { instance: "p-1".to_string() };
    assert!(matches!(host_forward_step(&l, &clap, false, false, true), HostAction::LoadState { ref instance } if instance == "p-1"));
    assert!(matches!(host_forward_step(&l, &clap, false, false, false), HostAction::Skip), "no pending state, nothing to load");
}

#[test]
fn instantiate_writeback_lands_when_the_epoch_is_unchanged() {
    let mut instances = vec![row("a", "clap"), row("b", "lv2")];
    let mut params = vec![("b".to_string(), Vec::new())];
    assert!(instantiate_writeback(&mut instances, &mut params, &"b".to_string(), vec!["{\"id\":1}".to_string()], 7, 7));
    assert_eq!(instances[1].status, "active");
    assert_eq!(instances[0].status, "stub");
    assert_eq!(params, vec![("b".to_string(), vec!["{\"id\":1}".to_string()])], "an empty mirror is filled");
    assert!(instantiate_writeback(&mut instances, &mut params, &"a".to_string(), vec!["{\"id\":2}".to_string()], 7, 7));
    assert_eq!(params.len(), 2, "an absent mirror is created");
    assert!(instantiate_writeback(&mut instances, &mut params, &"b".to_string(), vec!["defaults".to_string()], 7, 7));
    assert_eq!(params[0].1, vec!["{\"id\":1}".to_string()], "a restored mirror is not clobbered with defaults");
}

#[test]
fn instantiate_writeback_is_skipped_when_the_epoch_moved_under_it() {
    let mut instances = vec![row("a", "clap")];
    let mut params: Vec<(String, Vec<String>)> = Vec::new();
    assert!(!instantiate_writeback(&mut instances, &mut params, &"a".to_string(), vec!["x".to_string()], 7, 8));
    assert_eq!(instances[0].status, "stub");
    assert!(params.is_empty(), "no row is created for an instance the new document never had");
}

#[test]
fn the_demo_only_seeds_an_empty_session() {
    assert!(check_seed_empty(&vec![], &vec![midi_clip(Vec::new())]).is_ok(), "an empty MIDI clip is not content");
    assert!(matches!(check_seed_empty(&vec![clip("c")], &vec![]), Err(PlanError::AlreadyHasContent)));
    let note = MidiNote { tick: 0, length_ticks: 10, key: 60, velocity: 100, channel: 0, note_id: 1 };
    assert!(matches!(check_seed_empty(&vec![], &vec![midi_clip(vec![note])]), Err(PlanError::AlreadyHasContent)));
}

#[test]
fn an_undo_to_walk_leaves_the_target_on_top_and_moves_the_rest_to_redo() {
    let mut s = UndoStacks::new();
    for r in 1..=4 {
        s.record(entry(r));
    }
    for want in [4u64, 3] {
        let e = s.take_undo_if(want).expect("the planned revision is on top");
        s.settle_undo(e, true);
    }
    let undo: Vec<u64> = s.undo.iter().map(|e| e.rev).collect();
    let redo: Vec<u64> = s.redo.iter().map(|e| e.rev).collect();
    assert_eq!(undo, vec![1, 2], "the target (2) stays applied and is the head");
    assert_eq!(redo, vec![4, 3], "redo grows by one per step");
}
