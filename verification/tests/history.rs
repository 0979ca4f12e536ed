use aura_control::history::{
    history_overview, plan_undo_to, redo_meta, replay_epoch_check, undo_meta, version_detail, walk_step_epoch_ok, HistoryEntry, UndoPath, UndoStacks,
    UndoToError, UndoWalk, VersionItem, VersionStats, WalkStep,
};
use aura_control::op::Actor;
use aura_control::types::AutomationLane;

fn entry(rev: u64, label: &str) -> HistoryEntry {
    HistoryEntry {
        rev,
        epoch: 1,
        run: format!("run-{rev}"),
        label: label.to_string(),
        ops: Vec::new(),
        inverses: Vec::new(),
    }
}

fn revs(v: &[HistoryEntry]) -> Vec<u64> {
    v.iter().map(|e| e.rev).collect()
}

fn item(rev: u64) -> VersionItem {
    VersionItem { rev, materialized: rev % 2 == 0, charged_bytes: 10 * rev as usize, label: format!("v{rev}"), actor: "user".to_string() }
}

#[test]
fn undo_and_redo_metadata_keep_the_run_and_prefix_the_label() {
    let u = undo_meta(&"run-7".to_string(), &"set gain".to_string());
    assert_eq!(u.label, "undo: set gain");
    assert_eq!(u.run, "run-7");
    assert!(matches!(u.actor, Actor::User));
    assert!(!u.transient);
    let r = redo_meta(&"run-7".to_string(), &"set gain".to_string());
    assert_eq!(r.label, "redo: set gain");
    assert_eq!(r.run, "run-7");
}

#[test]
fn a_successful_undo_moves_the_entry_to_redo_and_redo_moves_it_back() {
    let mut s = UndoStacks::new();
    s.record(entry(1, "a"));
    s.record(entry(2, "b"));
    let e = s.take_undo().expect("two entries to undo");
    assert_eq!(e.rev, 2);
    s.settle_undo(e, true);
    assert_eq!(revs(&s.undo), vec![1]);
    assert_eq!(revs(&s.redo), vec![2]);
    let report = s.step_report(Some("b".to_string()));
    assert_eq!((report.undo_depth, report.redo_depth), (1, 1));
    let r = s.take_redo().unwrap();
    assert_eq!(r.rev, 2);
    s.settle_redo(r, true);
    assert_eq!(revs(&s.undo), vec![1, 2], "redo restores the stacks");
    assert!(s.redo.is_empty());
}

#[test]
fn a_failed_undo_puts_the_entry_back_untouched() {
    let mut s = UndoStacks::new();
    s.record(entry(1, "a"));
    let e = s.take_undo().unwrap();
    s.settle_undo(e, false);
    assert_eq!(revs(&s.undo), vec![1]);
    assert!(s.redo.is_empty());
    assert!(s.take_redo().is_none());
}

#[test]
fn a_new_edit_clears_the_redo_future() {
    let mut s = UndoStacks::new();
    s.record(entry(1, "a"));
    let e = s.take_undo().unwrap();
    s.settle_undo(e, true);
    assert_eq!(s.redo.len(), 1);
    s.record(entry(3, "c"));
    assert!(s.redo.is_empty());
    assert!(s.take_redo().is_none(), "a redo after a fresh edit finds nothing");
    let mut empty = UndoStacks::new();
    assert!(empty.take_undo().is_none());
}

#[test]
fn the_overview_marks_the_undo_ancestry() {
    let path = UndoPath { epoch: 3, revs: vec![2, 4] };
    let o = history_overview(
        VersionStats { retained_bytes: 100, materialized: 2, replay_only: 1 },
        vec![item(2), item(3), item(4)],
        2,
        1,
        &path,
    );
    assert_eq!(o.head_rev, Some(4));
    assert_eq!(o.epoch, 3);
    assert_eq!((o.undo_depth, o.redo_depth, o.retained_bytes), (2, 1, 100));
    let marks: Vec<(u64, bool)> = o.versions.iter().map(|v| (v.rev, v.on_undo_path)).collect();
    assert_eq!(marks, vec![(2, true), (3, false), (4, true)]);
    assert_eq!(o.versions[1].label, "v3");
    assert_eq!(UndoPath { epoch: 0, revs: vec![] }.head(), None);
}

#[test]
fn an_undo_to_walk_refuses_stale_reads_and_plans_the_revisions_above_the_target() {
    let path = UndoPath { epoch: 3, revs: vec![1, 2, 3, 4] };
    match plan_undo_to(&path, 2, 9, Some(4)) {
        Err(UndoToError::EpochMoved { expected, actual }) => assert_eq!((expected, actual), (9, 3)),
        _ => panic!("a replaced document must refuse"),
    }
    match plan_undo_to(&path, 2, 3, Some(5)) {
        Err(UndoToError::HeadMoved { expected, actual }) => assert_eq!((expected, actual), (Some(5), Some(4))),
        _ => panic!("a moved head must refuse"),
    }
    match plan_undo_to(&path, 7, 3, Some(4)) {
        Err(UndoToError::NotOnPath { target }) => assert_eq!(target, 7),
        _ => panic!("an unknown target must refuse"),
    }
    match plan_undo_to(&path, 2, 3, Some(4)) {
        Ok(route) => assert_eq!(route, vec![4, 3], "every revision above the target, highest first"),
        Err(_) => panic!("a valid walk plans"),
    }
    match plan_undo_to(&path, 4, 3, Some(4)) {
        Ok(route) => assert!(route.is_empty(), "targeting the head is a walk of zero steps"),
        Err(_) => panic!("a valid walk plans"),
    }
}

#[test]
fn an_undo_to_walk_reports_how_far_it_got() {
    let mut w = UndoWalk::start(2, vec![4, 3]);
    assert_eq!(w.next_want(), Some(4));
    assert!(w.record(WalkStep::Undone("d".to_string())).is_ok());
    assert_eq!(w.next_want(), Some(3));
    match w.record(WalkStep::NotOffered) {
        Err(UndoToError::HistoryMoved { target, done, steps, want }) => assert_eq!((target, done, steps, want), (2, 1, 2, 3)),
        _ => panic!("a missing entry stops the walk"),
    }
    match w.record(WalkStep::Failed("boom".to_string())) {
        Err(UndoToError::StepFailed { done, reason, .. }) => {
            assert_eq!(done, 1);
            assert_eq!(reason, "boom");
        }
        _ => panic!("a failed step stops the walk"),
    }
    assert!(w.record(WalkStep::Undone("c".to_string())).is_ok());
    assert_eq!(w.next_want(), None);
    let out = w.finish();
    assert_eq!(out.steps, 2);
    assert_eq!(out.label.as_deref(), Some("c"));
    assert!(walk_step_epoch_ok(3, 3));
    assert!(!walk_step_epoch_ok(4, 3));
}

#[test]
fn a_walk_step_takes_only_the_planned_revision() {
    let mut s = UndoStacks::new();
    s.record(entry(1, "a"));
    s.record(entry(2, "b"));
    assert!(s.take_undo_if(1).is_none(), "the top is 2, not 1");
    assert_eq!(revs(&s.undo), vec![1, 2]);
    let e = s.take_undo_if(2).expect("the top is the planned revision");
    assert_eq!(e.label, "b");
    assert_eq!(revs(&s.undo), vec![1]);
}

#[test]
fn a_materialized_version_is_summarized_by_its_counts() {
    let lane = |id: &str| AutomationLane { id: id.to_string(), target_node: "t-1".to_string(), param_id: 0, points: Vec::new() };
    let d = version_detail(9, Some("Song".to_string()), &vec![], &vec![], &vec![], &vec![lane("a"), lane("b")]);
    assert_eq!(d.rev, 9);
    assert_eq!(d.project_name.as_deref(), Some("Song"));
    assert_eq!((d.track_count, d.audio_clip_count, d.midi_clip_count, d.automation_lane_count), (0, 0, 0, 2));
}

#[test]
fn a_plain_undo_moves_the_entry_to_redo_and_reports_its_label() {
    let mut h = UndoStacks::new();
    h.record(entry(1, "add track"));
    h.record(entry(2, "set gain"));
    let (e, meta) = h.begin_undo().expect("two steps to undo");
    assert_eq!(e.rev, 2);
    assert_eq!(meta.label, "undo: set gain");
    assert_eq!(meta.run, "run-2");
    assert!(matches!(meta.actor, Actor::User) && !meta.transient);
    assert_eq!(h.finish_undo(e, Ok(())), Ok(Some("set gain".to_string())));
    assert_eq!(revs(&h.undo), vec![1]);
    assert_eq!(revs(&h.redo), vec![2]);
    let (e, meta) = h.begin_redo().expect("one step to redo");
    assert_eq!(meta.label, "redo: set gain");
    assert_eq!(h.finish_redo(e, Ok(())), Ok(Some("set gain".to_string())));
    assert_eq!(revs(&h.undo), vec![1, 2]);
    assert!(h.redo.is_empty());
}

#[test]
fn a_refused_replay_keeps_its_entry() {
    let mut h = UndoStacks::new();
    h.record(entry(1, "add track"));
    let (e, _) = h.begin_undo().unwrap();
    let refused = replay_epoch_check(1, 2).unwrap_err();
    assert_eq!(refused, "document changed under undo/redo (epoch 1 -> 2) \u{2014} nothing applied");
    assert_eq!(h.finish_undo(e, Err(refused.clone())), Err(refused));
    assert_eq!(revs(&h.undo), vec![1]);
    assert!(h.redo.is_empty());
    assert!(replay_epoch_check(4, 4).is_ok());
    let mut empty = UndoStacks::new();
    assert!(empty.begin_undo().is_none(), "an empty history is not an error");
    assert!(empty.begin_redo().is_none());
}

#[test]
fn an_undo_walk_reports_a_label_exactly_when_it_moved() {
    let zero = UndoWalk::start(5, Vec::new()).finish();
    assert_eq!((zero.steps, zero.label), (0, None));
    let mut w = UndoWalk::start(5, vec![7, 6]);
    assert!(w.record(WalkStep::Undone("seven".to_string())).is_ok());
    assert!(w.record(WalkStep::Undone("six".to_string())).is_ok());
    let o = w.finish();
    assert_eq!(o.steps, 2);
    assert_eq!(o.label.as_deref(), Some("six"));
}
