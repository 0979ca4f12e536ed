use aura_control::commit::{commit_follow_up, plan_persist, settle_dirty_states, settle_midi_dirty, PersistPlan, PersistSkip};
use aura_control::gesture::{Committed, PersistEffect};
use aura_control::op::{ObjectRef, Op, PropPath, TxMeta, WireValue};

fn committed(transient: bool, persist: PersistEffect) -> Committed {
    let meta = if transient { TxMeta::user("drag").transient() } else { TxMeta::user("edit") };
    let ops = vec![Op::SetProp {
        object: ObjectRef::Transport,
        path: PropPath::TransportState,
        from: WireValue::Null,
        to: WireValue::Text("playing".to_string()),
    }];
    Committed { rev: 3, epoch: 1, ops, inverses: Vec::new(), meta, persist }
}

#[test]
fn a_batch_that_folded_to_nothing_is_not_journaled() {
    let mut c = committed(false, PersistEffect::none());
    c.ops.clear();
    let f = commit_follow_up(&c, false, false, true, false);
    assert!(!f.journal, "an empty batch leaves no journal line and no undo step");
    assert!(f.emit_project_changed);
}

fn persist(midi: bool, project: bool, automation: bool, modulation: bool, plugins: bool) -> PersistEffect {
    PersistEffect { midi, project, automation, modulation, plugins }
}

#[test]
fn a_transient_commit_is_never_journaled() {
    let f = commit_follow_up(&committed(true, persist(false, true, false, false, false)), false, false, false, false);
    assert!(!f.journal);
    assert!(f.persist);
    let g = commit_follow_up(&committed(false, PersistEffect::none()), true, true, true, false);
    assert!(g.journal && g.forward_to_hosts && g.rebuild && g.emit_project_changed);
    assert!(!g.persist, "nothing to persist");
    let h = commit_follow_up(&committed(false, persist(true, false, false, false, false)), false, false, true, true);
    assert!(!h.persist, "a gesture defers its persist to the close");
}

#[test]
fn a_persist_is_skipped_when_the_document_was_replaced_or_never_saved() {
    let p = persist(true, true, false, false, false);
    assert_eq!(plan_persist(&p, 4, 5, true), Err(PersistSkip::EpochMoved { committed: 4, now: 5 }));
    assert_eq!(plan_persist(&p, 4, 4, false), Err(PersistSkip::Unsaved));
    assert_eq!(
        plan_persist(&p, 4, 4, true),
        Ok(PersistPlan { midi: true, project: true, modulation: false, automation: false, plugins: false })
    );
}

#[test]
fn a_modulation_write_supersedes_the_lane_write() {
    let both = persist(false, false, true, true, true);
    assert_eq!(
        plan_persist(&both, 1, 1, true),
        Ok(PersistPlan { midi: false, project: false, modulation: true, automation: false, plugins: true })
    );
    let lanes_only = persist(false, false, true, false, false);
    assert_eq!(plan_persist(&lanes_only, 1, 1, true).map(|p| p.automation), Ok(true));
}

#[test]
fn a_concurrent_set_state_between_snapshot_and_clear_stays_dirty() {
    let snapshot: Vec<u8> = vec![1, 2, 3];
    let live: Vec<u8> = vec![9, 9, 9];
    let mut dirty = vec!["inst-1".to_string()];
    let all = settle_dirty_states(&mut dirty, &vec!["inst-1".to_string()], &vec![live == snapshot]);
    assert!(!all);
    assert!(dirty.contains(&"inst-1".to_string()), "a concurrent SetState after the snapshot keeps the id dirty");
}

#[test]
fn matching_pending_bytes_clear_the_dirty_flag() {
    let snapshot: Vec<u8> = vec![1, 2, 3];
    let live = snapshot.clone();
    let mut dirty = vec!["inst-1".to_string(), "inst-2".to_string()];
    let all = settle_dirty_states(&mut dirty, &vec!["inst-1".to_string()], &vec![live == snapshot]);
    assert!(all);
    assert_eq!(dirty, vec!["inst-2".to_string()], "only the written id is cleared");
}

#[test]
fn clear_dirty_state_re_dirties_when_live_moved_and_flag_was_clear() {
    let mut dirty: Vec<String> = Vec::new();
    let all = settle_dirty_states(&mut dirty, &vec!["inst-1".to_string()], &vec![false]);
    assert!(!all, "live pending bytes moved on");
    assert_eq!(dirty, vec!["inst-1".to_string()], "stale plugin write must re-dirty the id");
}

#[test]
fn clear_midi_dirty_re_dirties_when_live_moved_and_flag_was_clear() {
    let mut dirty = false;
    assert!(!settle_midi_dirty(&mut dirty, false), "live bytes moved on");
    assert!(dirty, "stale write must re-dirty so the live document flushes again");
    assert!(settle_midi_dirty(&mut dirty, true));
    assert!(!dirty);
}
