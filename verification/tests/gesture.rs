use aura_control::gesture::{check_transient_invariant, CoalesceKey, CoalesceKind, CoalesceTarget, Committed, GestureState, PersistEffect};
use aura_control::op::{Actor, ObjectRef, Op, PropPath, TxMeta, WireValue};
use aura_control::ops::TrackMixChange;
use aura_control::plane::mix_change_ops;

fn gain(id: &str, db: f64) -> Op {
    Op::SetProp {
        object: ObjectRef::Track(id.to_string()),
        path: PropPath::Gain,
        from: WireValue::Null,
        to: WireValue::Float(db.to_bits()),
    }
}

fn pan(id: &str, v: f64) -> Op {
    Op::SetProp {
        object: ObjectRef::Track(id.to_string()),
        path: PropPath::Pan,
        from: WireValue::Null,
        to: WireValue::Float(v.to_bits()),
    }
}

/// What the session hands back for a transient mix commit: the forward
/// ops and, per op, the inverse restoring `before_db`.
fn committed(ops: Vec<Op>, inverses: Vec<Op>, epoch: u64) -> Committed {
    Committed {
        rev: 1,
        epoch,
        ops,
        inverses,
        meta: TxMeta::user("set gain").transient(),
        persist: PersistEffect { midi: false, project: true, automation: false, modulation: false, plugins: false },
    }
}

fn mix_gain(id: &str, db: f64) -> Vec<Op> {
    let mut c = TrackMixChange::new(id);
    c.gain_db_bits = Some(db.to_bits());
    mix_change_ops(&vec![c])
}

fn float_of(op: &Op) -> f64 {
    match op {
        Op::SetProp { to: WireValue::Float(b), .. } => f64::from_bits(*b),
        other => panic!("expected a float Set, got {other:?}"),
    }
}

fn track_of(op: &Op) -> String {
    match op {
        Op::SetProp { object: ObjectRef::Track(id), .. } => id.clone(),
        other => panic!("expected a track Set, got {other:?}"),
    }
}

#[test]
fn gesture_folds_one_set_per_track_path_key_across_two_tracks() {
    let mut g = GestureState::new();
    let _ = g.begin("gain drag".to_string(), Actor::User, 0);
    assert!(g.fold_in(&Actor::User, committed(mix_gain("t-1", -3.0), vec![gain("t-1", 0.0)], 1)));
    assert!(g.fold_in(&Actor::User, committed(mix_gain("t-2", -4.0), vec![gain("t-2", 0.0)], 1)));
    assert!(g.fold_in(&Actor::User, committed(mix_gain("t-1", -6.0), vec![gain("t-1", -3.0)], 1)));
    let closed = GestureState::close(g.end(None).expect("the gesture was open"));
    let batch = closed.batch.expect("gesture_end must produce a batch");
    assert_eq!(batch.ops.len(), 2, "one folded Set per (track, path) key, not one per call");
    let mut finals: Vec<(String, f64)> = batch.ops.iter().map(|op| (track_of(op), float_of(op))).collect();
    finals.sort_by(|a, b| a.0.cmp(&b.0));
    assert_eq!(finals, vec![("t-1".to_string(), -6.0), ("t-2".to_string(), -4.0)]);
}

#[test]
fn a_closed_gesture_undoes_to_the_first_baseline_per_key_in_reverse() {
    let mut g = GestureState::new();
    let _ = g.begin("gain drag".to_string(), Actor::User, 7);
    assert!(g.fold_in(&Actor::User, committed(vec![gain("t-1", -3.0)], vec![gain("t-1", 0.0)], 4)));
    assert!(g.fold_in(&Actor::User, committed(vec![pan("t-1", 0.5)], vec![pan("t-1", 0.0)], 4)));
    assert!(g.fold_in(&Actor::User, committed(vec![gain("t-1", -9.0)], vec![gain("t-1", -3.0)], 5)));
    let open = g.end(None).unwrap();
    let run = open.run.clone();
    let closed = GestureState::close(open);
    assert_eq!(closed.epoch, 5, "the last folded commit's epoch");
    assert_eq!(closed.automation_pass, 7);
    assert!(closed.persist.project, "the folded commits' persist is deferred to the close");
    let batch = closed.batch.unwrap();
    assert_eq!(batch.ops.len(), 2);
    assert_eq!(float_of(&batch.ops[0]), -9.0, "last forward value per key, first-seen key order");
    assert_eq!(float_of(&batch.ops[1]), 0.5);
    assert_eq!(batch.inverses.len(), 2);
    assert!(matches!(&batch.inverses[0], Op::SetProp { path: PropPath::Pan, .. }), "inverses run last key first");
    assert_eq!(float_of(&batch.inverses[1]), 0.0, "the FIRST baseline of the gain key");
    assert_eq!(batch.meta.label, "gain drag");
    assert_eq!(batch.meta.run, run);
    assert!(!batch.meta.transient, "the synthesized batch is a history step");
}

#[test]
fn is_track_gain_touched_reflects_the_open_gesture() {
    let mut g = GestureState::new();
    assert!(!g.is_track_gain_touched("t-1"), "no gesture open");
    let _ = g.begin("gain drag".to_string(), Actor::User, 0);
    assert!(!g.is_track_gain_touched("t-1"), "a gesture that has folded nothing yet touches no track");
    assert!(g.fold_in(&Actor::User, committed(mix_gain("t-1", -3.0), vec![gain("t-1", 0.0)], 1)));
    assert!(g.is_track_gain_touched("t-1"));
    assert!(!g.is_track_gain_touched("t-2"), "a different track must not read as touched");
    assert!(g.fold_in(&Actor::User, committed(vec![pan("t-2", 0.5)], vec![pan("t-2", 0.0)], 1)));
    assert!(!g.is_track_gain_touched("t-2"), "a pan drag is not a gain drag");
    let _ = g.end(None);
    assert!(!g.is_track_gain_touched("t-1"), "the gesture is closed — nothing is touched any more");
}

#[test]
fn gesture_begin_while_open_auto_closes_the_stale_gesture_first() {
    let mut g = GestureState::new();
    let (first_run, none) = g.begin("gain drag".to_string(), Actor::User, 0);
    assert!(none.is_none());
    assert!(g.fold_in(&Actor::User, committed(mix_gain("t-1", -3.0), vec![gain("t-1", 0.0)], 1)));
    let (second_run, stale) = g.begin("pan drag".to_string(), Actor::User, 0);
    let first = GestureState::close(stale.expect("a second begin hands back the stale gesture")).batch.unwrap();
    assert_eq!(first.meta.label, "gain drag");
    assert_eq!(first.meta.run, first_run);
    assert!(g.fold_in(&Actor::User, committed(vec![pan("t-1", 0.5)], vec![pan("t-1", 0.0)], 1)));
    let second = GestureState::close(g.end(None).unwrap()).batch.unwrap();
    assert_eq!(second.meta.label, "pan drag");
    assert_eq!(second.meta.run, second_run);
    assert_ne!(first.meta.run, second.meta.run, "two independent batches, two independent run ids");
}

#[test]
fn gesture_end_with_nothing_folded_produces_no_batch_and_no_emit() {
    let mut g = GestureState::new();
    let _ = g.begin("gain drag".to_string(), Actor::User, 0);
    let closed = GestureState::close(g.end(None).unwrap());
    assert!(closed.batch.is_none());
    assert!(!closed.persist.project && !closed.persist.midi);
}

#[test]
fn gesture_end_without_a_matching_begin_is_a_safe_no_op() {
    let mut g = GestureState::new();
    assert!(g.end(None).is_none());
    assert!(g.end(Some("whatever")).is_none());
    assert!(g.open.is_none());
}

#[test]
fn gesture_end_with_a_stale_id_does_not_close_the_open_gesture() {
    let mut g = GestureState::new();
    let (first, _) = g.begin("plugin param drag".to_string(), Actor::User, 0);
    assert!(g.fold_in(&Actor::User, committed(mix_gain("t-1", -3.0), vec![gain("t-1", 0.0)], 1)));
    let (second, stale) = g.begin("gain drag".to_string(), Actor::User, 0);
    let closed = GestureState::close(stale.unwrap()).batch.expect("auto-close commits the stale gesture");
    assert_eq!(closed.meta.label, "plugin param drag");
    assert_ne!(first, second, "each begin mints its own id");
    assert!(g.fold_in(&Actor::User, committed(mix_gain("t-1", -6.0), vec![gain("t-1", -3.0)], 1)));
    assert!(g.end(Some(first.as_str())).is_none(), "a stale gesture_end must not close the live one");
    let batch = GestureState::close(g.end(Some(second.as_str())).expect("matching end closes the open gesture"))
        .batch
        .unwrap();
    assert_eq!(batch.meta.label, "gain drag");
}

#[test]
fn commits_by_another_actor_do_not_fold() {
    let mut g = GestureState::new();
    let _ = g.begin("gain drag".to_string(), Actor::User, 0);
    assert!(!g.accepts(&Actor::Engine));
    assert!(!g.fold_in(&Actor::Engine, committed(mix_gain("t-1", -3.0), vec![gain("t-1", 0.0)], 1)));
    assert!(g.accepts(&Actor::User));
    let closed = GestureState::close(g.end(None).unwrap());
    assert!(closed.batch.is_none(), "the engine's commit is its own history step");
}

#[test]
fn live_automation_faders_are_recorded_once_and_report_the_pass() {
    let mut g = GestureState::new();
    assert_eq!(g.control_live_track_gains(&Actor::User, &vec!["t-1".to_string()]), None);
    let _ = g.begin("touch".to_string(), Actor::User, 42);
    let ids = vec!["t-1".to_string(), "t-1".to_string()];
    assert_eq!(g.control_live_track_gains(&Actor::User, &ids), Some(42));
    assert_eq!(g.open.as_ref().unwrap().live_gain_tracks.len(), 1);
    assert!(g.is_track_gain_touched("t-1"));
    assert_eq!(g.track_gain_touch_pass("t-1"), Some(42));
    assert_eq!(g.track_gain_touch_pass("t-2"), None);
    assert_eq!(g.control_live_track_gains(&Actor::Engine, &ids), None);
    let closed = GestureState::close(g.end(None).unwrap());
    assert_eq!(closed.live_gain_tracks, vec!["t-1".to_string()]);
    assert!(closed.batch.is_none(), "live faders are not folded document writes");
}

#[test]
fn coalesce_keys_address_object_and_path() {
    let a = CoalesceKey::for_op(&gain("t-1", 0.0)).unwrap();
    let b = CoalesceKey::for_op(&gain("t-1", -5.0)).unwrap();
    let c = CoalesceKey::for_op(&pan("t-1", 0.0)).unwrap();
    assert!(a.same_as(&b));
    assert!(!a.same_as(&c));
    assert_eq!(a.kind, CoalesceKind::SetProp);
    assert!(matches!(a.target, CoalesceTarget::Object(ObjectRef::Track(ref id)) if id == "t-1"));
    let notes = Op::MidiSetNotes { clip: "c-1".to_string(), notes: Vec::new() };
    assert!(CoalesceKey::for_op(&notes).is_none(), "a gesture does not fold note edits");
    let h = CoalesceKey::for_history_op(&notes).unwrap();
    assert_eq!(h.kind, CoalesceKind::MidiSetNotes);
    let tempo = Op::TempoSet { ppq: 960, events: Vec::new(), meter: Vec::new() };
    let k = CoalesceKey::for_op(&tempo).unwrap();
    assert!(matches!(k.target, CoalesceTarget::Object(ObjectRef::Transport)));
    let amt = Op::SendSetAmount { track_id: "t-1".to_string(), send_id: "s-1".to_string(), amount_db_bits: 0 };
    assert!(matches!(CoalesceKey::for_op(&amt).unwrap().target, CoalesceTarget::Send(ref s) if s == "s-1"));
}

#[test]
fn a_transient_batch_may_only_write_the_transport_outside_a_gesture() {
    let transport_set = Op::SetProp {
        object: ObjectRef::Transport,
        path: PropPath::TransportState,
        from: WireValue::Null,
        to: WireValue::Text("playing".to_string()),
    };
    let ok = committed(vec![transport_set], Vec::new(), 1);
    assert!(check_transient_invariant(&ok, false));
    let mix = committed(mix_gain("t-1", -3.0), vec![gain("t-1", 0.0)], 1);
    assert!(!check_transient_invariant(&mix, false));
    assert!(check_transient_invariant(&mix, true), "inside a gesture fold a transient mix write is expected");
    let mut durable = committed(mix_gain("t-1", -3.0), Vec::new(), 1);
    durable.meta.transient = false;
    assert!(check_transient_invariant(&durable, false));
}

#[test]
fn persist_effects_merge_by_union() {
    let mut p = PersistEffect::none();
    assert!(p.nothing());
    p.merge(&PersistEffect { midi: true, project: false, automation: false, modulation: true, plugins: false });
    p.merge(&PersistEffect { midi: false, project: true, automation: false, modulation: false, plugins: false });
    assert_eq!(p, PersistEffect { midi: true, project: true, automation: false, modulation: true, plugins: false });
    assert!(!p.nothing());
}

#[test]
fn folding_commits_one_by_one_equals_folding_them_as_one_batch() {
    let first = || committed(vec![gain("t-1", -3.0), pan("t-2", 0.2)], vec![gain("t-1", 0.0), pan("t-2", 0.0)], 1);
    let second = || committed(vec![gain("t-1", -5.0), gain("t-2", -1.0)], vec![gain("t-1", -3.0), gain("t-2", 0.0)], 1);
    let mut a = GestureState::new();
    let _ = a.begin("drag".to_string(), Actor::User, 0);
    assert!(a.fold_in(&Actor::User, first()));
    assert!(a.fold_in(&Actor::User, second()));
    let mut b = GestureState::new();
    let _ = b.begin("drag".to_string(), Actor::User, 0);
    let mut ops = first().ops;
    ops.extend(second().ops);
    let mut inverses = first().inverses;
    inverses.extend(second().inverses);
    assert!(b.fold_in(&Actor::User, committed(ops, inverses, 1)));
    let one_by_one = GestureState::close(a.end(None).unwrap()).batch.unwrap();
    let at_once = GestureState::close(b.end(None).unwrap()).batch.unwrap();
    assert_eq!(format!("{:?}", one_by_one.ops), format!("{:?}", at_once.ops));
    assert_eq!(format!("{:?}", one_by_one.inverses), format!("{:?}", at_once.inverses));
    assert_eq!(one_by_one.ops.len(), 3);
}
