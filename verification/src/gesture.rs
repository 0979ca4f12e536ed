//! Gesture boundaries: one explicit begin..end span (a fader drag, a knob
//! turn) during which matching commits run transient and fold into ONE
//! accumulator, so the whole drag reduces to one history-bound batch.
//!
//! The accumulator keeps, per coalesce key, the FIRST inverse it saw (what
//! the key was before the gesture began — never overwritten) and the LAST
//! forward op (what the key is now — overwritten by every later fold).
//! Closing synthesizes the batch: forward ops in first-seen key order,
//! inverses in the reverse of that order.

use vstd::prelude::*;
use crate::op::{Actor, ActorKey, ObjectKey, ObjectRef, Op, PropPath, TxMeta};
use crate::text::fresh_id;

verus! {

// ---------------------------------------------------------------------------
// Coalesce keys
// ---------------------------------------------------------------------------

/// The op kind half of a coalesce key.
#[derive(Clone, Copy, Debug, PartialEq, Eq, Structural)]
pub enum CoalesceKind {
    SetProp,
    AutomationSetLane,
    ModulationSetCurve,
    ModulationSetBinding,
    AutomationClipSet,
    TempoSet,
    SendSetAmount,
    MidiSetNotes,
}

/// What a coalesce key addresses.
#[derive(Clone, Debug)]
pub enum CoalesceTarget {
    Object(ObjectRef),
    /// An automation lane id.
    AutomationLane(String),
    /// A modulation graph key (curve / binding / automation clip id).
    ModulationKey(String),
    /// A send id: two sends on one track are two independent knobs.
    Send(String),
}

/// What a [`CoalesceTarget`] addresses, by value.
pub enum TargetKey {
    Object(ObjectKey),
    AutomationLane(Seq<char>),
    ModulationKey(Seq<char>),
    Send(Seq<char>),
}

impl View for CoalesceTarget {
    type V = TargetKey;

    open spec fn view(&self) -> TargetKey {
        match self {
            CoalesceTarget::Object(o) => TargetKey::Object(o@),
            CoalesceTarget::AutomationLane(k) => TargetKey::AutomationLane(k@),
            CoalesceTarget::ModulationKey(k) => TargetKey::ModulationKey(k@),
            CoalesceTarget::Send(k) => TargetKey::Send(k@),
        }
    }
}

/// The key a gesture folds by: (op kind, target, property path).
#[derive(Clone, Debug)]
pub struct CoalesceKey {
    pub kind: CoalesceKind,
    pub target: CoalesceTarget,
    pub path: Option<PropPath>,
}

/// A coalesce key, by value.
pub struct KeyView {
    pub kind: CoalesceKind,
    pub target: TargetKey,
    pub path: Option<PropPath>,
}

impl View for CoalesceKey {
    type V = KeyView;

    open spec fn view(&self) -> KeyView {
        KeyView { kind: self.kind, target: self.target@, path: self.path }
    }
}

/// The gesture-side key of an op, or `None` for an op kind a gesture does
/// not fold.
pub open spec fn key_of(op: Op) -> Option<KeyView> {
    match op {
        Op::SetProp { object, path, .. } => Some(
            KeyView { kind: CoalesceKind::SetProp, target: TargetKey::Object(object@), path: Some(path) },
        ),
        Op::AutomationSetLane { key, .. } => Some(
            KeyView { kind: CoalesceKind::AutomationSetLane, target: TargetKey::AutomationLane(key@), path: None },
        ),
        Op::ModulationSetCurve { key, .. } => Some(
            KeyView { kind: CoalesceKind::ModulationSetCurve, target: TargetKey::ModulationKey(key@), path: None },
        ),
        Op::ModulationSetBinding { key, .. } => Some(
            KeyView { kind: CoalesceKind::ModulationSetBinding, target: TargetKey::ModulationKey(key@), path: None },
        ),
        Op::AutomationClipSet { key, .. } => Some(
            KeyView { kind: CoalesceKind::AutomationClipSet, target: TargetKey::ModulationKey(key@), path: None },
        ),
        Op::TempoSet { .. } => Some(
            KeyView { kind: CoalesceKind::TempoSet, target: TargetKey::Object(ObjectKey::Transport), path: None },
        ),
        Op::SendSetAmount { send_id, .. } => Some(
            KeyView { kind: CoalesceKind::SendSetAmount, target: TargetKey::Send(send_id@), path: None },
        ),
        _ => None,
    }
}

/// Exactly the value replacements a gesture folds are keyed: property
/// writes, lane, curve, binding and automation-clip replacements, tempo
/// maps and send amounts. Every structural op (adds, removes, reorders,
/// routing, note and plugin-state replacements) is left unkeyed.
pub proof fn lemma_folded_kinds_are_keyed(op: Op)
    ensures
        key_of(op) is Some <==> (op is SetProp || op is AutomationSetLane || op is ModulationSetCurve
            || op is ModulationSetBinding || op is AutomationClipSet || op is TempoSet || op is SendSetAmount),
{
}

/// Two keyed ops share a key exactly when they replace the same thing: two
/// lane replacements when they name the same lane, two sends when they
/// name the same send, two property writes when they write the same
/// property of the same object; ops of different kinds never share one.
pub proof fn lemma_keys_address_what_is_replaced(a: Op, b: Op)
    ensures
        (a is AutomationSetLane && b is AutomationSetLane) ==> (key_of(a) == key_of(b)
            <==> a->AutomationSetLane_key@ == b->AutomationSetLane_key@),
        (a is SendSetAmount && b is SendSetAmount) ==> (key_of(a) == key_of(b)
            <==> a->SendSetAmount_send_id@ == b->SendSetAmount_send_id@),
        (a is SetProp && b is SetProp) ==> (key_of(a) == key_of(b)
            <==> a->SetProp_object@ == b->SetProp_object@ && a->SetProp_path == b->SetProp_path),
        (key_of(a) is Some && key_of(a) == key_of(b)) ==> {
            &&& a is SetProp <==> b is SetProp
            &&& a is AutomationSetLane <==> b is AutomationSetLane
            &&& a is ModulationSetCurve <==> b is ModulationSetCurve
            &&& a is ModulationSetBinding <==> b is ModulationSetBinding
            &&& a is AutomationClipSet <==> b is AutomationClipSet
            &&& a is TempoSet <==> b is TempoSet
            &&& a is SendSetAmount <==> b is SendSetAmount
        },
{
}

/// The history-side key: everything a gesture folds, plus a whole-notes
/// replacement keyed by its clip. Every other op kind is structural.
pub open spec fn history_key_of(op: Op) -> Option<KeyView> {
    match op {
        Op::MidiSetNotes { clip, .. } => Some(
            KeyView {
                kind: CoalesceKind::MidiSetNotes,
                target: TargetKey::Object(ObjectKey::MidiClip(clip@)),
                path: None,
            },
        ),
        _ => key_of(op),
    }
}

/// The value of an optional key.
pub open spec fn opt_key(k: Option<CoalesceKey>) -> Option<KeyView> {
    match k {
        Some(k) => Some(k@),
        None => None,
    }
}

impl CoalesceTarget {
    /// Whether two targets address the same thing.
    pub fn same_as(&self, other: &CoalesceTarget) -> (r: bool)
        ensures
            r == (self@ == other@),
    {
        match (self, other) {
            (CoalesceTarget::Object(a), CoalesceTarget::Object(b)) => a.same_as(b),
            (CoalesceTarget::AutomationLane(a), CoalesceTarget::AutomationLane(b)) => *a == *b,
            (CoalesceTarget::ModulationKey(a), CoalesceTarget::ModulationKey(b)) => *a == *b,
            (CoalesceTarget::Send(a), CoalesceTarget::Send(b)) => *a == *b,
            _ => false,
        }
    }
}

impl CoalesceKey {
    /// Whether two keys are the same key.
    pub fn same_as(&self, other: &CoalesceKey) -> (r: bool)
        ensures
            r == (self@ == other@),
    {
        self.kind == other.kind && self.target.same_as(&other.target) && self.path == other.path
    }

    /// The key a gesture folds `op` by, or `None` for an op kind gesture
    /// folding does not handle.
    pub fn for_op(op: &Op) -> (r: Option<CoalesceKey>)
        ensures
            opt_key(r) == key_of(*op),
    {
        match op {
            Op::SetProp { object, path, .. } => Some(
                CoalesceKey {
                    kind: CoalesceKind::SetProp,
                    target: CoalesceTarget::Object(object.duplicate()),
                    path: Some(*path),
                },
            ),
            Op::AutomationSetLane { key, .. } => Some(
                CoalesceKey {
                    kind: CoalesceKind::AutomationSetLane,
                    target: CoalesceTarget::AutomationLane(key.clone()),
                    path: None,
                },
            ),
            Op::ModulationSetCurve { key, .. } => Some(
                CoalesceKey {
                    kind: CoalesceKind::ModulationSetCurve,
                    target: CoalesceTarget::ModulationKey(key.clone()),
                    path: None,
                },
            ),
            Op::ModulationSetBinding { key, .. } => Some(
                CoalesceKey {
                    kind: CoalesceKind::ModulationSetBinding,
                    target: CoalesceTarget::ModulationKey(key.clone()),
                    path: None,
                },
            ),
            Op::AutomationClipSet { key, .. } => Some(
                CoalesceKey {
                    kind: CoalesceKind::AutomationClipSet,
                    target: CoalesceTarget::ModulationKey(key.clone()),
                    path: None,
                },
            ),
            Op::TempoSet { .. } => Some(
                CoalesceKey {
                    kind: CoalesceKind::TempoSet,
                    target: CoalesceTarget::Object(ObjectRef::Transport),
                    path: None,
                },
            ),
            Op::SendSetAmount { send_id, .. } => Some(
                CoalesceKey {
                    kind: CoalesceKind::SendSetAmount,
                    target: CoalesceTarget::Send(send_id.clone()),
                    path: None,
                },
            ),
            _ => None,
        }
    }

    /// The history-side key of `op` (see [`history_key_of`]).
    pub fn for_history_op(op: &Op) -> (r: Option<CoalesceKey>)
        ensures
            opt_key(r) == history_key_of(*op),
    {
        match op {
            Op::MidiSetNotes { clip, .. } => Some(
                CoalesceKey {
                    kind: CoalesceKind::MidiSetNotes,
                    target: CoalesceTarget::Object(ObjectRef::MidiClip(clip.clone())),
                    path: None,
                },
            ),
            other => Self::for_op(other),
        }
    }
}

// ---------------------------------------------------------------------------
// Commits and persist effects
// ---------------------------------------------------------------------------

/// Which persistence a commit asks for; a union over folded commits.
#[derive(Clone, Copy, Debug, PartialEq, Eq, Structural)]
pub struct PersistEffect {
    pub midi: bool,
    pub project: bool,
    pub automation: bool,
    pub modulation: bool,
    pub plugins: bool,
}

impl PersistEffect {
    /// Nothing to persist.
    pub fn none() -> (p: PersistEffect)
        ensures
            p.is_empty(),
    {
        PersistEffect { midi: false, project: false, automation: false, modulation: false, plugins: false }
    }

    /// Whether nothing is asked for.
    pub open spec fn is_empty(self) -> bool {
        !self.midi && !self.project && !self.automation && !self.modulation && !self.plugins
    }

    /// Whether nothing is asked for.
    pub fn nothing(&self) -> (b: bool)
        ensures
            b == self.is_empty(),
    {
        !self.midi && !self.project && !self.automation && !self.modulation && !self.plugins
    }

    /// Union `other` into `self`.
    pub fn merge(&mut self, other: &PersistEffect)
        ensures
            final(self).midi == (old(self).midi || other.midi),
            final(self).project == (old(self).project || other.project),
            final(self).automation == (old(self).automation || other.automation),
            final(self).modulation == (old(self).modulation || other.modulation),
            final(self).plugins == (old(self).plugins || other.plugins),
    {
        self.midi = self.midi || other.midi;
        self.project = self.project || other.project;
        self.automation = self.automation || other.automation;
        self.modulation = self.modulation || other.modulation;
        self.plugins = self.plugins || other.plugins;
    }
}

/// What a committed transaction hands back: its forward ops, their
/// inverses, its metadata, and the persistence it asked for.
pub struct Committed {
    pub rev: u64,
    pub epoch: u64,
    pub ops: Vec<Op>,
    pub inverses: Vec<Op>,
    pub meta: TxMeta,
    pub persist: PersistEffect,
}

/// Whether `op` writes a transport property.
pub open spec fn writes_transport(op: Op) -> bool {
    op matches Op::SetProp { object: ObjectRef::Transport, .. }
}

/// Whether a committed batch respects the transient invariant: a batch
/// marked transient either is a mid-gesture fold, or writes only the
/// transport (the one object no history entry can address).
pub open spec fn transient_invariant(c: Committed, in_gesture_fold: bool) -> bool {
    !c.meta.transient || in_gesture_fold || forall|i: int|
        0 <= i < c.ops@.len() ==> #[trigger] writes_transport(c.ops@[i])
}

/// Checks [`transient_invariant`].
pub fn check_transient_invariant(committed: &Committed, in_gesture_fold: bool) -> (ok: bool)
    ensures
        ok == transient_invariant(*committed, in_gesture_fold),
{
    if !committed.meta.transient || in_gesture_fold {
        return true;
    }
    let mut i: usize = 0;
    while i < committed.ops.len()
        invariant
            i <= committed.ops@.len(),
            committed.meta.transient,
            !in_gesture_fold,
            forall|j: int| 0 <= j < i ==> #[trigger] writes_transport(committed.ops@[j]),
        decreases committed.ops.len() - i,
    {
        if !is_transport_set(&committed.ops[i]) {
            proof {
                assert(!writes_transport(committed.ops@[i as int]));
            }
            return false;
        }
        i = i + 1;
    }
    true
}

fn is_transport_set(op: &Op) -> (b: bool)
    ensures
        b == writes_transport(*op),
{
    match op {
        Op::SetProp { object: ObjectRef::Transport, .. } => true,
        _ => false,
    }
}

// ---------------------------------------------------------------------------
// The fold, as a model
// ---------------------------------------------------------------------------

/// The accumulator of an open gesture, by value: the keys in first-seen
/// order, the first-seen inverse per key, the last forward op per key.
pub struct FoldState {
    pub keys: Seq<KeyView>,
    pub bases: Seq<Op>,
    pub lasts: Seq<Op>,
}

/// A well-formed accumulator: one baseline and one last op per key, and
/// no key twice.
pub open spec fn fold_wf(s: FoldState) -> bool {
    &&& s.bases.len() == s.keys.len()
    &&& s.lasts.len() == s.keys.len()
    &&& s.keys.no_duplicates()
}

/// Fold one (forward op, inverse) pair in.
pub open spec fn fold_step(s: FoldState, op: Op, inv: Op) -> FoldState {
    match key_of(op) {
        None => s,
        Some(k) => if s.keys.contains(k) {
            FoldState { keys: s.keys, bases: s.bases, lasts: s.lasts.update(s.keys.index_of(k), op) }
        } else {
            FoldState { keys: s.keys.push(k), bases: s.bases.push(inv), lasts: s.lasts.push(op) }
        },
    }
}

/// Fold the first `n` pairs of a batch in, in order.
pub open spec fn fold_all(s: FoldState, ops: Seq<Op>, invs: Seq<Op>, n: nat) -> FoldState
    decreases n,
{
    if n == 0 {
        s
    } else {
        fold_step(fold_all(s, ops, invs, (n - 1) as nat), ops[n - 1], invs[n - 1])
    }
}

/// The index of the last of the first `n` ops of a batch keyed `k`.
pub open spec fn last_keyed(ops: Seq<Op>, k: KeyView, n: nat) -> Option<int>
    decreases n,
{
    if n == 0 {
        None
    } else if key_of(ops[n - 1]) == Some(k) {
        Some(n - 1)
    } else {
        last_keyed(ops, k, (n - 1) as nat)
    }
}

/// The index of the first of the first `n` ops of a batch keyed `k`.
pub open spec fn first_keyed(ops: Seq<Op>, k: KeyView, n: nat) -> Option<int>
    decreases n,
{
    if n == 0 {
        None
    } else {
        match first_keyed(ops, k, (n - 1) as nat) {
            Some(i) => Some(i),
            None => if key_of(ops[n - 1]) == Some(k) { Some(n - 1) } else { None },
        }
    }
}

proof fn lemma_fold_step_wf(s: FoldState, op: Op, inv: Op)
    requires
        fold_wf(s),
    ensures
        fold_wf(fold_step(s, op, inv)),
        fold_step(s, op, inv).keys.len() >= s.keys.len(),
        fold_step(s, op, inv).keys.subrange(0, s.keys.len() as int) == s.keys,
        fold_step(s, op, inv).bases.subrange(0, s.keys.len() as int) == s.bases,
{
    let t = fold_step(s, op, inv);
    match key_of(op) {
        None => {
            assert(t.keys.subrange(0, s.keys.len() as int) =~= s.keys);
            assert(t.bases.subrange(0, s.keys.len() as int) =~= s.bases);
        },
        Some(k) => {
            if s.keys.contains(k) {
                assert(t.keys.subrange(0, s.keys.len() as int) =~= s.keys);
                assert(t.bases.subrange(0, s.keys.len() as int) =~= s.bases);
            } else {
                assert(t.keys.subrange(0, s.keys.len() as int) =~= s.keys);
                assert(t.bases.subrange(0, s.keys.len() as int) =~= s.bases);
                assert forall|i: int, j: int|
                    0 <= i < t.keys.len() && 0 <= j < t.keys.len() && i != j implies t.keys[i] != t.keys[j] by {
                    if i == s.keys.len() {
                        assert(t.keys[j] == s.keys[j]);
                    } else if j == s.keys.len() {
                        assert(t.keys[i] == s.keys[i]);
                    }
                }
            }
        },
    }
}

/// A lane drag is one undo step: folding two replacements of the same
/// lane into an empty accumulator leaves a single entry, whose baseline is
/// the first replacement's inverse (the lane before the drag) and whose
/// last op is the second replacement (the lane after it).
pub proof fn lemma_lane_drag_folds_to_one_entry(a: Op, ia: Op, b: Op, ib: Op)
    requires
        a is AutomationSetLane,
        b is AutomationSetLane,
        a->AutomationSetLane_key@ == b->AutomationSetLane_key@,
    ensures
        ({
            let empty = FoldState { keys: Seq::empty(), bases: Seq::empty(), lasts: Seq::empty() };
            let s = fold_step(fold_step(empty, a, ia), b, ib);
            &&& s.keys.len() == 1
            &&& s.bases == seq![ia]
            &&& s.lasts == seq![b]
        }),
{
    let empty = FoldState { keys: Seq::empty(), bases: Seq::empty(), lasts: Seq::empty() };
    let s1 = fold_step(empty, a, ia);
    let k = key_of(a)->0;
    assert(!empty.keys.contains(k));
    assert(s1.keys =~= seq![k]);
    assert(key_of(b) == Some(k));
    assert(s1.keys[0] == k);
    assert(s1.keys.contains(k));
    assert(s1.keys.index_of(k) == 0);
    let s2 = fold_step(s1, b, ib);
    assert(s2.bases =~= seq![ia]);
    assert(s2.lasts =~= seq![b]);
}


/// never loses or reorders a key or rewrites a baseline it already had.
pub proof fn lemma_fold_all_wf(s: FoldState, ops: Seq<Op>, invs: Seq<Op>, n: nat)
    requires
        fold_wf(s),
        n <= ops.len(),
        n <= invs.len(),
    ensures
        fold_wf(fold_all(s, ops, invs, n)),
        fold_all(s, ops, invs, n).keys.len() >= s.keys.len(),
        fold_all(s, ops, invs, n).keys.subrange(0, s.keys.len() as int) == s.keys,
        fold_all(s, ops, invs, n).bases.subrange(0, s.keys.len() as int) == s.bases,
    decreases n,
{
    if n > 0 {
        let m = (n - 1) as nat;
        lemma_fold_all_wf(s, ops, invs, m);
        let p = fold_all(s, ops, invs, m);
        lemma_fold_step_wf(p, ops[n - 1], invs[n - 1]);
        let t = fold_all(s, ops, invs, n);
        assert(t.keys.subrange(0, p.keys.len() as int) == p.keys);
        assert(t.keys.subrange(0, s.keys.len() as int) =~= p.keys.subrange(0, s.keys.len() as int));
        assert(t.bases.subrange(0, s.keys.len() as int) =~= p.bases.subrange(0, s.keys.len() as int));
    }
}

/// What one fold step does to a well-formed accumulator.
proof fn lemma_fold_step_cases(p: FoldState, op: Op, inv: Op)
    requires
        fold_wf(p),
    ensures
        ({
            let t = fold_step(p, op, inv);
            match key_of(op) {
                None => t == p,
                Some(k) => if p.keys.contains(k) {
                    let idx = p.keys.index_of(k);
                    &&& 0 <= idx < p.keys.len()
                    &&& p.keys[idx] == k
                    &&& forall|i: int| 0 <= i < p.keys.len() && i != idx ==> #[trigger] p.keys[i] != k
                    &&& t.keys == p.keys
                    &&& t.bases == p.bases
                    &&& t.lasts == p.lasts.update(idx, op)
                } else {
                    &&& forall|i: int| 0 <= i < p.keys.len() ==> #[trigger] p.keys[i] != k
                    &&& t.keys == p.keys.push(k)
                    &&& t.bases == p.bases.push(inv)
                    &&& t.lasts == p.lasts.push(op)
                },
            }
        }),
{
    match key_of(op) {
        None => {},
        Some(k) => {
            if p.keys.contains(k) {
                let idx = p.keys.index_of(k);
                assert(p.keys[idx] == k);
            }
        },
    }
}

/// Keyed ops past the first `m` do not move an earlier first occurrence,
/// and an op with another key moves nothing.
proof fn lemma_keyed_step(ops: Seq<Op>, k: KeyView, n: nat)
    requires
        n > 0,
    ensures
        first_keyed(ops, k, (n - 1) as nat) is Some ==> first_keyed(ops, k, n) == first_keyed(ops, k, (n - 1) as nat),
        key_of(ops[n - 1]) != Some(k) ==> first_keyed(ops, k, n) == first_keyed(ops, k, (n - 1) as nat),
        key_of(ops[n - 1]) != Some(k) ==> last_keyed(ops, k, n) == last_keyed(ops, k, (n - 1) as nat),
        key_of(ops[n - 1]) == Some(k) ==> last_keyed(ops, k, n) == Some(n - 1),
        key_of(ops[n - 1]) == Some(k) && first_keyed(ops, k, (n - 1) as nat) is None ==> first_keyed(ops, k, n) == Some(n - 1),
{
}

/// The last forward op per key is the last op of the batch with that key,
/// or the one the accumulator already had when the batch never touched it.
pub proof fn lemma_fold_lasts(s: FoldState, ops: Seq<Op>, invs: Seq<Op>, n: nat)
    requires
        fold_wf(s),
        n <= ops.len(),
        n <= invs.len(),
    ensures
        forall|i: int| #![trigger fold_all(s, ops, invs, n).keys[i]]
            0 <= i < fold_all(s, ops, invs, n).keys.len() ==> fold_all(s, ops, invs, n).lasts[i] == (
            match last_keyed(ops, fold_all(s, ops, invs, n).keys[i], n) {
                Some(j) => ops[j],
                None => s.lasts[i],
            }),
    decreases n,
{
    if n > 0 {
        let m = (n - 1) as nat;
        lemma_fold_lasts(s, ops, invs, m);
        lemma_fold_all_wf(s, ops, invs, m);
        let p = fold_all(s, ops, invs, m);
        let t = fold_all(s, ops, invs, n);
        lemma_fold_step_cases(p, ops[n - 1], invs[n - 1]);
        assert forall|i: int| #![trigger t.keys[i]] 0 <= i < t.keys.len() implies t.lasts[i] == (
            match last_keyed(ops, t.keys[i], n) {
                Some(j) => ops[j],
                None => s.lasts[i],
            }) by {
            lemma_keyed_step(ops, t.keys[i], n);
            match key_of(ops[n - 1]) {
                None => {
                    assert(p.keys[i] == t.keys[i]);
                },
                Some(k) => {
                    if p.keys.contains(k) {
                        assert(p.keys[i] == t.keys[i]);
                    } else if i < p.keys.len() {
                        assert(p.keys[i] == t.keys[i]);
                    }
                },
            }
        }
    }
}

/// Every key first seen in the batch has as baseline the inverse of the
/// first op of the batch with that key.
pub proof fn lemma_fold_new_bases(s: FoldState, ops: Seq<Op>, invs: Seq<Op>, n: nat)
    requires
        fold_wf(s),
        n <= ops.len(),
        n <= invs.len(),
    ensures
        forall|i: int| #![trigger fold_all(s, ops, invs, n).keys[i]]
            s.keys.len() <= i < fold_all(s, ops, invs, n).keys.len() ==> {
                &&& first_keyed(ops, fold_all(s, ops, invs, n).keys[i], n) is Some
                &&& fold_all(s, ops, invs, n).bases[i] == invs[first_keyed(ops, fold_all(s, ops, invs, n).keys[i], n)->0]
            },
        forall|k: KeyView| #![trigger fold_all(s, ops, invs, n).keys.contains(k)]
            !s.keys.contains(k) && first_keyed(ops, k, n) is None ==> !fold_all(s, ops, invs, n).keys.contains(k),
    decreases n,
{
    if n > 0 {
        let m = (n - 1) as nat;
        lemma_fold_new_bases(s, ops, invs, m);
        lemma_fold_all_wf(s, ops, invs, m);
        let p = fold_all(s, ops, invs, m);
        let t = fold_all(s, ops, invs, n);
        lemma_fold_step_cases(p, ops[n - 1], invs[n - 1]);
        assert forall|i: int| #![trigger t.keys[i]] s.keys.len() <= i < t.keys.len() implies {
            &&& first_keyed(ops, t.keys[i], n) is Some
            &&& t.bases[i] == invs[first_keyed(ops, t.keys[i], n)->0]
        } by {
            lemma_keyed_step(ops, t.keys[i], n);
            if i < p.keys.len() {
                assert(p.keys[i] == t.keys[i]);
                assert(p.bases[i] == t.bases[i]);
            } else {
                let k = key_of(ops[n - 1])->0;
                assert(t.keys[i] == k);
                assert(!p.keys.contains(k));
                assert(!s.keys.contains(k)) by {
                    if s.keys.contains(k) {
                        let w = choose|w: int| 0 <= w < s.keys.len() && s.keys[w] == k;
                        assert(p.keys.subrange(0, s.keys.len() as int)[w] == k);
                        assert(p.keys.contains(k));
                    }
                }
                lemma_fold_touched_keys(s, ops, invs, m);
                assert(first_keyed(ops, k, m) is None);
            }
        }
        assert forall|k: KeyView| #![trigger t.keys.contains(k)]
            !s.keys.contains(k) && first_keyed(ops, k, n) is None implies !t.keys.contains(k) by {
            lemma_keyed_step(ops, k, n);
            if t.keys.contains(k) {
                let w = choose|w: int| 0 <= w < t.keys.len() && t.keys[w] == k;
                if w < p.keys.len() {
                    assert(p.keys[w] == k);
                    assert(p.keys.contains(k));
                }
            }
        }
    }
}

/// Every key the batch touches ends up in the accumulator.
pub proof fn lemma_fold_touched_keys(s: FoldState, ops: Seq<Op>, invs: Seq<Op>, n: nat)
    requires
        fold_wf(s),
        n <= ops.len(),
        n <= invs.len(),
    ensures
        forall|k: KeyView| #![trigger fold_all(s, ops, invs, n).keys.contains(k)]
            (s.keys.contains(k) || first_keyed(ops, k, n) is Some) ==> fold_all(s, ops, invs, n).keys.contains(k),
    decreases n,
{
    if n > 0 {
        let m = (n - 1) as nat;
        lemma_fold_touched_keys(s, ops, invs, m);
        lemma_fold_all_wf(s, ops, invs, m);
        let p = fold_all(s, ops, invs, m);
        let t = fold_all(s, ops, invs, n);
        lemma_fold_step_cases(p, ops[n - 1], invs[n - 1]);
        assert forall|k: KeyView| #![trigger t.keys.contains(k)]
            (s.keys.contains(k) || first_keyed(ops, k, n) is Some) implies t.keys.contains(k) by {
            lemma_keyed_step(ops, k, n);
            if first_keyed(ops, k, m) is Some || s.keys.contains(k) {
                assert(p.keys.contains(k));
                let w = choose|w: int| 0 <= w < p.keys.len() && p.keys[w] == k;
                assert(t.keys.subrange(0, p.keys.len() as int)[w] == k);
                assert(t.keys[w] == k);
            } else {
                assert(key_of(ops[n - 1]) == Some(k));
                if !p.keys.contains(k) {
                    assert(t.keys[p.keys.len() as int] == k);
                }
            }
        }
    }
}

/// THE FOLD LAW. After folding a batch into a well-formed accumulator, for
/// every key the accumulator holds:
/// * a key it already had keeps its place and its baseline (the
///   pre-gesture value is never overwritten);
/// * a key first seen in this batch has as baseline the inverse of the
///   FIRST op of the batch with that key;
/// * the last op is the LAST op of the batch with that key, or the one it
///   already had when the batch never touched it;
/// and the keys are exactly the old keys plus the keys the batch touched,
/// each once.
pub proof fn lemma_fold_law(s: FoldState, ops: Seq<Op>, invs: Seq<Op>, n: nat)
    requires
        fold_wf(s),
        n <= ops.len(),
        n <= invs.len(),
    ensures
        fold_wf(fold_all(s, ops, invs, n)),
        forall|i: int| 0 <= i < s.keys.len() ==> #[trigger] fold_all(s, ops, invs, n).keys[i] == s.keys[i]
            && fold_all(s, ops, invs, n).bases[i] == s.bases[i],
        forall|i: int| #![trigger fold_all(s, ops, invs, n).keys[i]]
            s.keys.len() <= i < fold_all(s, ops, invs, n).keys.len() ==> {
                &&& first_keyed(ops, fold_all(s, ops, invs, n).keys[i], n) is Some
                &&& fold_all(s, ops, invs, n).bases[i] == invs[first_keyed(ops, fold_all(s, ops, invs, n).keys[i], n)->0]
            },
        forall|i: int| #![trigger fold_all(s, ops, invs, n).keys[i]]
            0 <= i < fold_all(s, ops, invs, n).keys.len() ==> fold_all(s, ops, invs, n).lasts[i] == (
            match last_keyed(ops, fold_all(s, ops, invs, n).keys[i], n) {
                Some(j) => ops[j],
                None => s.lasts[i],
            }),
        forall|k: KeyView| #[trigger] fold_all(s, ops, invs, n).keys.contains(k)
            <==> (s.keys.contains(k) || first_keyed(ops, k, n) is Some),
{
    lemma_fold_all_wf(s, ops, invs, n);
    lemma_fold_lasts(s, ops, invs, n);
    lemma_fold_new_bases(s, ops, invs, n);
    lemma_fold_touched_keys(s, ops, invs, n);
    let t = fold_all(s, ops, invs, n);
    assert forall|i: int| 0 <= i < s.keys.len() implies #[trigger] t.keys[i] == s.keys[i] && t.bases[i] == s.bases[i] by {
        assert(t.keys.subrange(0, s.keys.len() as int)[i] == t.keys[i]);
        assert(t.bases.subrange(0, s.keys.len() as int)[i] == t.bases[i]);
    }
}

proof fn lemma_fold_prefix(s: FoldState, ops1: Seq<Op>, invs1: Seq<Op>, ops2: Seq<Op>, invs2: Seq<Op>, n: nat)
    requires
        n <= ops1.len(),
        n <= ops2.len(),
        n <= invs1.len(),
        n <= invs2.len(),
        forall|i: int| 0 <= i < n ==> ops1[i] == ops2[i] && invs1[i] == invs2[i],
    ensures
        fold_all(s, ops1, invs1, n) == fold_all(s, ops2, invs2, n),
    decreases n,
{
    if n > 0 {
        lemma_fold_prefix(s, ops1, invs1, ops2, invs2, (n - 1) as nat);
    }
}

proof fn lemma_fold_concat_upto(s: FoldState, a: Seq<Op>, ia: Seq<Op>, b: Seq<Op>, ib: Seq<Op>, m: nat)
    requires
        a.len() == ia.len(),
        m <= b.len(),
        m <= ib.len(),
    ensures
        fold_all(fold_all(s, a, ia, a.len()), b, ib, m) == fold_all(s, a + b, ia + ib, a.len() + m),
    decreases m,
{
    if m == 0 {
        lemma_fold_prefix(s, a, ia, a + b, ia + ib, a.len());
    } else {
        lemma_fold_concat_upto(s, a, ia, b, ib, (m - 1) as nat);
        assert((a + b)[a.len() + m - 1] == b[m - 1]);
        assert((ia + ib)[a.len() + m - 1] == ib[m - 1]);
    }
}

/// A gesture is one batch: folding its commits one after another leaves
/// the same accumulator as folding all their ops (and inverses) at once.
pub proof fn lemma_fold_concat(s: FoldState, a: Seq<Op>, ia: Seq<Op>, b: Seq<Op>, ib: Seq<Op>)
    requires
        a.len() == ia.len(),
        b.len() == ib.len(),
    ensures
        fold_all(fold_all(s, a, ia, a.len()), b, ib, b.len()) == fold_all(s, a + b, ia + ib, (a + b).len()),
{
    lemma_fold_concat_upto(s, a, ia, b, ib, b.len());
}

// ---------------------------------------------------------------------------
// The gesture slot
// ---------------------------------------------------------------------------

/// A gesture in progress.
pub struct OpenGesture {
    pub actor: Actor,
    /// One correlation id for the whole gesture.
    pub run: String,
    /// First-seen inverse per coalesce key.
    pub baselines: Vec<(CoalesceKey, Op)>,
    /// Last-seen forward op per key.
    pub last: Vec<(CoalesceKey, Op)>,
    pub label: String,
    /// Track faders this gesture controls as live automation input; they
    /// are deliberately absent from `last`.
    pub live_gain_tracks: Vec<String>,
    /// Automation pass active when the gesture opened.
    pub automation_pass: u64,
    /// Union of the persist effects of every folded commit.
    pub persist: PersistEffect,
    /// Epoch of the last folded commit.
    pub epoch: u64,
}

/// The keys of an entry list, by value.
pub open spec fn keys_of(v: Seq<(CoalesceKey, Op)>) -> Seq<KeyView> {
    v.map_values(|e: (CoalesceKey, Op)| e.0@)
}

/// The ops of an entry list.
pub open spec fn ops_of(v: Seq<(CoalesceKey, Op)>) -> Seq<Op> {
    v.map_values(|e: (CoalesceKey, Op)| e.1)
}

impl OpenGesture {
    /// The accumulator, by value.
    pub open spec fn state(self) -> FoldState {
        FoldState { keys: keys_of(self.last@), bases: ops_of(self.baselines@), lasts: ops_of(self.last@) }
    }

    /// Baselines and last ops carry the same keys, in the same order, once.
    pub open spec fn wf(self) -> bool {
        &&& keys_of(self.baselines@) == keys_of(self.last@)
        &&& fold_wf(self.state())
    }
}

/// Whether one of `v` reads `t`.
pub open spec fn holds_text(v: Seq<String>, t: Seq<char>) -> bool {
    exists|i: int| 0 <= i < v.len() && #[trigger] v[i]@ == t
}

/// Whether the gesture has folded a gain write for the track `track_id`,
/// or controls its fader as live automation input.
pub open spec fn touches_gain(g: OpenGesture, track_id: Seq<char>) -> bool {
    holds_text(g.live_gain_tracks@, track_id)
    || keys_of(g.last@).contains(KeyView {
        kind: CoalesceKind::SetProp,
        target: TargetKey::Object(ObjectKey::Track(track_id)),
        path: Some(PropPath::Gain),
    })
}

/// The one history-bound batch a closed gesture reduces to.
pub struct GestureBatch {
    pub ops: Vec<Op>,
    pub inverses: Vec<Op>,
    pub meta: TxMeta,
}

/// What closing a gesture leaves for the caller to execute.
pub struct ClosedGesture {
    /// `None` when the gesture folded nothing.
    pub batch: Option<GestureBatch>,
    /// The whole gesture's deferred persist, executed once.
    pub persist: PersistEffect,
    pub epoch: u64,
    /// Faders that were live automation input: their touch ends now.
    pub live_gain_tracks: Vec<String>,
    pub automation_pass: u64,
}

/// The ops of an entry list, last entry first.
fn entry_ops_reversed(entries: Vec<(CoalesceKey, Op)>) -> (r: Vec<Op>)
    ensures
        r@ == ops_of(entries@).reverse(),
{
    let ghost all = ops_of(entries@);
    let mut entries = entries;
    let mut r: Vec<Op> = Vec::new();
    while entries.len() > 0
        invariant
            entries@.len() + r@.len() == all.len(),
            ops_of(entries@) == all.subrange(0, entries@.len() as int),
            r@ == all.reverse().subrange(0, r@.len() as int),
        decreases entries.len(),
    {
        let ghost before = entries@;
        let e = entries.pop().unwrap();
        proof {
            assert(ops_of(before)[before.len() - 1] == e.1);
            assert(all.reverse()[r@.len() as int] == all[all.len() - 1 - r@.len()]);
        }
        r.push(e.1);
        proof {
            assert(ops_of(entries@) =~= all.subrange(0, entries@.len() as int));
            assert(r@ =~= all.reverse().subrange(0, r@.len() as int));
        }
    }
    assert(r@ =~= all.reverse());
    r
}

/// `v` in reverse order.
fn reversed_ops(v: Vec<Op>) -> (r: Vec<Op>)
    ensures
        r@ == v@.reverse(),
{
    let ghost all = v@;
    let mut v = v;
    let mut r: Vec<Op> = Vec::new();
    while v.len() > 0
        invariant
            v@.len() + r@.len() == all.len(),
            v@ == all.subrange(0, v@.len() as int),
            r@ == all.reverse().subrange(0, r@.len() as int),
        decreases v.len(),
    {
        let ghost before = v@;
        let op = v.pop().unwrap();
        proof {
            assert(op == all[before.len() - 1]);
            assert(all.reverse()[r@.len() as int] == all[all.len() - 1 - r@.len()]);
        }
        r.push(op);
        proof {
            assert(v@ =~= all.subrange(0, v@.len() as int));
            assert(r@ =~= all.reverse().subrange(0, r@.len() as int));
        }
    }
    assert(r@ =~= all.reverse());
    r
}

/// Holds the (at most one) open gesture.
pub struct GestureState {
    pub open: Option<OpenGesture>,
}

impl GestureState {
    /// No gesture open.
    pub fn new() -> (s: GestureState)
        ensures
            s.open is None,
    {
        GestureState { open: None }
    }

    /// The open gesture, if any, is well formed.
    pub open spec fn wf(self) -> bool {
        self.open matches Some(g) ==> g.wf()
    }

    /// The automation pass of the open gesture when it touches the gain of
    /// `track_id`; `None` otherwise (including when nothing is open, or the
    /// open gesture has folded nothing yet).
    pub fn track_gain_touch_pass(&self, track_id: &str) -> (r: Option<u64>)
        ensures
            r == (match self.open {
                Some(g) => if touches_gain(g, track_id@) { Some(g.automation_pass) } else { None },
                None => None,
            }),
    {
        let g = match &self.open {
            Some(g) => g,
            None => return None,
        };
        let id = String::from_str(track_id);
        let mut i: usize = 0;
        while i < g.live_gain_tracks.len()
            invariant
                i <= g.live_gain_tracks@.len(),
                self.open == Some(*g),
                id@ == track_id@,
                forall|j: int| 0 <= j < i ==> #[trigger] g.live_gain_tracks@[j]@ != track_id@,
            decreases g.live_gain_tracks.len() - i,
        {
            if g.live_gain_tracks[i] == id {
                proof {
                    assert(g.live_gain_tracks@[i as int]@ == track_id@);
                    assert(holds_text(g.live_gain_tracks@, track_id@));
                }
                return Some(g.automation_pass);
            }
            i = i + 1;
        }
        let want = CoalesceKey {
            kind: CoalesceKind::SetProp,
            target: CoalesceTarget::Object(ObjectRef::Track(id)),
            path: Some(PropPath::Gain),
        };
        proof {
            assert(!holds_text(g.live_gain_tracks@, track_id@));
        }
        match find_key(&g.last, &want) {
            Some(j) => {
                proof {
                    assert(keys_of(g.last@)[j as int] == want@);
                }
                Some(g.automation_pass)
            },
            None => None,
        }
    }

    /// Whether the user has an active gain drag on `track_id` right now.
    pub fn is_track_gain_touched(&self, track_id: &str) -> (b: bool)
        ensures
            b == (self.open matches Some(g) && touches_gain(g, track_id@)),
    {
        self.track_gain_touch_pass(track_id).is_some()
    }

    /// When a gesture of `actor` is open: records `track_ids` (each once)
    /// as live automation input and returns its automation pass, for the
    /// caller to run its live writes under. `None`, with nothing changed,
    /// otherwise.
    pub fn control_live_track_gains(&mut self, actor: &Actor, track_ids: &Vec<String>) -> (r: Option<u64>)
        ensures
            match old(self).open {
                Some(g) if g.actor@ == actor@ => {
                    &&& r == Some(g.automation_pass)
                    &&& final(self).open is Some
                    &&& final(self).open->0 == (OpenGesture { live_gain_tracks: final(self).open->0.live_gain_tracks, ..g })
                    &&& forall|t: Seq<char>| #[trigger] holds_text(final(self).open->0.live_gain_tracks@, t)
                        <==> (holds_text(g.live_gain_tracks@, t) || holds_text(track_ids@, t))
                },
                _ => r is None && *final(self) == *old(self),
            },
    {
        let g = match &mut self.open {
            Some(g) => g,
            None => return None,
        };
        if !g.actor.same_as(actor) {
            return None;
        }
        let ghost g0 = *g;
        let mut i: usize = 0;
        while i < track_ids.len()
            invariant
                i <= track_ids@.len(),
                *g == (OpenGesture { live_gain_tracks: g.live_gain_tracks, ..g0 }),
                forall|t: Seq<char>| #[trigger] holds_text(g.live_gain_tracks@, t)
                    <==> (holds_text(g0.live_gain_tracks@, t) || holds_text(track_ids@.subrange(0, i as int), t)),
            decreases track_ids.len() - i,
        {
            let id = &track_ids[i];
            let mut present = false;
            let mut j: usize = 0;
            while j < g.live_gain_tracks.len()
                invariant
                    j <= g.live_gain_tracks@.len(),
                    present ==> holds_text(g.live_gain_tracks@, id@),
                decreases g.live_gain_tracks.len() - j,
            {
                if g.live_gain_tracks[j] == *id {
                    present = true;
                }
                j = j + 1;
            }
            let ghost before = g.live_gain_tracks@;
            if !present {
                g.live_gain_tracks.push(id.clone());
            }
            proof {
                assert forall|t: Seq<char>| #[trigger] holds_text(g.live_gain_tracks@, t)
                    <==> (holds_text(g0.live_gain_tracks@, t) || holds_text(track_ids@.subrange(0, i + 1), t)) by {
                    let pre = track_ids@.subrange(0, i as int);
                    let post = track_ids@.subrange(0, i + 1);
                    if holds_text(post, t) {
                        let a = choose|a: int| 0 <= a < post.len() && #[trigger] post[a]@ == t;
                        if a == i {
                            if !present {
                                assert(g.live_gain_tracks@[before.len() as int]@ == t);
                            }
                        } else {
                            assert(pre[a]@ == t);
                        }
                    }
                    if holds_text(pre, t) {
                        let a = choose|a: int| 0 <= a < pre.len() && #[trigger] pre[a]@ == t;
                        assert(post[a]@ == t);
                    }
                    if holds_text(g.live_gain_tracks@, t) {
                        let a = choose|a: int| 0 <= a < g.live_gain_tracks@.len() && #[trigger] g.live_gain_tracks@[a]@ == t;
                        if a < before.len() {
                            assert(before[a]@ == t);
                        } else {
                            assert(post[i as int]@ == t);
                        }
                    }
                    if holds_text(before, t) {
                        let a = choose|a: int| 0 <= a < before.len() && #[trigger] before[a]@ == t;
                        assert(g.live_gain_tracks@[a]@ == t);
                    }
                }
            }
            i = i + 1;
        }
        proof {
            assert(track_ids@.subrange(0, track_ids@.len() as int) =~= track_ids@);
        }
        Some(g.automation_pass)
    }

    /// Opens a new gesture with a fresh run id, handing back the one that
    /// was open (if any) for the caller to finish.
    pub fn begin(&mut self, label: String, actor: Actor, automation_pass: u64) -> (r: (String, Option<OpenGesture>))
        ensures
            r.1 == old(self).open,
            final(self).open matches Some(g) && {
                &&& g.run == r.0
                &&& g.run@.len() == 36
                &&& g.actor == actor
                &&& g.label == label
                &&& g.automation_pass == automation_pass
                &&& g.baselines@.len() == 0
                &&& g.last@.len() == 0
                &&& g.live_gain_tracks@.len() == 0
                &&& g.persist.is_empty()
                &&& g.epoch == 0
                &&& g.wf()
            },
    {
        let stale = self.open.take();
        let run = fresh_id();
        let g = OpenGesture {
            actor,
            run: run.clone(),
            baselines: Vec::new(),
            last: Vec::new(),
            label,
            live_gain_tracks: Vec::new(),
            automation_pass,
            persist: PersistEffect::none(),
            epoch: 0,
        };
        proof {
            assert(keys_of(g.baselines@) =~= keys_of(g.last@));
            assert(g.state().keys =~= Seq::<KeyView>::empty());
        }
        self.open = Some(g);
        (run, stale)
    }

    /// Closes the open gesture and hands it back. With `id` given and not
    /// the open gesture's run id, leaves it open and returns `None`.
    pub fn end(&mut self, id: Option<&str>) -> (r: Option<OpenGesture>)
        ensures
            match (id, old(self).open) {
                (Some(want), Some(g)) if g.run@ != want@ => r is None && final(self).open == old(self).open,
                _ => r == old(self).open && final(self).open is None,
            },
    {
        if let Some(want) = id {
            if let Some(g) = &self.open {
                let w = String::from_str(want);
                if !(g.run == w) {
                    return None;
                }
            }
        }
        self.open.take()
    }

    /// Whether a commit by `actor` folds into the open gesture.
    pub fn accepts(&self, actor: &Actor) -> (b: bool)
        ensures
            b == (self.open matches Some(g) && g.actor@ == actor@),
    {
        match &self.open {
            Some(g) => g.actor.same_as(actor),
            None => false,
        }
    }

    /// Folds a just-committed batch into the open gesture when `actor`
    /// matches it; returns whether it did. The commit's persist joins the
    /// gesture's deferred persist, and its epoch becomes the gesture's.
    pub fn fold_in(&mut self, actor: &Actor, committed: Committed) -> (folded: bool)
        requires
            old(self).wf(),
        ensures
            final(self).wf(),
            folded == (old(self).open matches Some(g) && g.actor@ == actor@),
            !folded ==> *final(self) == *old(self),
            folded ==> (old(self).open matches Some(g) && final(self).open matches Some(h) && {
                let n = if committed.ops@.len() <= committed.inverses@.len() {
                    committed.ops@.len()
                } else {
                    committed.inverses@.len()
                };
                &&& h.state() == fold_all(g.state(), committed.ops@, committed.inverses@, n as nat)
                &&& h.actor == g.actor
                &&& h.run == g.run
                &&& h.label == g.label
                &&& h.live_gain_tracks == g.live_gain_tracks
                &&& h.automation_pass == g.automation_pass
                &&& h.epoch == committed.epoch
                &&& h.persist.midi == (g.persist.midi || committed.persist.midi)
                &&& h.persist.project == (g.persist.project || committed.persist.project)
                &&& h.persist.automation == (g.persist.automation || committed.persist.automation)
                &&& h.persist.modulation == (g.persist.modulation || committed.persist.modulation)
                &&& h.persist.plugins == (g.persist.plugins || committed.persist.plugins)
            }),
    {
        if !self.accepts(actor) {
            return false;
        }
        let mut g = self.open.take().unwrap();
        fold_committed(&mut g, committed);
        self.open = Some(g);
        true
    }

    /// Closes `g` into what the caller executes: the synthesized batch
    /// (forward ops in first-seen key order, inverses in reverse, the
    /// gesture's own run and label, non-transient), or no batch when the
    /// gesture folded nothing; plus its deferred persist and live faders.
    pub fn close(g: OpenGesture) -> (c: ClosedGesture)
        requires
            g.wf(),
        ensures
            c.persist == g.persist,
            c.epoch == g.epoch,
            c.live_gain_tracks == g.live_gain_tracks,
            c.automation_pass == g.automation_pass,
            c.batch is None <==> g.last@.len() == 0,
            c.batch matches Some(b) ==> {
                &&& b.ops@ == ops_of(g.last@)
                &&& b.inverses@ == ops_of(g.baselines@).reverse()
                &&& b.meta == (TxMeta { actor: g.actor, run: g.run, label: g.label, transient: false })
            },
    {
        let OpenGesture { actor, run, baselines, last, label, live_gain_tracks, automation_pass, persist, epoch } = g;
        if last.len() == 0 {
            return ClosedGesture { batch: None, persist, epoch, live_gain_tracks, automation_pass };
        }
        // Inverses: the baselines, last key first; forward ops: the last
        // ops, first key first.
        let inverses = entry_ops_reversed(baselines);
        let ghost lasts0 = ops_of(last@);
        let ops = reversed_ops(entry_ops_reversed(last));
        assert(lasts0.reverse().reverse() =~= lasts0);
        let meta = TxMeta { actor, run, label, transient: false };
        ClosedGesture {
            batch: Some(GestureBatch { ops, inverses, meta }),
            persist,
            epoch,
            live_gain_tracks,
            automation_pass,
        }
    }
}

/// Folds one committed batch into `g`: for each (op, inverse) pair with a
/// coalesce key, the first inverse per key becomes its baseline (never
/// overwritten again) and the op becomes its last forward op.
fn fold_committed(g: &mut OpenGesture, committed: Committed)
    requires
        old(g).wf(),
    ensures
        final(g).wf(),
        ({
            let n = if committed.ops@.len() <= committed.inverses@.len() {
                committed.ops@.len()
            } else {
                committed.inverses@.len()
            };
            final(g).state() == fold_all(old(g).state(), committed.ops@, committed.inverses@, n as nat)
        }),
        final(g).actor == old(g).actor,
        final(g).run == old(g).run,
        final(g).label == old(g).label,
        final(g).live_gain_tracks == old(g).live_gain_tracks,
        final(g).automation_pass == old(g).automation_pass,
        final(g).epoch == committed.epoch,
        final(g).persist.midi == (old(g).persist.midi || committed.persist.midi),
        final(g).persist.project == (old(g).persist.project || committed.persist.project),
        final(g).persist.automation == (old(g).persist.automation || committed.persist.automation),
        final(g).persist.modulation == (old(g).persist.modulation || committed.persist.modulation),
        final(g).persist.plugins == (old(g).persist.plugins || committed.persist.plugins),
{
    let Committed { rev: _, epoch, ops, inverses, meta: _, persist } = committed;
    g.persist.merge(&persist);
    g.epoch = epoch;
    let ghost s0 = g.state();
    let ghost all_ops = ops@;
    let ghost all_invs = inverses@;
    let n: usize = if ops.len() <= inverses.len() { ops.len() } else { inverses.len() };
    let mut ops = ops;
    let mut inverses = inverses;
    let mut i: usize = 0;
    while i < n
        invariant
            i <= n,
            n <= all_ops.len(),
            n <= all_invs.len(),
            ops@ == all_ops.subrange(i as int, all_ops.len() as int),
            inverses@ == all_invs.subrange(i as int, all_invs.len() as int),
            g.wf(),
            g.state() == fold_all(s0, all_ops, all_invs, i as nat),
            g.actor == old(g).actor,
            g.run == old(g).run,
            g.label == old(g).label,
            g.live_gain_tracks == old(g).live_gain_tracks,
            g.automation_pass == old(g).automation_pass,
            g.epoch == epoch,
            g.persist.midi == (old(g).persist.midi || persist.midi),
            g.persist.project == (old(g).persist.project || persist.project),
            g.persist.automation == (old(g).persist.automation || persist.automation),
            g.persist.modulation == (old(g).persist.modulation || persist.modulation),
            g.persist.plugins == (old(g).persist.plugins || persist.plugins),
        decreases n - i,
    {
        let op = ops.remove(0);
        let inv = inverses.remove(0);
        proof {
            assert(op == all_ops[i as int]);
            assert(inv == all_invs[i as int]);
            assert(ops@ =~= all_ops.subrange(i + 1, all_ops.len() as int));
            assert(inverses@ =~= all_invs.subrange(i + 1, all_invs.len() as int));
        }
        let ghost s = g.state();
        match CoalesceKey::for_op(&op) {
            None => {},
            Some(key) => {
                match find_key(&g.last, &key) {
                    Some(j) => {
                        let ghost ll = g.last@;
                        proof {
                            let c = s.keys.index_of(key@);
                            assert(s.keys[j as int] == key@);
                            assert(s.keys.contains(key@));
                            assert(s.keys[c] == key@);
                            assert(c == j);
                        }
                        g.last.set(j, (key, op));
                        proof {
                            assert(keys_of(g.last@) =~= keys_of(ll));
                            assert(ops_of(g.last@) =~= ops_of(ll).update(j as int, all_ops[i as int]));
                        }
                    },
                    None => {
                    proof {
                        assert(!s.keys.contains(key@));
                    }
                    let k2 = CoalesceKey { kind: key.kind, target: dup_target(&key.target), path: key.path };
                    let ghost lb = g.baselines@;
                    let ghost ll = g.last@;
                    g.baselines.push((k2, inv));
                    g.last.push((key, op));
                    proof {
                        assert(keys_of(g.baselines@) =~= keys_of(lb).push(key@));
                        assert(keys_of(g.last@) =~= keys_of(ll).push(key@));
                        assert(ops_of(g.baselines@) =~= ops_of(lb).push(all_invs[i as int]));
                        assert(ops_of(g.last@) =~= ops_of(ll).push(all_ops[i as int]));
                        lemma_fold_step_wf(s, all_ops[i as int], all_invs[i as int]);
                    }
                    },
                }
            },
        }
        i = i + 1;
    }
}

/// The position of `key` among the keys of `v`, if it is there.
fn find_key(v: &Vec<(CoalesceKey, Op)>, key: &CoalesceKey) -> (r: Option<usize>)
    ensures
        match r {
            Some(j) => j < v@.len() && keys_of(v@)[j as int] == key@,
            None => !keys_of(v@).contains(key@),
        },
{
    let mut j: usize = 0;
    while j < v.len()
        invariant
            j <= v@.len(),
            forall|m: int| 0 <= m < j ==> #[trigger] keys_of(v@)[m] != key@,
        decreases v.len() - j,
    {
        if v[j].0.same_as(key) {
            return Some(j);
        }
        j = j + 1;
    }
    None
}

fn dup_target(t: &CoalesceTarget) -> (r: CoalesceTarget)
    ensures
        r@ == t@,
{
    match t {
        CoalesceTarget::Object(o) => CoalesceTarget::Object(o.duplicate()),
        CoalesceTarget::AutomationLane(k) => CoalesceTarget::AutomationLane(k.clone()),
        CoalesceTarget::ModulationKey(k) => CoalesceTarget::ModulationKey(k.clone()),
        CoalesceTarget::Send(k) => CoalesceTarget::Send(k.clone()),
    }
}

} // verus!
