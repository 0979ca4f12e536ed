//! The undo/redo surface's decisions: the metadata an undo or redo commits
//! under, the "undo to here" walk over the linear undo ancestry, and the
//! browsing overview.

use vstd::prelude::*;
use crate::op::{Actor, Op, TxMeta};
use crate::text::{decimal, push_decimal};
use crate::types::{AutomationLane, Clip, MidiClip, TrackState};

verus! {

/// What `undo`/`redo` hand back: the label of the step that moved (`None`
/// when the stack was empty) plus both stack depths.
pub struct HistoryStep {
    pub label: Option<String>,
    pub undo_depth: usize,
    pub redo_depth: usize,
}

/// What a completed undo-to walk did.
pub struct UndoToOutcome {
    /// How many undo steps were applied; 0 when the target was the head.
    pub steps: usize,
    /// The label of the last step undone; `None` when `steps == 0`.
    pub label: Option<String>,
}

/// One retained revision of the version chain, as the overview lists it.
pub struct HistoryVersion {
    pub rev: u64,
    pub materialized: bool,
    pub charged_bytes: usize,
    pub label: String,
    pub actor: String,
    /// Whether the revision is on the current linear undo ancestry.
    pub on_undo_path: bool,
}

/// The history browsing overview.
pub struct HistoryOverview {
    pub undo_depth: usize,
    pub redo_depth: usize,
    pub retained_bytes: usize,
    pub materialized: usize,
    pub replay_only: usize,
    pub versions: Vec<HistoryVersion>,
    /// The document epoch these versions belong to.
    pub epoch: u64,
    /// The revision a plain undo would consume next.
    pub head_rev: Option<u64>,
}

/// One materialized revision, summarized.
pub struct HistoryVersionDetail {
    pub rev: u64,
    pub project_name: Option<String>,
    pub track_count: usize,
    pub audio_clip_count: usize,
    pub midi_clip_count: usize,
    pub automation_lane_count: usize,
}

/// Summarize a materialized revision of the document.
pub fn version_detail(
    rev: u64,
    project_name: Option<String>,
    tracks: &Vec<TrackState>,
    clips: &Vec<Clip>,
    midi_clips: &Vec<MidiClip>,
    lanes: &Vec<AutomationLane>,
) -> (d: HistoryVersionDetail)
    ensures
        d.rev == rev,
        d.project_name == project_name,
        d.track_count == tracks@.len(),
        d.audio_clip_count == clips@.len(),
        d.midi_clip_count == midi_clips@.len(),
        d.automation_lane_count == lanes@.len(),
{
    HistoryVersionDetail {
        rev,
        project_name,
        track_count: tracks.len(),
        audio_clip_count: clips.len(),
        midi_clip_count: midi_clips.len(),
        automation_lane_count: lanes.len(),
    }
}

/// The linear undo ancestry: the undo stack's revisions, oldest first, and
/// the document epoch they belong to.
pub struct UndoPath {
    pub epoch: u64,
    pub revs: Vec<u64>,
}

/// The revision a plain undo consumes next.
pub open spec fn path_head(revs: Seq<u64>) -> Option<u64> {
    if revs.len() == 0 { None } else { Some(revs.last()) }
}

impl UndoPath {
    /// The head of the ancestry (`None` when there is nothing to undo).
    pub fn head(&self) -> (h: Option<u64>)
        ensures
            h == path_head(self.revs@),
    {
        if self.revs.len() == 0 {
            None
        } else {
            Some(self.revs[self.revs.len() - 1])
        }
    }
}

/// Retained-version totals of the version chain.
pub struct VersionStats {
    pub retained_bytes: usize,
    pub materialized: usize,
    pub replay_only: usize,
}

/// One retained version as the version chain reports it.
pub struct VersionItem {
    pub rev: u64,
    pub materialized: bool,
    pub charged_bytes: usize,
    pub label: String,
    pub actor: String,
}

/// Compose the overview from the version chain's report, the stack
/// depths and the undo ancestry: every version is listed in order, marked
/// by whether its revision is on the ancestry.
pub fn history_overview(
    stats: VersionStats,
    versions: Vec<VersionItem>,
    undo_depth: usize,
    redo_depth: usize,
    path: &UndoPath,
) -> (o: HistoryOverview)
    ensures
        o.undo_depth == undo_depth,
        o.redo_depth == redo_depth,
        o.retained_bytes == stats.retained_bytes,
        o.materialized == stats.materialized,
        o.replay_only == stats.replay_only,
        o.epoch == path.epoch,
        o.head_rev == path_head(path.revs@),
        o.versions@.len() == versions@.len(),
        forall|i: int| 0 <= i < versions@.len() ==> {
            let v = #[trigger] o.versions@[i];
            &&& v.rev == versions@[i].rev
            &&& v.materialized == versions@[i].materialized
            &&& v.charged_bytes == versions@[i].charged_bytes
            &&& v.label == versions@[i].label
            &&& v.actor == versions@[i].actor
            &&& v.on_undo_path == path.revs@.contains(versions@[i].rev)
        },
{
    let ghost input = versions@;
    let mut versions = versions;
    let mut rev_out: Vec<HistoryVersion> = Vec::new();
    // Built back to front, then reversed, so each item is moved once.
    while versions.len() > 0
        invariant
            versions@.len() + rev_out@.len() == input.len(),
            versions@ == input.subrange(0, versions@.len() as int),
            forall|i: int| 0 <= i < rev_out@.len() ==> {
                let v = #[trigger] rev_out@[i];
                let w = input[input.len() - 1 - i];
                &&& v.rev == w.rev
                &&& v.materialized == w.materialized
                &&& v.charged_bytes == w.charged_bytes
                &&& v.label == w.label
                &&& v.actor == w.actor
                &&& v.on_undo_path == path.revs@.contains(w.rev)
            },
        decreases versions.len(),
    {
        let ghost before = versions@;
        let item = versions.pop().unwrap();
        proof {
            assert(item == input[before.len() - 1]);
            assert(versions@ =~= input.subrange(0, versions@.len() as int));
        }
        let on = revs_contain(&path.revs, item.rev);
        rev_out.push(HistoryVersion {
            rev: item.rev,
            materialized: item.materialized,
            charged_bytes: item.charged_bytes,
            label: item.label,
            actor: item.actor,
            on_undo_path: on,
        });
    }
    let ghost built = rev_out@;
    let mut out: Vec<HistoryVersion> = Vec::new();
    while rev_out.len() > 0
        invariant
            rev_out@.len() + out@.len() == built.len(),
            built.len() == input.len(),
            rev_out@ == built.subrange(0, rev_out@.len() as int),
            forall|i: int| 0 <= i < out@.len() ==> #[trigger] out@[i] == built[built.len() - 1 - i],
        decreases rev_out.len(),
    {
        let ghost before = rev_out@;
        let v = rev_out.pop().unwrap();
        proof {
            assert(v == built[before.len() - 1]);
            assert(rev_out@ =~= built.subrange(0, rev_out@.len() as int));
        }
        out.push(v);
    }
    proof {
        assert forall|i: int| 0 <= i < input.len() implies {
            let v = #[trigger] out@[i];
            &&& v.rev == input[i].rev
            &&& v.materialized == input[i].materialized
            &&& v.charged_bytes == input[i].charged_bytes
            &&& v.label == input[i].label
            &&& v.actor == input[i].actor
            &&& v.on_undo_path == path.revs@.contains(input[i].rev)
        } by {
            assert(out@[i] == built[built.len() - 1 - i]);
            let j = built.len() - 1 - i;
            assert(input.len() - 1 - j == i);
        }
    }
    HistoryOverview {
        undo_depth,
        redo_depth,
        retained_bytes: stats.retained_bytes,
        materialized: stats.materialized,
        replay_only: stats.replay_only,
        versions: out,
        epoch: path.epoch,
        head_rev: path.head(),
    }
}

fn first_index(revs: &Vec<u64>, rev: u64) -> (r: Option<usize>)
    ensures
        match r {
            Some(at) => at < revs@.len() && revs@[at as int] == rev && forall|j: int| 0 <= j < at ==> revs@[j] != rev,
            None => !revs@.contains(rev),
        },
{
    let mut i: usize = 0;
    while i < revs.len()
        invariant
            i <= revs@.len(),
            forall|j: int| 0 <= j < i ==> revs@[j] != rev,
        decreases revs.len() - i,
    {
        if revs[i] == rev {
            return Some(i);
        }
        i = i + 1;
    }
    None
}

fn revs_contain(revs: &Vec<u64>, rev: u64) -> (b: bool)
    ensures
        b == revs@.contains(rev),
{
    let mut i: usize = 0;
    while i < revs.len()
        invariant
            i <= revs@.len(),
            forall|j: int| 0 <= j < i ==> revs@[j] != rev,
        decreases revs.len() - i,
    {
        if revs[i] == rev {
            return true;
        }
        i = i + 1;
    }
    false
}

/// The metadata an undo of an entry commits under: a person asked for it,
/// the entry's own run is kept (an undo belongs to the run it reverses),
/// and the label reads `"undo: <label>"`.
pub fn undo_meta(entry_run: &String, entry_label: &String) -> (m: TxMeta)
    ensures
        m.actor == Actor::User,
        m.run@ == entry_run@,
        m.label@ == "undo: "@ + entry_label@,
        !m.transient,
{
    let mut label = String::from_str("undo: ");
    label.append(entry_label.as_str());
    TxMeta { actor: Actor::User, run: entry_run.clone(), label, transient: false }
}

/// The metadata a redo of an entry commits under (`"redo: <label>"`).
pub fn redo_meta(entry_run: &String, entry_label: &String) -> (m: TxMeta)
    ensures
        m.actor == Actor::User,
        m.run@ == entry_run@,
        m.label@ == "redo: "@ + entry_label@,
        !m.transient,
{
    let mut label = String::from_str("redo: ");
    label.append(entry_label.as_str());
    TxMeta { actor: Actor::User, run: entry_run.clone(), label, transient: false }
}

/// Why an undo-to walk refused to start, or stopped.
#[allow(inconsistent_fields)]
pub enum UndoToError {
    /// The document was replaced since the caller read the overview;
    /// nothing applied.
    EpochMoved { expected: u64, actual: u64 },
    /// The undo ancestry moved since the caller read the overview; nothing
    /// applied.
    HeadMoved { expected: Option<u64>, actual: Option<u64> },
    /// The target is not on the ancestry (already undone, or dropped).
    NotOnPath { target: u64 },
    /// The undo stack no longer offered the revision a step planned to
    /// consume; the `done` steps before it stay applied.
    HistoryMoved { target: u64, done: usize, steps: usize, want: u64 },
    /// A step failed; the `done` steps before it stay applied.
    StepFailed { target: u64, done: usize, steps: usize, reason: String },
}

/// The first position of `x` in `s`.
pub open spec fn first_pos(s: Seq<u64>, x: u64) -> int
    recommends
        s.contains(x),
{
    choose|i: int| 0 <= i < s.len() && s[i] == x && forall|j: int| 0 <= j < i ==> s[j] != x
}

/// The route an undo-to walk consumes: every revision ABOVE the target
/// (exclusive), highest first.
pub open spec fn undo_route(revs: Seq<u64>, target: u64) -> Seq<u64> {
    revs.subrange(first_pos(revs, target) + 1, revs.len() as int).reverse()
}

/// Plan an undo-to walk. Refuses, applying nothing, when the document
/// epoch or the ancestry head is not what the caller read, or when the
/// target is not on the ancestry; otherwise returns the route.
pub fn plan_undo_to(
    path: &UndoPath,
    target_rev: u64,
    expected_epoch: u64,
    expected_head_rev: Option<u64>,
) -> (r: Result<Vec<u64>, UndoToError>)
    ensures
        path.epoch != expected_epoch ==> (r matches Err(UndoToError::EpochMoved { expected, actual })
            && expected == expected_epoch && actual == path.epoch),
        path.epoch == expected_epoch && path_head(path.revs@) != expected_head_rev ==> (r matches Err(
            UndoToError::HeadMoved { expected, actual },
        ) && expected == expected_head_rev && actual == path_head(path.revs@)),
        path.epoch == expected_epoch && path_head(path.revs@) == expected_head_rev && !path.revs@.contains(target_rev)
            ==> (r matches Err(UndoToError::NotOnPath { target }) && target == target_rev),
        r is Ok <==> (path.epoch == expected_epoch && path_head(path.revs@) == expected_head_rev
            && path.revs@.contains(target_rev)),
        r matches Ok(route) ==> route@ == undo_route(path.revs@, target_rev),
{
    if path.epoch != expected_epoch {
        return Err(UndoToError::EpochMoved { expected: expected_epoch, actual: path.epoch });
    }
    let head = path.head();
    if head != expected_head_rev {
        return Err(UndoToError::HeadMoved { expected: expected_head_rev, actual: head });
    }
    let revs = &path.revs;
    let at = match first_index(revs, target_rev) {
        Some(at) => at,
        None => return Err(UndoToError::NotOnPath { target: target_rev }),
    };
    proof {
        assert(revs@[at as int] == target_rev);
        let p = first_pos(revs@, target_rev);
        assert(0 <= at < revs@.len() && revs@[at as int] == target_rev
            && forall|j: int| 0 <= j < at ==> revs@[j] != target_rev);
        assert(p == at as int) by {
            assert(0 <= p < revs@.len() && revs@[p] == target_rev && forall|j: int| 0 <= j < p ==> revs@[j] != target_rev);
            if p < at {
            } else if p > at {
                assert(revs@[at as int] != target_rev);
            }
        }
    }
    let ghost above = revs@.subrange(at + 1, revs@.len() as int);
    let mut route: Vec<u64> = Vec::new();
    let mut k: usize = revs.len();
    while k > at + 1
        invariant
            at + 1 <= k <= revs@.len(),
            route@.len() == revs@.len() - k,
            above == revs@.subrange(at + 1, revs@.len() as int),
            route@ == above.reverse().subrange(0, route@.len() as int),
        decreases k,
    {
        k = k - 1;
        proof {
            assert(above.reverse()[route@.len() as int] == above[above.len() - 1 - route@.len()]);
        }
        route.push(revs[k]);
        proof {
            assert(route@ =~= above.reverse().subrange(0, route@.len() as int));
        }
    }
    assert(route@ =~= above.reverse());
    Ok(route)
}

/// How one step of a walk came back.
pub enum WalkStep {
    /// The planned revision was undone; its entry's label.
    Undone(String),
    /// The undo stack did not offer the planned revision.
    NotOffered,
    /// The step's commit (or its epoch check) failed.
    Failed(String),
}

/// An undo-to walk in progress over a planned route.
pub struct UndoWalk {
    pub target: u64,
    pub route: Vec<u64>,
    /// How many steps have been applied.
    pub done: usize,
    /// The label of the last step applied.
    pub label: Option<String>,
}

impl UndoWalk {
    /// The walk's label is set exactly when some step was applied.
    pub open spec fn label_tracks_steps(&self) -> bool {
        self.label is None <==> self.done == 0
    }

    /// A walk over `route` that has applied nothing yet.
    pub fn start(target: u64, route: Vec<u64>) -> (w: UndoWalk)
        ensures
            w.target == target,
            w.route == route,
            w.done == 0,
            w.label is None,
            w.label_tracks_steps(),
    {
        UndoWalk { target, route, done: 0, label: None }
    }

    /// The revision the next step must consume, or `None` when the walk is
    /// complete.
    pub fn next_want(&self) -> (r: Option<u64>)
        ensures
            r == (if self.done < self.route@.len() { Some(self.route@[self.done as int]) } else { None }),
    {
        if self.done < self.route.len() {
            Some(self.route[self.done])
        } else {
            None
        }
    }

    /// Record how the step for the next planned revision came back. An
    /// applied step advances the walk; anything else stops it with the
    /// error that says how many of how many steps stay applied.
    pub fn record(&mut self, step: WalkStep) -> (r: Result<(), UndoToError>)
        requires
            old(self).done < old(self).route@.len(),
        ensures
            final(self).target == old(self).target,
            final(self).route == old(self).route,
            !(step is Undone) ==> final(self).label == old(self).label,
            old(self).label_tracks_steps() ==> final(self).label_tracks_steps(),
            match step {
                WalkStep::Undone(l) => r is Ok && final(self).done == old(self).done + 1 && final(self).label == Some(l),
                WalkStep::NotOffered => final(self).done == old(self).done && (r matches Err(
                    UndoToError::HistoryMoved { target, done, steps, want },
                ) && target == old(self).target && done == old(self).done && steps == old(self).route@.len()
                    && want == old(self).route@[old(self).done as int]),
                WalkStep::Failed(e) => final(self).done == old(self).done && (r matches Err(
                    UndoToError::StepFailed { target, done, steps, reason },
                ) && target == old(self).target && done == old(self).done && steps == old(self).route@.len()
                    && reason == e),
            },
    {
        match step {
            WalkStep::Undone(l) => {
                let n = self.route.len();
                assert(self.done < n);
                self.done = self.done + 1;
                self.label = Some(l);
                Ok(())
            },
            WalkStep::NotOffered => Err(
                UndoToError::HistoryMoved {
                    target: self.target,
                    done: self.done,
                    steps: self.route.len(),
                    want: self.route[self.done],
                },
            ),
            WalkStep::Failed(e) => Err(
                UndoToError::StepFailed { target: self.target, done: self.done, steps: self.route.len(), reason: e },
            ),
        }
    }

    /// The outcome of a completed walk.
    pub fn finish(self) -> (o: UndoToOutcome)
        requires
            self.done == self.route@.len(),
        ensures
            o.steps == self.route@.len(),
            o.label == self.label,
            self.label_tracks_steps() ==> (o.label is None <==> o.steps == 0),
    {
        UndoToOutcome { steps: self.done, label: self.label }
    }
}

/// One step's epoch guard: a popped entry whose epoch is not the one the
/// walk validated belongs to a replaced document, and the step refuses.
pub fn walk_step_epoch_ok(popped_epoch: u64, expected_epoch: u64) -> (ok: bool)
    ensures
        ok == (popped_epoch == expected_epoch),
{
    popped_epoch == expected_epoch
}

/// THE WALK LAW: a walk that applies every planned step undoes exactly the
/// revisions above the target, highest first, and reports that count; in
/// particular, targeting the head is a successful walk of zero steps.
pub proof fn lemma_undo_to_route(revs: Seq<u64>, target: u64)
    requires
        revs.contains(target),
    ensures
        undo_route(revs, target).len() == revs.len() - 1 - first_pos(revs, target),
        forall|i: int| 0 <= i < undo_route(revs, target).len() ==>
            #[trigger] undo_route(revs, target)[i] == revs[revs.len() - 1 - i],
        !undo_route(revs, target).contains(target) || !revs.no_duplicates(),
        path_head(revs) == Some(target) && revs.no_duplicates() ==> undo_route(revs, target).len() == 0,
{
    let p = first_pos(revs, target);
    let w = choose|w: int| 0 <= w < revs.len() && revs[w] == target;
    assert(exists|i: int| 0 <= i < revs.len() && revs[i] == target && forall|j: int| 0 <= j < i ==> revs[j] != target) by {
        lemma_first_occurrence(revs, target, w);
    }
    let route = undo_route(revs, target);
    assert forall|i: int| 0 <= i < route.len() implies #[trigger] route[i] == revs[revs.len() - 1 - i] by {}
    if revs.no_duplicates() && route.contains(target) {
        let i = choose|i: int| 0 <= i < route.len() && route[i] == target;
        assert(revs[revs.len() - 1 - i] == target);
        assert(revs[p] == target);
    }
    if path_head(revs) == Some(target) && revs.no_duplicates() {
        assert(revs[revs.len() - 1] == target);
        assert(revs[p] == target);
    }
}

proof fn lemma_first_occurrence(s: Seq<u64>, x: u64, w: int)
    requires
        0 <= w < s.len(),
        s[w] == x,
    ensures
        exists|i: int| 0 <= i < s.len() && s[i] == x && forall|j: int| 0 <= j < i ==> s[j] != x,
    decreases w,
{
    if exists|j: int| 0 <= j < w && s[j] == x {
        let j = choose|j: int| 0 <= j < w && s[j] == x;
        lemma_first_occurrence(s, x, j);
    }
}

// ---------------------------------------------------------------------------
// Undo and redo stacks
// ---------------------------------------------------------------------------

/// One undoable step as history keeps it: the ops a redo replays and the
/// inverses an undo replays, with the revision, document epoch, run and
/// label of the commit that made it.
pub struct HistoryEntry {
    pub rev: u64,
    pub epoch: u64,
    pub run: String,
    pub label: String,
    pub ops: Vec<Op>,
    pub inverses: Vec<Op>,
}

/// The undo and redo stacks, tops last.
pub struct UndoStacks {
    pub undo: Vec<HistoryEntry>,
    pub redo: Vec<HistoryEntry>,
}

/// Both stacks, by value.
pub struct StacksView {
    pub undo: Seq<HistoryEntry>,
    pub redo: Seq<HistoryEntry>,
}

impl View for UndoStacks {
    type V = StacksView;

    open spec fn view(&self) -> StacksView {
        StacksView { undo: self.undo@, redo: self.redo@ }
    }
}

/// A new edit: it goes on the undo stack and the redo future is gone.
pub open spec fn stacks_after_record(s: StacksView, e: HistoryEntry) -> StacksView {
    StacksView { undo: s.undo.push(e), redo: Seq::empty() }
}

/// Taking the top of the undo stack for an undo, if there is one.
pub open spec fn stacks_after_take_undo(s: StacksView) -> (Option<HistoryEntry>, StacksView) {
    if s.undo.len() == 0 {
        (None, s)
    } else {
        (Some(s.undo.last()), StacksView { undo: s.undo.drop_last(), redo: s.redo })
    }
}

/// Taking the top of the undo stack only when it is the revision `want`
/// (an undo-to walk consumes exactly the revisions it planned).
pub open spec fn stacks_after_take_undo_if(s: StacksView, want: u64) -> (Option<HistoryEntry>, StacksView) {
    if s.undo.len() > 0 && s.undo.last().rev == want {
        stacks_after_take_undo(s)
    } else {
        (None, s)
    }
}

/// Settling a taken undo: a replayed entry moves to the redo stack; one
/// whose replay failed goes back on the undo stack untouched.
pub open spec fn stacks_after_settle_undo(s: StacksView, e: HistoryEntry, replayed: bool) -> StacksView {
    if replayed {
        StacksView { undo: s.undo, redo: s.redo.push(e) }
    } else {
        StacksView { undo: s.undo.push(e), redo: s.redo }
    }
}

/// Taking the top of the redo stack for a redo, if there is one.
pub open spec fn stacks_after_take_redo(s: StacksView) -> (Option<HistoryEntry>, StacksView) {
    if s.redo.len() == 0 {
        (None, s)
    } else {
        (Some(s.redo.last()), StacksView { undo: s.undo, redo: s.redo.drop_last() })
    }
}

/// Settling a taken redo: a replayed entry moves back to the undo stack
/// (without clearing the redo stack — only a new edit does that); one
/// whose replay failed goes back on the redo stack.
pub open spec fn stacks_after_settle_redo(s: StacksView, e: HistoryEntry, replayed: bool) -> StacksView {
    if replayed {
        StacksView { undo: s.undo.push(e), redo: s.redo }
    } else {
        StacksView { undo: s.undo, redo: s.redo.push(e) }
    }
}

impl UndoStacks {
    /// Empty stacks.
    pub fn new() -> (s: UndoStacks)
        ensures
            s@.undo.len() == 0,
            s@.redo.len() == 0,
    {
        UndoStacks { undo: Vec::new(), redo: Vec::new() }
    }

    /// Forget everything: a replaced document is a new history root.
    pub fn clear(&mut self)
        ensures
            final(self)@.undo.len() == 0,
            final(self)@.redo.len() == 0,
    {
        self.undo = Vec::new();
        self.redo = Vec::new();
    }

    /// Record a new edit.
    pub fn record(&mut self, e: HistoryEntry)
        ensures
            final(self)@ == stacks_after_record(old(self)@, e),
    {
        self.undo.push(e);
        self.redo = Vec::new();
    }

    /// Take the entry an undo replays (the top of the undo stack).
    pub fn take_undo(&mut self) -> (r: Option<HistoryEntry>)
        ensures
            (r, final(self)@) == stacks_after_take_undo(old(self)@),
    {
        self.undo.pop()
    }

    /// Take the top of the undo stack only if it is the revision `want`.
    pub fn take_undo_if(&mut self, want: u64) -> (r: Option<HistoryEntry>)
        ensures
            (r, final(self)@) == stacks_after_take_undo_if(old(self)@, want),
    {
        let n = self.undo.len();
        if n > 0 && self.undo[n - 1].rev == want {
            self.undo.pop()
        } else {
            None
        }
    }

    /// Settle a taken undo once its inverses were (or failed to be)
    /// replayed.
    pub fn settle_undo(&mut self, e: HistoryEntry, replayed: bool)
        ensures
            final(self)@ == stacks_after_settle_undo(old(self)@, e, replayed),
    {
        if replayed {
            self.redo.push(e);
        } else {
            self.undo.push(e);
        }
    }

    /// Take the entry a redo replays (the top of the redo stack).
    pub fn take_redo(&mut self) -> (r: Option<HistoryEntry>)
        ensures
            (r, final(self)@) == stacks_after_take_redo(old(self)@),
    {
        self.redo.pop()
    }

    /// Settle a taken redo once its ops were (or failed to be) replayed.
    pub fn settle_redo(&mut self, e: HistoryEntry, replayed: bool)
        ensures
            final(self)@ == stacks_after_settle_redo(old(self)@, e, replayed),
    {
        if replayed {
            self.undo.push(e);
        } else {
            self.redo.push(e);
        }
    }

    /// The label of a settled step and both depths, as `undo`/`redo` report
    /// them.
    pub fn step_report(&self, label: Option<String>) -> (h: HistoryStep)
        ensures
            h.label == label,
            h.undo_depth == self@.undo.len(),
            h.redo_depth == self@.redo.len(),
    {
        HistoryStep { label, undo_depth: self.undo.len(), redo_depth: self.redo.len() }
    }
}

/// The refusal of a replayed step whose entry belongs to another document
/// than the one now open.
pub open spec fn replay_epoch_text(entry_epoch: u64, epoch_now: u64) -> Seq<char> {
    "document changed under undo/redo (epoch "@ + decimal(entry_epoch as nat) + " -> "@
        + decimal(epoch_now as nat) + ") \u{2014} nothing applied"@
}

/// The epoch guard of a plain undo or redo, checked inside its
/// transaction: the popped entry must belong to the open document.
pub fn replay_epoch_check(entry_epoch: u64, epoch_now: u64) -> (r: Result<(), String>)
    ensures
        r is Ok <==> entry_epoch == epoch_now,
        r matches Err(m) ==> m@ == replay_epoch_text(entry_epoch, epoch_now),
{
    if entry_epoch == epoch_now {
        return Ok(());
    }
    let mut m = String::from_str("document changed under undo/redo (epoch ");
    push_decimal(&mut m, entry_epoch);
    m.append(" -> ");
    push_decimal(&mut m, epoch_now);
    m.append(") \u{2014} nothing applied");
    Err(m)
}

impl UndoStacks {
    /// Start a plain undo: take the top entry and the metadata its
    /// inverses commit under; `None` when there is nothing to undo (not an
    /// error).
    pub fn begin_undo(&mut self) -> (r: Option<(HistoryEntry, TxMeta)>)
        ensures
            ({
                let (e, t) = stacks_after_take_undo(old(self)@);
                &&& final(self)@ == t
                &&& match r {
                    Some((x, m)) => e == Some(x) && m.actor == Actor::User && m.run@ == x.run@
                        && m.label@ == "undo: "@ + x.label@ && !m.transient,
                    None => e is None,
                }
            }),
    {
        match self.take_undo() {
            Some(e) => {
                let m = undo_meta(&e.run, &e.label);
                Some((e, m))
            },
            None => None,
        }
    }

    /// Finish a plain undo once its transaction came back: a replayed
    /// entry moves to the redo stack and its label is reported; a failed
    /// one goes back untouched and the failure is passed on.
    pub fn finish_undo(&mut self, e: HistoryEntry, outcome: Result<(), String>) -> (r: Result<Option<String>, String>)
        ensures
            final(self)@ == stacks_after_settle_undo(old(self)@, e, outcome is Ok),
            match outcome {
                Ok(()) => r matches Ok(Some(l)) && l@ == e.label@,
                Err(m) => r == Err::<Option<String>, String>(m),
            },
    {
        let label = e.label.clone();
        match outcome {
            Ok(()) => {
                self.settle_undo(e, true);
                Ok(Some(label))
            },
            Err(m) => {
                self.settle_undo(e, false);
                Err(m)
            },
        }
    }

    /// Start a plain redo: take the top of the redo stack and the metadata
    /// its ops commit under; `None` when there is nothing to redo.
    pub fn begin_redo(&mut self) -> (r: Option<(HistoryEntry, TxMeta)>)
        ensures
            ({
                let (e, t) = stacks_after_take_redo(old(self)@);
                &&& final(self)@ == t
                &&& match r {
                    Some((x, m)) => e == Some(x) && m.actor == Actor::User && m.run@ == x.run@
                        && m.label@ == "redo: "@ + x.label@ && !m.transient,
                    None => e is None,
                }
            }),
    {
        match self.take_redo() {
            Some(e) => {
                let m = redo_meta(&e.run, &e.label);
                Some((e, m))
            },
            None => None,
        }
    }

    /// Finish a plain redo: a replayed entry moves back to the undo stack
    /// (the redo stack is not cleared); a failed one goes back on the redo
    /// stack.
    pub fn finish_redo(&mut self, e: HistoryEntry, outcome: Result<(), String>) -> (r: Result<Option<String>, String>)
        ensures
            final(self)@ == stacks_after_settle_redo(old(self)@, e, outcome is Ok),
            match outcome {
                Ok(()) => r matches Ok(Some(l)) && l@ == e.label@,
                Err(m) => r == Err::<Option<String>, String>(m),
            },
    {
        let label = e.label.clone();
        match outcome {
            Ok(()) => {
                self.settle_redo(e, true);
                Ok(Some(label))
            },
            Err(m) => {
                self.settle_redo(e, false);
                Err(m)
            },
        }
    }
}

/// An undo whose replay fails leaves history exactly as it was, and so
/// does a failed redo.
pub proof fn lemma_failed_step_changes_nothing(s: StacksView)
    ensures
        ({
            let (e, t) = stacks_after_take_undo(s);
            e matches Some(x) ==> stacks_after_settle_undo(t, x, false) == s
        }),
        ({
            let (e, t) = stacks_after_take_redo(s);
            e matches Some(x) ==> stacks_after_settle_redo(t, x, false) == s
        }),
{
    if s.undo.len() > 0 {
        assert(s.undo.drop_last().push(s.undo.last()) =~= s.undo);
    }
    if s.redo.len() > 0 {
        assert(s.redo.drop_last().push(s.redo.last()) =~= s.redo);
    }
}

/// Redo undoes an undo: after a successful undo, a successful redo
/// replays the same entry and puts both stacks back as they were; and
/// undo undoes a redo the same way.
pub proof fn lemma_redo_reverses_undo(s: StacksView)
    ensures
        ({
            let (e, t) = stacks_after_take_undo(s);
            e matches Some(x) ==> {
                let u = stacks_after_settle_undo(t, x, true);
                let (e2, v) = stacks_after_take_redo(u);
                &&& e2 == Some(x)
                &&& stacks_after_settle_redo(v, x, true) == s
            }
        }),
        ({
            let (e, t) = stacks_after_take_redo(s);
            e matches Some(x) ==> {
                let u = stacks_after_settle_redo(t, x, true);
                let (e2, v) = stacks_after_take_undo(u);
                &&& e2 == Some(x)
                &&& stacks_after_settle_undo(v, x, true) == s
            }
        }),
{
    if s.undo.len() > 0 {
        assert(s.undo.drop_last().push(s.undo.last()) =~= s.undo);
        assert(s.redo.push(s.undo.last()).drop_last() =~= s.redo);
    }
    if s.redo.len() > 0 {
        assert(s.redo.drop_last().push(s.redo.last()) =~= s.redo);
        assert(s.undo.push(s.redo.last()).drop_last() =~= s.undo);
    }
}

/// The revisions of a stack of entries, bottom first.
pub open spec fn entry_revs(s: Seq<HistoryEntry>) -> Seq<u64> {
    s.map_values(|e: HistoryEntry| e.rev)
}

/// The stacks after an undo-to walk over `route`: each step takes the
/// planned revision off the undo stack and, its inverses replayed, moves
/// it to the redo stack. A step whose revision is not on top stops the
/// walk.
pub open spec fn stacks_after_walk(s: StacksView, route: Seq<u64>) -> StacksView
    decreases route.len(),
{
    if route.len() == 0 {
        s
    } else {
        let (e, t) = stacks_after_take_undo_if(s, route[0]);
        match e {
            Some(x) => stacks_after_walk(stacks_after_settle_undo(t, x, true), route.drop_first()),
            None => s,
        }
    }
}

proof fn lemma_walk_above(s: StacksView, m: int)
    requires
        0 <= m <= s.undo.len(),
    ensures
        stacks_after_walk(s, entry_revs(s.undo).subrange(m, s.undo.len() as int).reverse()) == (StacksView {
            undo: s.undo.subrange(0, m),
            redo: s.redo + s.undo.subrange(m, s.undo.len() as int).reverse(),
        }),
    decreases s.undo.len() - m,
{
    let n = s.undo.len() as int;
    let revs = entry_revs(s.undo);
    let route = revs.subrange(m, n).reverse();
    if m == n {
        assert(route.len() == 0);
        assert(s.undo.subrange(0, m) =~= s.undo);
        assert(s.redo + s.undo.subrange(m, n).reverse() =~= s.redo);
    } else {
        let last = s.undo.last();
        assert(route[0] == revs[n - 1]);
        assert(revs[n - 1] == last.rev);
        let u = StacksView { undo: s.undo.drop_last(), redo: s.redo.push(last) };
        assert(stacks_after_take_undo_if(s, route[0]) == (Some(last), StacksView { undo: s.undo.drop_last(), redo: s.redo }));
        assert(stacks_after_settle_undo(StacksView { undo: s.undo.drop_last(), redo: s.redo }, last, true) == u);
        assert(route.drop_first() =~= entry_revs(u.undo).subrange(m, n - 1).reverse());
        lemma_walk_above(u, m);
        assert(u.undo.subrange(0, m) =~= s.undo.subrange(0, m));
        assert(u.redo + u.undo.subrange(m, n - 1).reverse() =~= s.redo + s.undo.subrange(m, n).reverse());
    }
}

/// THE UNDO-TO LAW, on the stacks: a walk whose every step replays undoes
/// exactly the entries above the target, so the target becomes the head of
/// the undo stack (it stays applied), and the redo stack grows by one entry
/// per step, the undone entries in the order they were undone.
pub proof fn lemma_undo_to_walk(s: StacksView, target: u64)
    requires
        entry_revs(s.undo).contains(target),
    ensures
        ({
            let revs = entry_revs(s.undo);
            let at = first_pos(revs, target);
            let w = stacks_after_walk(s, undo_route(revs, target));
            &&& w.undo == s.undo.subrange(0, at + 1)
            &&& w.undo.last().rev == target
            &&& w.redo == s.redo + s.undo.subrange(at + 1, s.undo.len() as int).reverse()
            &&& w.redo.len() == s.redo.len() + undo_route(revs, target).len()
        }),
{
    let revs = entry_revs(s.undo);
    let w0 = choose|w: int| 0 <= w < revs.len() && revs[w] == target;
    lemma_first_occurrence(revs, target, w0);
    let at = first_pos(revs, target);
    lemma_walk_above(s, at + 1);
    assert(s.undo.subrange(0, at + 1).last() == s.undo[at]);
}

/// A new edit invalidates the redo future: nothing is left to redo.
pub proof fn lemma_record_clears_redo(s: StacksView, e: HistoryEntry)
    ensures
        stacks_after_record(s, e).redo.len() == 0,
        stacks_after_take_redo(stacks_after_record(s, e)).0 is None,
        stacks_after_record(s, e).undo.last() == e,
{
}

} // verus!
