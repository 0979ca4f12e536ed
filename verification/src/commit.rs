//! The commit path's decisions once the session has applied a batch: which
//! effects run, whether the batch is journaled, and what a deferred
//! persist may still write when it finally runs.

use vstd::prelude::*;
use crate::gesture::{Committed, PersistEffect};

verus! {

/// What the commit path does after the session applied a batch, in this
/// order: host round-trips, the graph rebuild, persistence, the journal
/// line, the `project://changed` event.
pub struct CommitFollowUp {
    pub forward_to_hosts: bool,
    pub rebuild: bool,
    pub persist: bool,
    pub journal: bool,
    pub emit_project_changed: bool,
}

/// Decide the follow-up of a committed batch. Persistence runs unless the
/// caller defers it (a gesture persists once, at its close) or there is
/// nothing to persist; a transient batch is never journaled, and neither is
/// a batch that folded to no ops (it leaves no journal line and no undo
/// step).
pub fn commit_follow_up(
    c: &Committed,
    has_host_forwards: bool,
    needs_rebuild: bool,
    emit_project_changed: bool,
    defer_persist: bool,
) -> (f: CommitFollowUp)
    ensures
        f.forward_to_hosts == has_host_forwards,
        f.rebuild == needs_rebuild,
        f.persist == (!defer_persist && !c.persist.is_empty()),
        f.journal == (!c.meta.transient && c.ops@.len() > 0),
        f.emit_project_changed == emit_project_changed,
{
    CommitFollowUp {
        forward_to_hosts: has_host_forwards,
        rebuild: needs_rebuild,
        persist: !defer_persist && !c.persist.nothing(),
        journal: !c.meta.transient && c.ops.len() > 0,
        emit_project_changed,
    }
}

/// Why a persist wrote nothing.
#[derive(Clone, Copy, Debug, PartialEq, Eq, Structural)]
pub enum PersistSkip {
    /// An open/create/save-as replaced the document between the commit and
    /// the persist; that epoch's own save owns durability now.
    EpochMoved { committed: u64, now: u64 },
    /// The project was never saved to a directory.
    Unsaved,
}

/// Which parts of the project a persist writes.
#[derive(Clone, Copy, Debug, PartialEq, Eq, Structural)]
pub struct PersistPlan {
    pub midi: bool,
    pub project: bool,
    pub modulation: bool,
    /// The old automation-lane file; never together with `modulation`,
    /// whose write replaces it.
    pub automation: bool,
    pub plugins: bool,
}

/// Plan a persist of `p` for a commit made in `committed_epoch`, now that
/// the session is in `epoch_now`: skip when the document was replaced in
/// between, or when it has no directory; otherwise write what `p` asks,
/// except that a modulation write supersedes the automation-lane write.
pub fn plan_persist(p: &PersistEffect, committed_epoch: u64, epoch_now: u64, has_dir: bool) -> (r: Result<PersistPlan, PersistSkip>)
    ensures
        r == (if epoch_now != committed_epoch {
            Err(PersistSkip::EpochMoved { committed: committed_epoch, now: epoch_now })
        } else if !has_dir {
            Err(PersistSkip::Unsaved)
        } else {
            Ok(PersistPlan {
                midi: p.midi,
                project: p.project,
                modulation: p.modulation,
                automation: p.automation && !p.modulation,
                plugins: p.plugins,
            })
        }),
{
    if epoch_now != committed_epoch {
        return Err(PersistSkip::EpochMoved { committed: committed_epoch, now: epoch_now });
    }
    if !has_dir {
        return Err(PersistSkip::Unsaved);
    }
    Ok(PersistPlan {
        midi: p.midi,
        project: p.project,
        modulation: p.modulation,
        automation: p.automation && !p.modulation,
        plugins: p.plugins,
    })
}

/// The texts a list of strings holds, as a set.
pub open spec fn text_set(v: Seq<String>) -> Set<Seq<char>> {
    Set::new(|t: Seq<char>| crate::gesture::holds_text(v, t))
}

/// The dirty set after settling the written ids in order: an id whose
/// pending state was unchanged is clean, any other is dirty again (a later
/// write of the same id decides).
pub open spec fn settled_dirty(dirty: Set<Seq<char>>, written: Seq<String>, unchanged: Seq<bool>) -> Set<Seq<char>>
    decreases written.len(),
{
    if written.len() == 0 || unchanged.len() == 0 {
        dirty
    } else {
        let d = settled_dirty(dirty, written.drop_last(), unchanged.drop_last());
        if unchanged.last() {
            d.remove(written.last()@)
        } else {
            d.insert(written.last()@)
        }
    }
}

/// THE SETTLE LAW: each id's verdict is its own. An id no write touched
/// keeps its membership; a written id is dirty afterwards exactly when the
/// live state had moved on from its LAST write (`!unchanged[k]` for the
/// last `k` writing it) — never because of another id's flag.
pub proof fn lemma_settle_is_per_id(dirty: Set<Seq<char>>, written: Seq<String>, unchanged: Seq<bool>, t: Seq<char>)
    requires
        written.len() == unchanged.len(),
    ensures
        (forall|k: int| 0 <= k < written.len() ==> #[trigger] written[k]@ != t)
            ==> settled_dirty(dirty, written, unchanged).contains(t) == dirty.contains(t),
        forall|k: int|
            0 <= k < written.len() && #[trigger] written[k]@ == t && (forall|m: int|
                k < m < written.len() ==> #[trigger] written[m]@ != t) ==> settled_dirty(dirty, written, unchanged).contains(
                t,
            ) == !unchanged[k],
    decreases written.len(),
{
    if written.len() > 0 {
        let n = written.len() - 1;
        let w0 = written.drop_last();
        let u0 = unchanged.drop_last();
        lemma_settle_is_per_id(dirty, w0, u0, t);
        assert forall|k: int| 0 <= k < w0.len() implies #[trigger] w0[k] == written[k] by {}
        if written[n]@ != t {
            assert forall|k: int|
                0 <= k < written.len() && #[trigger] written[k]@ == t && (forall|m: int|
                    k < m < written.len() ==> #[trigger] written[m]@ != t) implies settled_dirty(
                dirty,
                written,
                unchanged,
            ).contains(t) == !unchanged[k] by {
                assert(k < n);
                assert(w0[k]@ == t);
                assert forall|m: int| k < m < w0.len() implies #[trigger] w0[m]@ != t by {
                    assert(written[m]@ != t);
                }
                assert(u0[k] == unchanged[k]);
            }
            if forall|k: int| 0 <= k < written.len() ==> #[trigger] written[k]@ != t {
                assert forall|k: int| 0 <= k < w0.len() implies #[trigger] w0[k]@ != t by {
                    assert(written[k]@ != t);
                }
            }
        } else {
            assert forall|k: int|
                0 <= k < written.len() && #[trigger] written[k]@ == t && (forall|m: int|
                    k < m < written.len() ==> #[trigger] written[m]@ != t) implies settled_dirty(
                dirty,
                written,
                unchanged,
            ).contains(t) == !unchanged[k] by {
                if k < n {
                    assert(written[n]@ != t);
                }
            }
        }
    }
}

proof fn lemma_text_set_push(s: Seq<String>, x: String)
    ensures
        text_set(s.push(x)) == text_set(s).insert(x@),
{
    assert forall|t: Seq<char>| text_set(s.push(x)).contains(t) <==> text_set(s).insert(x@).contains(t) by {
        if crate::gesture::holds_text(s.push(x), t) {
            let a = choose|a: int| 0 <= a < s.push(x).len() && #[trigger] s.push(x)[a]@ == t;
            if a < s.len() {
                assert(s[a] == s.push(x)[a]);
            }
        }
        if crate::gesture::holds_text(s, t) {
            let a = choose|a: int| 0 <= a < s.len() && #[trigger] s[a]@ == t;
            assert(s.push(x)[a] == s[a]);
        }
        if x@ == t {
            assert(s.push(x)[s.len() as int] == x);
        }
    }
    assert(text_set(s.push(x)) =~= text_set(s).insert(x@));
}

/// Settle the plugin dirty set after a persist wrote the state of the
/// ids in `written`: an id whose live pending state still equals what was
/// written (`unchanged[k]`) is clean; any other is marked dirty again, so
/// the newer bytes persist next time. Returns whether every written id
/// was unchanged.
pub fn settle_dirty_states(dirty: &mut Vec<String>, written: &Vec<String>, unchanged: &Vec<bool>) -> (all: bool)
    requires
        unchanged@.len() == written@.len(),
    ensures
        all == forall|k: int| 0 <= k < unchanged@.len() ==> #[trigger] unchanged@[k],
        text_set(final(dirty)@) == settled_dirty(text_set(old(dirty)@), written@, unchanged@),
{
    let ghost start = text_set(dirty@);
    let mut all = true;
    let mut k: usize = 0;
    while k < written.len()
        invariant
            k <= written@.len(),
            unchanged@.len() == written@.len(),
            all == forall|m: int| 0 <= m < k ==> #[trigger] unchanged@[m],
            text_set(dirty@) == settled_dirty(start, written@.subrange(0, k as int), unchanged@.subrange(0, k as int)),
        decreases written.len() - k,
    {
        let id = &written[k];
        remove_text(dirty, id);
        if !unchanged[k] {
            proof {
                lemma_text_set_push(dirty@, *id);
            }
            dirty.push(id.clone());
            all = false;
        }
        proof {
            assert(written@.subrange(0, k + 1).drop_last() =~= written@.subrange(0, k as int));
            assert(unchanged@.subrange(0, k + 1).drop_last() =~= unchanged@.subrange(0, k as int));
        }
        k = k + 1;
    }
    proof {
        assert(written@.subrange(0, written@.len() as int) =~= written@);
        assert(unchanged@.subrange(0, unchanged@.len() as int) =~= unchanged@);
    }
    all
}

/// Remove every copy of `id` from `v`.
fn remove_text(v: &mut Vec<String>, id: &String)
    ensures
        text_set(final(v)@) == text_set(old(v)@).remove(id@),
{
    let ghost orig = v@;
    let mut out: Vec<String> = Vec::new();
    let mut i: usize = 0;
    proof {
        assert(text_set(out@) =~= text_set(orig.subrange(0, 0)).remove(id@));
    }
    while i < v.len()
        invariant
            i <= v@.len(),
            v@ == orig,
            text_set(out@) == text_set(orig.subrange(0, i as int)).remove(id@),
        decreases v.len() - i,
    {
        proof {
            assert(orig.subrange(0, i + 1) =~= orig.subrange(0, i as int).push(orig[i as int]));
            lemma_text_set_push(orig.subrange(0, i as int), orig[i as int]);
        }
        if v[i] != *id {
            proof {
                lemma_text_set_push(out@, v[i as int]);
            }
            out.push(v[i].clone());
            proof {
                assert(text_set(out@) =~= text_set(orig.subrange(0, i + 1)).remove(id@));
            }
        } else {
            proof {
                assert(text_set(out@) =~= text_set(orig.subrange(0, i + 1)).remove(id@));
            }
        }
        i = i + 1;
    }
    proof {
        assert(orig.subrange(0, orig.len() as int) =~= orig);
    }
    *v = out;
}

/// Settle the MIDI dirty flag after a persist: clean only when the live
/// MIDI state still equals what was written; otherwise dirty, so the newer
/// state persists next time. Returns whether it was unchanged.
pub fn settle_midi_dirty(dirty: &mut bool, unchanged: bool) -> (r: bool)
    ensures
        r == unchanged,
        *final(dirty) == !unchanged,
{
    *dirty = !unchanged;
    unchanged
}

} // verus!
