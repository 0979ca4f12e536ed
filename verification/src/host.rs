//! What the commit path asks of the plugin hosts once the session lock is
//! released, and how a host's answer to an instantiate is written back.

use vstd::prelude::*;
use crate::plane::{first_match, lemma_first_match, lemma_first_match_at};
use crate::text::str_is;
use crate::types::PluginInstanceInfo;

verus! {

/// One host round-trip a commit describes.
pub enum HostForward {
    /// A parameter value (the `f32`'s bit pattern) for a live instance.
    ParamWrite { instance: String, index: u32, value_bits: u32 },
    /// Make sure the host runs this instance (idempotent).
    Instantiate { instance: String },
    Destroy { instance: String },
    /// Hand the instance its pending state blob.
    LoadState { instance: String },
}

/// The plugin formats a host runs.
#[derive(Clone, Copy, Debug, PartialEq, Eq, Structural)]
pub enum HostFormat {
    Clap,
    Lv2,
}

/// The hosted format a row's format names, if any (`"clap"`, `"lv2"`).
pub open spec fn format_of(f: Seq<char>) -> Option<HostFormat> {
    if f == "clap"@ {
        Some(HostFormat::Clap)
    } else if f == "lv2"@ {
        Some(HostFormat::Lv2)
    } else {
        None
    }
}

/// The hosted format of `f`.
pub fn host_format(f: &String) -> (r: Option<HostFormat>)
    ensures
        r == format_of(f@),
{
    proof {
        reveal_strlit("clap");
        reveal_strlit("lv2");
    }
    if str_is(f, "clap") {
        Some(HostFormat::Clap)
    } else if str_is(f, "lv2") {
        Some(HostFormat::Lv2)
    } else {
        None
    }
}

/// What to do with one forward.
pub enum HostAction {
    /// Nothing: the row is gone, its format is not hosted, or there is no
    /// pending state to load.
    Skip,
    /// Post the value to the instance's host (fire and forget).
    PostParam { format: HostFormat, instance: String, index: u32, value_bits: u32 },
    /// The host already runs the instance: re-read its parameters instead
    /// of re-registering it (which would reset its voices).
    ReadParams { format: HostFormat, instance: String },
    /// Register the instance with its plugin, as an effect when it sits in
    /// an insert slot, else as an instrument.
    Instantiate { format: HostFormat, instance: String, uid: String, as_effect: bool },
    Destroy { format: HostFormat, instance: String },
    /// Decode the pending blob and load it through the state bridge.
    LoadState { instance: String },
}

/// Decide one forward, given the instance's document row (if it is still
/// there), whether it sits in an insert slot, whether its host already
/// runs it, and whether pending state is waiting for it.
pub fn host_forward_step(
    hf: &HostForward,
    row: &Option<PluginInstanceInfo>,
    is_insert: bool,
    host_has: bool,
    pending: bool,
) -> (a: HostAction)
    ensures
        match hf {
            HostForward::ParamWrite { instance, index, value_bits } => match row {
                Some(r) => match format_of(r.format@) {
                    Some(f) => a == (HostAction::PostParam {
                        format: f,
                        instance: *instance,
                        index: *index,
                        value_bits: *value_bits,
                    }),
                    None => a is Skip,
                },
                None => a is Skip,
            },
            HostForward::Instantiate { instance } => match row {
                Some(r) => match format_of(r.format@) {
                    Some(f) => if host_has {
                        a == (HostAction::ReadParams { format: f, instance: *instance })
                    } else {
                        a == (HostAction::Instantiate { format: f, instance: *instance, uid: r.uid, as_effect: is_insert })
                    },
                    None => a is Skip,
                },
                None => a is Skip,
            },
            HostForward::Destroy { instance } => match row {
                Some(r) => match format_of(r.format@) {
                    Some(f) => a == (HostAction::Destroy { format: f, instance: *instance }),
                    None => a is Skip,
                },
                None => a is Skip,
            },
            HostForward::LoadState { instance } => if pending {
                a == (HostAction::LoadState { instance: *instance })
            } else {
                a is Skip
            },
        },
{
    match hf {
        HostForward::ParamWrite { instance, index, value_bits } => match row {
            Some(r) => match host_format(&r.format) {
                Some(f) => HostAction::PostParam { format: f, instance: instance.clone(), index: *index, value_bits: *value_bits },
                None => HostAction::Skip,
            },
            None => HostAction::Skip,
        },
        HostForward::Instantiate { instance } => match row {
            Some(r) => match host_format(&r.format) {
                Some(f) => if host_has {
                    HostAction::ReadParams { format: f, instance: instance.clone() }
                } else {
                    HostAction::Instantiate { format: f, instance: instance.clone(), uid: r.uid.clone(), as_effect: is_insert }
                },
                None => HostAction::Skip,
            },
            None => HostAction::Skip,
        },
        HostForward::Destroy { instance } => match row {
            Some(r) => match host_format(&r.format) {
                Some(f) => HostAction::Destroy { format: f, instance: instance.clone() },
                None => HostAction::Skip,
            },
            None => HostAction::Skip,
        },
        HostForward::LoadState { instance } => if pending {
            HostAction::LoadState { instance: instance.clone() }
        } else {
            HostAction::Skip
        },
    }
}

/// An instance row's id.
pub open spec fn row_key() -> spec_fn(PluginInstanceInfo) -> Seq<char> {
    |r: PluginInstanceInfo| r.id@
}

/// A parameter-mirror entry's instance id.
pub open spec fn mirror_key() -> spec_fn((String, Vec<String>)) -> Seq<char> {
    |e: (String, Vec<String>)| e.0@
}

/// Write a host's answer to an instantiate back into the document, unless
/// the document was replaced since the commit (then nothing is written and
/// `false` comes back). The instance's row (the first with its id) turns
/// `"active"`; the parameter mirror gets `fresh` only where it has no
/// parameters for the instance yet — a mirror restored by an undo is kept,
/// not overwritten with a fresh instance's defaults.
pub fn instantiate_writeback(
    instances: &mut Vec<PluginInstanceInfo>,
    params: &mut Vec<(String, Vec<String>)>,
    instance: &String,
    fresh: Vec<String>,
    committed_epoch: u64,
    epoch_now: u64,
) -> (written: bool)
    ensures
        written == (committed_epoch == epoch_now),
        !written ==> final(instances)@ == old(instances)@ && final(params)@ == old(params)@,
        written ==> {
            let i = first_match(old(instances)@, row_key(), instance@);
            &&& final(instances)@.len() == old(instances)@.len()
            &&& forall|j: int| 0 <= j < old(instances)@.len() && j != i ==> #[trigger] final(instances)@[j] == old(instances)@[j]
            &&& i != -1 ==> final(instances)@[i] == (PluginInstanceInfo {
                status: final(instances)@[i].status,
                ..old(instances)@[i]
            }) && final(instances)@[i].status@ == "active"@
        },
        written ==> {
            let k = first_match(old(params)@, mirror_key(), instance@);
            if k == -1 {
                final(params)@ == old(params)@.push((*instance, fresh))
            } else if old(params)@[k].1@.len() == 0 {
                final(params)@ == old(params)@.update(k, (old(params)@[k].0, fresh))
            } else {
                final(params)@ == old(params)@
            }
        },
{
    if committed_epoch != epoch_now {
        return false;
    }
    mark_active(instances, instance);
    fill_mirror(params, instance, fresh);
    true
}

fn mark_active(instances: &mut Vec<PluginInstanceInfo>, instance: &String)
    ensures
        ({
            let i = first_match(old(instances)@, row_key(), instance@);
            &&& final(instances)@.len() == old(instances)@.len()
            &&& forall|j: int| 0 <= j < old(instances)@.len() && j != i ==> #[trigger] final(instances)@[j] == old(instances)@[j]
            &&& i != -1 ==> final(instances)@[i] == (PluginInstanceInfo {
                status: final(instances)@[i].status,
                ..old(instances)@[i]
            }) && final(instances)@[i].status@ == "active"@
        }),
{
    proof {
        reveal_strlit("active");
    }
    let mut i: usize = 0;
    while i < instances.len()
        invariant
            i <= instances@.len(),
            instances@ == old(instances)@,
            forall|j: int| 0 <= j < i ==> #[trigger] instances@[j].id@ != instance@,
        decreases instances.len() - i,
    {
        if instances[i].id == *instance {
            proof {
                lemma_first_match_at(instances@, row_key(), instance@, i as int);
            }
            let mut row = instances[i].duplicate();
            row.status = String::from_str("active");
            instances.set(i, row);
            return;
        }
        i = i + 1;
    }
    proof {
        lemma_first_match(instances@, row_key(), instance@, instances@.len() as int);
    }
}

fn fill_mirror(params: &mut Vec<(String, Vec<String>)>, instance: &String, fresh: Vec<String>)
    ensures
        ({
            let k = first_match(old(params)@, mirror_key(), instance@);
            if k == -1 {
                final(params)@ == old(params)@.push((*instance, fresh))
            } else if old(params)@[k].1@.len() == 0 {
                final(params)@ == old(params)@.update(k, (old(params)@[k].0, fresh))
            } else {
                final(params)@ == old(params)@
            }
        }),
{
    let mut k: usize = 0;
    while k < params.len()
        invariant
            k <= params@.len(),
            params@ == old(params)@,
            forall|j: int| 0 <= j < k ==> #[trigger] params@[j].0@ != instance@,
        decreases params.len() - k,
    {
        if params[k].0 == *instance {
            proof {
                lemma_first_match_at(params@, mirror_key(), instance@, k as int);
            }
            if params[k].1.len() == 0 {
                let id = params[k].0.clone();
                params.set(k, (id, fresh));
            }
            return;
        }
        k = k + 1;
    }
    proof {
        lemma_first_match(params@, mirror_key(), instance@, params@.len() as int);
    }
    params.push((instance.clone(), fresh));
}

} // verus!
