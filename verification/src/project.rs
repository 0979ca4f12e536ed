//! Adopting an opened project: the in-memory document is replaced
//! wholesale, the document epoch moves on, and history starts over.

use vstd::prelude::*;
use crate::history::UndoStacks;
use crate::ops::Store;
use crate::transport::Player;
use crate::types::{Clip, TrackState, TransportState};

verus! {

/// The transport block a project file may carry.
#[derive(Clone, Copy, Debug, PartialEq, Eq, Structural)]
pub struct LoadedTransport {
    /// `f64` tempo, as its bit pattern.
    pub tempo_bpm_bits: u64,
    pub loop_enabled: bool,
    pub loop_start_samples: u64,
    pub loop_end_samples: u64,
    pub position_samples: u64,
}

/// A project as read (and validated) from its directory.
pub struct LoadedProject {
    pub name: String,
    pub created_at: Option<String>,
    pub tracks: Vec<TrackState>,
    pub clips: Vec<Clip>,
    pub players: Vec<Player>,
    pub transport: Option<LoadedTransport>,
}

/// The transport after adopting a project's transport block: its tempo and
/// loop region, stopped; everything else as it was.
pub open spec fn adopted_transport(old: TransportState, t: LoadedTransport, stopped: String) -> TransportState {
    TransportState {
        state: stopped,
        tempo_bpm_bits: t.tempo_bpm_bits,
        loop_enabled: t.loop_enabled,
        loop_start_samples: t.loop_start_samples,
        loop_end_samples: t.loop_end_samples,
        ..old
    }
}

/// Replace the document with an opened project in `dir`: its tracks,
/// clips, pads, name and creation time, the directory; with a transport block,
/// its tempo and loop region and a stopped transport. The document epoch
/// moves on and both history stacks are emptied (undoing across the swap
/// would apply one project's inverses to another). Returns the transport
/// block, whose position and loop region the caller writes to the
/// real-time cells once playback is stopped.
pub fn adopt_loaded_project(
    store: &mut Store,
    history: &mut UndoStacks,
    project: LoadedProject,
    dir: &String,
    epoch: &mut u64,
) -> (rt: Option<LoadedTransport>)
    requires
        *old(epoch) < u64::MAX,
    ensures
        final(store).tracks == project.tracks,
        final(store).clips == project.clips,
        final(store).players == project.players,
        final(store).project_name == Some(project.name),
        final(store).project_dir == Some(*dir),
        final(store).created_at == project.created_at,
        match project.transport {
            Some(t) => final(store).transport == adopted_transport(old(store).transport, t, final(store).transport.state)
                && final(store).transport.state@ == "stopped"@,
            None => final(store).transport == old(store).transport,
        },
        *final(epoch) == *old(epoch) + 1,
        final(history)@.undo.len() == 0,
        final(history)@.redo.len() == 0,
        rt == project.transport,
{
    proof {
        reveal_strlit("stopped");
    }
    let LoadedProject { name, created_at, tracks, clips, players, transport } = project;
    store.tracks = tracks;
    store.clips = clips;
    store.players = players;
    store.project_dir = Some(dir.clone());
    store.project_name = Some(name);
    store.created_at = created_at;
    match transport {
        Some(t) => {
            store.transport.tempo_bpm_bits = t.tempo_bpm_bits;
            store.transport.state = String::from_str("stopped");
            store.transport.loop_enabled = t.loop_enabled;
            store.transport.loop_start_samples = t.loop_start_samples;
            store.transport.loop_end_samples = t.loop_end_samples;
        },
        None => {},
    }
    *epoch = *epoch + 1;
    history.clear();
    transport
}

} // verus!
