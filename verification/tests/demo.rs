use aura_control::demo::{choose_demo_patches, demo_seed_clips, demo_seed_clips_v2, plan_seed_demo, DemoInstruments, PreparedInstrument};
use aura_control::op::{ObjectRef, Op, PropPath, WireValue};
use aura_control::types::{MidiClip, MidiNote, PluginInstanceInfo};

fn keys(c: &MidiClip) -> Vec<u8> {
    c.notes.iter().map(|n| n.key).collect()
}

fn assert_ids_run_from_one(c: &MidiClip) {
    for (i, n) in c.notes.iter().enumerate() {
        assert_eq!(n.note_id, i as u64 + 1);
    }
    assert_eq!(c.next_note_id, c.notes.len() as u64 + 1);
}

fn assert_valid_midi(c: &MidiClip) {
    for n in &c.notes {
        assert!(n.key < 128 && n.velocity < 128 && n.channel < 16, "{n:?}");
        assert!(n.length_ticks > 0);
    }
}

fn row(id: &str) -> PluginInstanceInfo {
    PluginInstanceInfo {
        id: id.to_string(),
        uid: "lv2:zyn".to_string(),
        name: "ZynAddSubFX".to_string(),
        format: "lv2".to_string(),
        status: "active".to_string(),
        track_id: None,
    }
}

#[test]
fn the_two_track_demo_is_a_sixteenth_arp_over_the_bass_groove() {
    let (arp, bass) = demo_seed_clips("keys", "bass", 960);
    assert_eq!(arp.notes.len(), 64, "four bars of sixteenths");
    assert_eq!(bass.notes.len(), 24, "six eighths a bar, resting on 3 and 6");
    assert_eq!(arp.name, "demo arp");
    assert_eq!(bass.name, "demo bass");
    assert_eq!(arp.track_id, "keys");
    assert_eq!(arp.length_ticks, 4 * 4 * 960, "the exact four-bar song length");
    assert_eq!(arp.timeline_start_ticks, 0);
    assert_eq!(arp.id.len(), 36);
    assert_ne!(arp.id, bass.id);
    assert_eq!(arp.content_length_ticks, None);
    assert_eq!(&keys(&arp)[..8], &[57, 60, 64, 69, 81, 76, 72, 69], "up the Am chord, then down an octave higher");
    assert_eq!(arp.notes[0], MidiNote { tick: 0, length_ticks: 216, key: 57, velocity: 110, channel: 0, note_id: 1 });
    assert_eq!(arp.notes[1].tick, 240);
    assert_eq!(arp.notes[1].velocity, 84);
    assert_eq!(arp.notes[16].tick, 3_840);
    assert_eq!(arp.notes[16].key, 53, "bar two is F");
    assert_eq!(&keys(&bass)[..6], &[33, 33, 45, 33, 33, 33]);
    let bass_ticks: Vec<u32> = bass.notes[..6].iter().map(|n| n.tick).collect();
    assert_eq!(bass_ticks, vec![0, 480, 960, 1_920, 2_400, 3_360]);
    assert_eq!(bass.notes[0].velocity, 118);
    assert_eq!(bass.notes[0].length_ticks, 384);
    assert_eq!(bass.notes[6].key, 29, "bar two's root is F1");
    assert_eq!(bass.notes[23].tick, 3 * 3_840 + 7 * 480);
    for c in [&arp, &bass] {
        assert_ids_run_from_one(c);
        assert_valid_midi(c);
    }
}

#[test]
fn the_seeded_demo_song_is_pad_lead_and_bass() {
    let (pad, lead, groove) = demo_seed_clips_v2("pad", "lead", "bass", 960);
    assert!(!pad.notes.is_empty() && !lead.notes.is_empty() && !groove.notes.is_empty());
    assert_eq!((pad.notes.len(), lead.notes.len(), groove.notes.len()), (12, 32, 24));
    assert_eq!((pad.name.as_str(), lead.name.as_str(), groove.name.as_str()), ("demo pad", "demo lead", "demo bass"));
    assert_eq!(&keys(&pad)[..6], &[57, 60, 64, 53, 57, 60]);
    assert_eq!(pad.notes[3].tick, 3_840);
    assert_eq!(pad.notes[0].length_ticks, 3_648, "held 95% of the bar");
    assert_eq!(pad.notes[0].velocity, 72);
    assert_eq!(&keys(&lead)[..8], &[69, 72, 76, 72, 69, 76, 74, 72]);
    assert_eq!(lead.notes[9].tick, 3_840 + 480);
    assert_eq!((lead.notes[0].velocity, lead.notes[1].velocity), (102, 84));
    assert_eq!(lead.notes[31].key, 71);
    let (_, v1_bass) = demo_seed_clips("keys", "bass", 960);
    assert_eq!(groove.notes, v1_bass.notes, "the v2 bass is the v1 groove");
    for c in [&pad, &lead, &groove] {
        assert_ids_run_from_one(c);
        assert_valid_midi(c);
        assert_eq!(c.length_ticks, 15_360);
        assert_eq!(c.lane_id, c.track_id);
    }
}

#[test]
fn the_demo_scales_with_the_resolution() {
    let (arp, _) = demo_seed_clips("keys", "bass", 96);
    assert_eq!(arp.notes[1].tick, 24);
    assert_eq!(arp.notes[1].length_ticks, 21);
    assert_eq!(arp.length_ticks, 1_536);
}

#[test]
fn seeding_without_instruments_adds_three_midi_tracks_and_their_clips() {
    let p = plan_seed_demo(2, 5, 960, None);
    assert_eq!((p.pad.name.as_str(), p.lead.name.as_str(), p.bass.name.as_str()), ("Demo Pad", "Demo Lead", "Demo Bass"));
    assert!(p.pad.kind == "midi" && p.lead.kind == "midi" && p.bass.kind == "midi");
    assert_eq!(p.pad.color, "#7cffb0", "the third track's palette color");
    assert_eq!(p.ops.len(), 6);
    for (k, t) in [&p.pad, &p.lead, &p.bass].iter().enumerate() {
        assert!(matches!(&p.ops[k], Op::TrackAdd { track, index, .. } if track.id == t.id && *index == 2 + k));
    }
    let names = ["demo pad", "demo lead", "demo bass"];
    for k in 0..3 {
        match &p.ops[3 + k] {
            Op::MidiClipAdd { clip, index } => {
                assert_eq!(*index, 5 + k);
                assert_eq!(clip.name, names[k]);
            }
            other => panic!("expected a MidiClipAdd, got {other:?}"),
        }
    }
    assert!(matches!(&p.ops[3], Op::MidiClipAdd { clip, .. } if clip.track_id == p.pad.id));
    assert!(matches!(&p.ops[5], Op::MidiClipAdd { clip, .. } if clip.track_id == p.bass.id));
}

#[test]
fn seeding_with_instruments_binds_each_to_its_track() {
    let z = DemoInstruments {
        pad: PreparedInstrument { row: row("zyn-1"), state: Some(vec![1, 2]) },
        lead: PreparedInstrument { row: row("zyn-2"), state: None },
        bass: PreparedInstrument { row: row("zyn-3"), state: Some(vec![3]) },
    };
    let p = plan_seed_demo(0, 0, 960, Some(z));
    assert_eq!(p.ops.len(), 6 + 3 + 2 + 3);
    assert!(matches!(&p.ops[3], Op::PluginAdd { row, index } if row.id == "zyn-1" && *index == usize::MAX));
    assert!(matches!(&p.ops[4], Op::PluginSetState { instance, state } if instance == "zyn-1" && state == &vec![1u8, 2]));
    match &p.ops[5] {
        Op::SetProp { object: ObjectRef::Track(t), path: PropPath::InstrumentId, to: WireValue::Text(v), .. } => {
            assert_eq!(t, &p.pad.id);
            assert_eq!(v, "plugin:zyn-1");
        }
        other => panic!("expected the pad's instrument binding, got {other:?}"),
    }
    assert!(matches!(&p.ops[6], Op::PluginAdd { row, .. } if row.id == "zyn-2"));
    assert!(matches!(&p.ops[7], Op::SetProp { to: WireValue::Text(v), .. } if v == "plugin:zyn-2"), "no state, no SetState");
    assert!(matches!(&p.ops[10], Op::SetProp { object: ObjectRef::Track(t), .. } if t == &p.bass.id));
    assert!(matches!(&p.ops[11], Op::MidiClipAdd { index: 0, .. }));
}

#[test]
fn the_demo_patches_fall_back_to_any_bass() {
    assert_eq!(choose_demo_patches(Some(1), Some(2), Some(3), Some(4)), Some((1, 2, 3)));
    assert_eq!(choose_demo_patches(Some(1), Some(2), None, Some(4)), Some((1, 2, 4)));
    assert_eq!(choose_demo_patches(Some(1), None, Some(3), Some(4)), None);
    assert_eq!(choose_demo_patches::<u8>(Some(1), Some(2), None, None), None);
}
