use cj2k26::sequencer::{startup_commands, ChipCommand, Sound, SoundTimers, Tone};

#[test]
fn startup_sets_volume_first() {
    let cmds = startup_commands();
    assert_eq!(cmds.len(), 7);
    assert_eq!(cmds[0], ChipCommand::Write(0x18, 0x0F));
    assert_eq!(cmds[6], ChipCommand::Write(0x14, 0xA9));
}

#[test]
fn shoot_program() {
    let mut t = SoundTimers::new();
    assert_eq!(
        t.on_sound(Sound::Shoot),
        vec![
            ChipCommand::SetTone(0, Tone::Sweep),
            ChipCommand::Write(0x04, 0x20),
            ChipCommand::Write(0x04, 0x21),
        ]
    );
}

#[test]
fn hit_noise_lasts_45_blocks() {
    let mut t = SoundTimers::new();
    let start = t.on_sound(Sound::Hit);
    assert_eq!(start[2], ChipCommand::SetTone(2, Tone::Burst));
    for _ in 0..44 {
        assert!(t.tick_tink().is_empty());
    }
    assert_eq!(t.tick_tink(), vec![ChipCommand::Write(0x12, 0x80)]);
    assert!(t.tick_tink().is_empty());
}

#[test]
fn explosion_cuts_hit_noise() {
    let mut t = SoundTimers::new();
    t.on_sound(Sound::Hit);
    t.tick_tink();
    t.on_sound(Sound::Explosion);
    for _ in 0..100 {
        assert!(t.tick_tink().is_empty());
    }
}

#[test]
fn coin_jingle_notes() {
    let mut t = SoundTimers::new();
    let start = t.on_sound(Sound::Win);
    assert_eq!(start[4], ChipCommand::SetTone(0, Tone::Coin1));
    let mut changes = Vec::new();
    for k in 1..=320 {
        let cmds = t.tick_coin();
        if !cmds.is_empty() {
            changes.push((k, cmds));
        }
    }
    assert_eq!(changes.len(), 3);
    assert_eq!(changes[0].0, 55);
    assert_eq!(changes[0].1[0], ChipCommand::SetTone(0, Tone::Coin2));
    assert_eq!(changes[1].0, 110);
    assert_eq!(changes[1].1[0], ChipCommand::SetTone(0, Tone::Coin3));
    assert_eq!(changes[2], (300, vec![ChipCommand::Write(0x04, 0x40)]));
}

#[test]
fn lose_tune_runs_300_blocks() {
    let mut t = SoundTimers::new();
    let start = t.on_sound(Sound::Lose);
    assert_eq!(start.len(), 7);
    for _ in 0..299 {
        let (losing, cmds) = t.tick_lose();
        assert!(losing);
        assert!(cmds.is_empty());
    }
    let (losing, cmds) = t.tick_lose();
    assert!(losing);
    assert_eq!(cmds, vec![ChipCommand::Write(0x0B, 0x40)]);
    let (losing, cmds) = t.tick_lose();
    assert!(!losing);
    assert!(cmds.is_empty());
}
