use cj2k26::sfx::{fill, fill_advance, fill_request, SoundChip, PAL_CLOCK};

#[test]
fn fill_writes_samples() {
    let mut chip = SoundChip::new(44100);
    chip.write(0x18, 0x0F);
    chip.write(0x05, 0x00);
    chip.write(0x06, 0xF0);
    chip.write(0x00, 0x00);
    chip.write(0x01, 0x20);
    chip.write(0x04, 0x21);
    let mut out = vec![0i16; 512];
    fill(&mut chip, &mut out, 44100);
    assert_eq!(out.len(), 512);
    assert!(out.iter().any(|&s| s != 0));
}

#[test]
fn fill_empty_buffer() {
    let mut chip = SoundChip::new(48000);
    let mut out: Vec<i16> = Vec::new();
    fill(&mut chip, &mut out, 48000);
    assert!(out.is_empty());
}

#[test]
fn fill_request_budget() {
    // 985 248 / 44 100 = 22, plus one cycle of slack per sample
    assert_eq!(fill_request(64, 0, 44100), 64 * 23);
    assert_eq!(fill_request(64, 60, 44100), 4 * 23);
    assert_eq!(fill_request(64, 64, 44100), 0);
    assert_eq!(fill_request(10, 0, PAL_CLOCK), 20);
}

#[test]
fn fill_advance_steps() {
    assert_eq!(fill_advance(5, 0), None);
    assert_eq!(fill_advance(5, 3), Some(8));
    assert_eq!(fill_advance(0, 64), Some(64));
}
