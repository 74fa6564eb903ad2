use asteroids::audio::{Audio, Voice, VoiceKind};

#[test]
fn new_engine_is_silent() {
    let a = Audio::new(44100);
    assert_eq!(a.current_sample, 0);
    assert!(a.voices.is_empty());
}

#[test]
fn synthesize_with_no_voices_is_all_zero_and_advances_clock() {
    // Four sample slots at 44100 samples per second with no active
    // voices: every slot's contribution set is empty (so the rendered
    // stereo pairs are all zero), and the persistent clock advances by
    // exactly 4 samples, that is 4/44100 seconds.
    let mut a = Audio::new(44100);
    let plan = a.synthesize(0, 4);
    assert_eq!(plan.len(), 4);
    for slot in &plan {
        assert!(slot.is_empty());
    }
    assert_eq!(a.current_sample, 4);
}

#[test]
fn play_stamps_expiry_from_clock_and_duration() {
    let mut a = Audio::new(1000);
    a.play(2000, 50, VoiceKind::Sin);
    assert_eq!(a.voices.len(), 1);
    let v = a.voices[0];
    assert_eq!(v.end_sample, 2000);
    assert_eq!(v.volume, 50);
    assert_eq!(v.kind, VoiceKind::Sin);
}

#[test]
fn voice_contributes_until_expiry_and_not_after() {
    // A voice enqueued at clock T for duration D contributes at every
    // sample time in [T, T + D) and at none from T + D on.
    let mut a = Audio::new(1000);
    let plan0 = a.synthesize(0, 100);
    assert_eq!(a.current_sample, 100);
    assert!(plan0.iter().all(|s| s.is_empty()));
    // Enqueued at T = 100 samples for 2 seconds: expires at sample 2100.
    a.play(2000, 40, VoiceKind::Square);
    let plan = a.synthesize(2098, 4);
    assert_eq!(plan[0].len(), 1); // sample 2098: active
    assert_eq!(plan[1].len(), 1); // sample 2099: active
    assert!(plan[2].is_empty()); // sample 2100: expired
    assert!(plan[3].is_empty()); // sample 2101: expired
    assert_eq!(plan[0][0].end_sample, 2100);
    // The clock has passed the expiry, so the voice is gone.
    assert!(a.voices.is_empty());
    assert_eq!(a.current_sample, 2102);
}

#[test]
fn expired_voices_are_kept_until_the_clock_passes_them() {
    let mut a = Audio::new(1000);
    a.play(50, 10, VoiceKind::Noise);
    let _ = a.synthesize(0, 10);
    // Clock at 10, expiry at 50: still active.
    assert_eq!(a.voices.len(), 1);
    let _ = a.synthesize(10, 40);
    // Clock at 50 == expiry: removed.
    assert!(a.voices.is_empty());
}

#[test]
fn overlapping_voices_both_contribute() {
    // Two sine voices at half volume sound at once; both stand in every
    // slot's contribution set while they last, in enqueue order. (Their
    // summed amplitude and the hard clip to [-1, 1] are applied by the
    // float renderer on top of this plan.)
    let mut a = Audio::new(1000);
    a.play(1000, 50, VoiceKind::Sin);
    a.play(2000, 50, VoiceKind::Sin);
    let plan = a.synthesize(0, 3);
    for slot in &plan {
        assert_eq!(slot.len(), 2);
        assert_eq!(slot[0].end_sample, 1000);
        assert_eq!(slot[1].end_sample, 2000);
    }
    let plan2 = a.synthesize(1500, 1);
    assert_eq!(plan2[0].len(), 1);
    assert_eq!(plan2[0][0].end_sample, 2000);
}

#[test]
fn expiry_saturates_at_the_clock_type_bound() {
    let mut a = Audio::new(u32::MAX);
    a.play(u32::MAX, 1, VoiceKind::Sin);
    let v: Voice = a.voices[0];
    // (u32::MAX ms / 1000) * u32::MAX samples per second stays below u64::MAX,
    // so no saturation here; the product is exact.
    assert_eq!(v.end_sample, u32::MAX as u64 * u32::MAX as u64 / 1000);
}
