use wavoic::audio::music_player::{MusicPlayer, Voice, MAX_VOICES};

fn bits(v: &[f32]) -> Vec<u32> {
    v.iter().map(|x| x.to_bits()).collect()
}

/// Adds a voice's contribution into `out`, as the engine does.
fn add_into(out: &mut [f32], samples: &[u32], gain: u32) {
    for (slot, s) in out.iter_mut().zip(samples.iter()) {
        *slot += f32::from_bits(*s) * f32::from_bits(gain);
    }
}

fn mix_into(p: &mut MusicPlayer, out: &mut [f32]) {
    for s in out.iter_mut() {
        *s = 0.0;
    }
    assert!(p.can_pull(out.len()));
    let parts = p.pull_voices(out.len());
    for (samples, gain) in parts.iter() {
        add_into(out, samples, *gain);
    }
}

#[test]
fn voice_pull_loops() {
    let mut v = Voice { samples: bits(&[1.0, 2.0, 3.0]), position: 0, looping: true, gain: 1.0_f32.to_bits() };
    let mut out = [0.0_f32; 5];
    let got = v.pull(out.len());
    add_into(&mut out, &got, v.gain);
    assert_eq!(out, [1.0, 2.0, 3.0, 1.0, 2.0]);
}

#[test]
fn voice_pull_oneshot_finishes() {
    let mut v = Voice { samples: bits(&[1.0, 2.0]), position: 0, looping: false, gain: 1.0_f32.to_bits() };
    let mut out = [0.0_f32; 5];
    let got = v.pull(out.len());
    add_into(&mut out, &got, v.gain);
    assert_eq!(out, [1.0, 2.0, 0.0, 0.0, 0.0]);
    assert!(v.finished());
}

#[test]
fn player_mixes_multiple_voices() {
    let mut p = MusicPlayer::default();
    p.play(bits(&[0.3; 10]), false, 1.0_f32.to_bits());
    p.play(bits(&[0.4; 10]), false, 1.0_f32.to_bits());
    let mut out = [0.0_f32; 5];
    mix_into(&mut p, &mut out);
    for s in &out {
        assert!((*s - 0.7).abs() < 1e-5);
    }
}

#[test]
fn voice_gain_scales_samples() {
    let mut v = Voice { samples: bits(&[0.5, 0.25]), position: 0, looping: false, gain: 2.0_f32.to_bits() };
    let mut out = [0.0_f32; 2];
    let got = v.pull(2);
    add_into(&mut out, &got, v.gain);
    assert_eq!(out, [1.0, 0.5]);
}

#[test]
fn looping_voice_past_end_wraps_to_start() {
    let mut v = Voice { samples: bits(&[1.0, 2.0, 3.0]), position: 7, looping: true, gain: 1.0_f32.to_bits() };
    assert_eq!(v.pull(4), bits(&[1.0, 2.0, 3.0, 1.0]));
    assert_eq!(v.position, 1);
    assert!(!v.finished());
}

#[test]
fn looping_voice_stops_at_end_until_next_pull() {
    let mut v = Voice { samples: bits(&[1.0, 2.0, 3.0]), position: 0, looping: true, gain: 1.0_f32.to_bits() };
    assert_eq!(v.pull(3).len(), 3);
    assert_eq!(v.position, 3);
    assert_eq!(v.pull(0).len(), 0);
    assert_eq!(v.position, 3);
    assert_eq!(v.pull(1), bits(&[1.0]));
}

#[test]
fn voice_pulls_continue_where_they_stopped() {
    for looping in [false, true] {
        let mut a = Voice { samples: bits(&[1.0, 2.0, 3.0, 4.0]), position: 1, looping, gain: 0 };
        let mut b = Voice { samples: bits(&[1.0, 2.0, 3.0, 4.0]), position: 1, looping, gain: 0 };
        let mut joined = a.pull(2);
        joined.extend(a.pull(5));
        assert_eq!(joined, b.pull(7));
        assert_eq!(a.position, b.position);
    }
}

#[test]
fn one_shot_voice_plays_each_sample_once() {
    let mut v = Voice { samples: bits(&[1.0, 2.0, 3.0]), position: 0, looping: false, gain: 0 };
    assert_eq!(v.pull(10), bits(&[1.0, 2.0, 3.0]));
    assert!(v.finished());
    assert!(v.pull(10).is_empty());
}

#[test]
fn ninth_voice_drops_the_oldest() {
    let mut p = MusicPlayer::new();
    for k in 0..9u32 {
        p.play(vec![k; 4], true, 1.0_f32.to_bits());
    }
    let parts = p.pull_voices(1);
    assert_eq!(parts.len(), MAX_VOICES);
    let firsts: Vec<u32> = parts.iter().map(|(s, _)| s[0]).collect();
    assert_eq!(firsts, vec![1, 2, 3, 4, 5, 6, 7, 8]);
}

#[test]
fn finished_voices_leave_the_pool() {
    let mut p = MusicPlayer::new();
    p.play(bits(&[0.1, 0.2]), false, 1.0_f32.to_bits());
    p.play(bits(&[0.5; 6]), false, 1.0_f32.to_bits());
    p.play(bits(&[0.9]), true, 1.0_f32.to_bits());
    let parts = p.pull_voices(3);
    assert_eq!(parts.len(), 3);
    assert_eq!(parts[0].0.len(), 2);
    let parts = p.pull_voices(3);
    assert_eq!(parts.len(), 2);
    let parts = p.pull_voices(3);
    assert_eq!(parts.len(), 1);
    assert_eq!(parts[0].0, bits(&[0.9, 0.9, 0.9]));
}

#[test]
fn stop_all_silences_everything() {
    let mut p = MusicPlayer::new();
    p.play(bits(&[0.1; 3]), true, 1.0_f32.to_bits());
    p.stop_all();
    let mut out = [0.3_f32; 4];
    mix_into(&mut p, &mut out);
    assert_eq!(out, [0.0; 4]);
}

#[test]
fn empty_looping_voice_cannot_be_pulled() {
    let mut p = MusicPlayer::new();
    p.play(Vec::new(), true, 1.0_f32.to_bits());
    assert!(!p.can_pull(4));
    assert!(p.can_pull(0));
    p.stop_all();
    p.play(Vec::new(), false, 1.0_f32.to_bits());
    assert!(p.can_pull(4));
    assert_eq!(p.pull_voices(4)[0].0.len(), 0);
    assert!(p.pull_voices(4).is_empty());
}
