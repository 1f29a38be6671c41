use wavoic::audio::carrier::Carrier;
use wavoic::audio::types::SILENCE;

fn bits(v: &[f32]) -> Vec<u32> {
    v.iter().map(|x| x.to_bits()).collect()
}

#[test]
fn unloaded_carrier_emits_silence() {
    let mut c = Carrier::default();
    let mut out = [0.5_f32.to_bits(); 10];
    c.pull(&mut out);
    assert!(out.iter().all(|&s| f32::from_bits(s) == 0.0));
}

#[test]
fn carrier_loops_over_its_samples() {
    let mut c = Carrier::new();
    c.load_samples(bits(&[0.1, 0.2, 0.3]));
    assert!(c.loaded());
    let mut out = [SILENCE; 7];
    c.pull(&mut out);
    assert_eq!(out.to_vec(), bits(&[0.1, 0.2, 0.3, 0.1, 0.2, 0.3, 0.1]));
}

#[test]
fn carrier_pulls_continue_where_they_stopped() {
    let mut a = Carrier::new();
    a.load_samples(bits(&[1.0, 2.0, 3.0, 4.0, 5.0]));
    let mut first = [SILENCE; 4];
    let mut second = [SILENCE; 3];
    a.pull(&mut first);
    a.pull(&mut second);
    let mut b = Carrier::new();
    b.load_samples(bits(&[1.0, 2.0, 3.0, 4.0, 5.0]));
    let mut whole = [SILENCE; 7];
    b.pull(&mut whole);
    let mut joined = first.to_vec();
    joined.extend_from_slice(&second);
    assert_eq!(joined, whole.to_vec());
}

#[test]
fn carrier_reload_rewinds() {
    let mut c = Carrier::new();
    c.load_samples(bits(&[1.0, 2.0, 3.0]));
    let mut out = [SILENCE; 2];
    c.pull(&mut out);
    c.load_samples(bits(&[7.0, 8.0]));
    let mut again = [SILENCE; 3];
    c.pull(&mut again);
    assert_eq!(again.to_vec(), bits(&[7.0, 8.0, 7.0]));
}

#[test]
fn carrier_empty_buffer_is_a_no_op() {
    let mut c = Carrier::new();
    c.load_samples(bits(&[1.0, 2.0]));
    let mut none: [u32; 0] = [];
    c.pull(&mut none);
    let mut out = [SILENCE; 1];
    c.pull(&mut out);
    assert_eq!(f32::from_bits(out[0]), 1.0);
    assert!(!Carrier::new().loaded());
}
