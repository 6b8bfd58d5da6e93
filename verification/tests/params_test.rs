use automapaper::params::{mix, Params, UniformState, PARAMS_SIZE, PARAMS_WORDS};
use automapaper::single::Single;

fn single(x: f32) -> Single {
    Single::from_bits(x.to_bits())
}

fn float(s: Single) -> f32 {
    f32::from_bits(s.bits)
}

fn lerp(amount: f32, a: Single, b: Single) -> Single {
    single((1. - amount) * float(a) + amount * float(b))
}

fn counted() -> Params {
    let s = |n: u32| Single::from_bits(n);
    Params {
        resolution: [s(0), s(1)],
        time: s(2),
        time_scale: s(3),
        c1: [s(4), s(5), s(6), s(7)],
        c2: [s(8), s(9), s(10), s(11)],
        c3: [s(12), s(13), s(14), s(15)],
        c4: [s(16), s(17), s(18), s(19)],
        mouse: [s(20), s(21)],
        mouse_active: s(0x0102_0304),
    }
}

#[test]
fn default_uniforms() {
    let state = UniformState::default();
    assert_eq!(float(state.time_scale), 1.0);
    assert_eq!(state.c1.map(float), [1.0, 0.0, 0.0, 1.0]);
    assert_eq!(state.c2.map(float), [0.0, 0.0, 1.0, 1.0]);
    assert_eq!(state.c3.map(float), [0.0, 0.0, 1.0, 1.0]);
    assert_eq!(state.c4.map(float), [0.0, 0.0, 1.0, 1.0]);
    assert_eq!(state.mouse.map(float), [0.5, 0.5]);
    assert_eq!(state.monitor, 0);
}

#[test]
fn mixing_blends_colours_and_time_scale_only() {
    let a = UniformState::default();
    let mut b = a;
    b.time_scale = single(3.0);
    b.c1 = [single(0.0), single(1.0), single(0.5), single(1.0)];
    b.c4 = [single(1.0); 4];
    b.mouse = [single(9.0), single(9.0)];
    b.monitor = 7;
    let res = a.mix(&b, 0.25f32, &lerp);
    assert_eq!(float(res.time_scale), 1.5);
    assert_eq!(res.c1.map(float), [0.75, 0.25, 0.125, 1.0]);
    assert_eq!(res.c2.map(float), [0.0, 0.0, 1.0, 1.0]);
    assert_eq!(res.c4.map(float), [0.25, 0.25, 1.0, 1.0]);
    assert_eq!(res.mouse.map(float), [0.5, 0.5]);
    assert_eq!(res.monitor, 0);
}

#[test]
fn full_amount_reaches_the_target() {
    let a = UniformState::default();
    let mut b = a;
    b.c2 = [single(0.25), single(0.5), single(0.75), single(1.0)];
    let res = a.mix(&b, 1.0f32, &lerp);
    assert_eq!(res.c2.map(float), b.c2.map(float));
    assert_eq!(res.c1.map(float), a.c1.map(float));
}

#[test]
fn empty_amount_changes_nothing() {
    let a = UniformState::default();
    let mut b = a;
    b.time_scale = single(2.0);
    b.c2 = [single(0.25), single(0.5), single(0.75), single(1.0)];
    let res = a.mix(&b, 0.0f32, &lerp);
    assert_eq!(float(res.time_scale), 1.0);
    assert_eq!(res.c2.map(float), a.c2.map(float));
    assert_eq!(mix(a.c2, b.c2, 0.0f32, &lerp).map(float), a.c2.map(float));
    assert_eq!(mix(a.c2, b.c2, 1.0f32, &lerp).map(float), b.c2.map(float));
}

#[test]
fn mixed_channels_lie_between() {
    let this = [single(0.0), single(1.0), single(-2.0), single(0.5)];
    let that = [single(1.0), single(0.0), single(2.0), single(0.5)];
    for step in 0..=16 {
        let res = mix(this, that, step as f32 / 16.0, &lerp);
        for i in 0..4 {
            let (a, b, r) = (float(this[i]), float(that[i]), float(res[i]));
            assert!(a.min(b) <= r && r <= a.max(b));
        }
    }
}

#[test]
fn target_is_a_fixed_point() {
    let a = UniformState::default();
    let res = a.mix(&a, 0.5f32, &lerp);
    assert_eq!(res.c1.map(float), a.c1.map(float));
    assert_eq!(float(res.time_scale), 1.0);
}

#[test]
fn four_channels_are_mixed_in_place() {
    let this = [single(0.0), single(1.0), single(2.0), single(3.0)];
    let that = [single(4.0), single(4.0), single(4.0), single(4.0)];
    assert_eq!(mix(this, that, 0.5f32, &lerp).map(float), [2.0, 2.5, 3.0, 3.5]);
}

#[test]
fn words_come_in_the_order_of_the_block() {
    let words = counted().words();
    assert_eq!(words.len(), PARAMS_WORDS);
    for (i, word) in words.iter().enumerate().take(22) {
        assert_eq!(*word, i as u32);
    }
    assert_eq!(words[22], 0x0102_0304);
}

#[test]
fn block_is_written_in_the_byte_order_of_the_machine() {
    let bytes = counted().to_bytes();
    assert_eq!(bytes.len(), PARAMS_SIZE);
    let mut expected = Vec::new();
    for word in counted().words() {
        expected.extend_from_slice(&word.to_ne_bytes());
    }
    assert_eq!(bytes, expected);
    assert_eq!(bytes[88..92], 0x0102_0304u32.to_ne_bytes());
}

#[test]
fn different_blocks_have_different_bytes() {
    let a = counted();
    let mut b = a;
    b.c3[2] = Single::from_bits(99);
    assert_ne!(a.to_bytes(), b.to_bytes());
}
