use spatial::{lerp, target_gains, Spatial, RAMP_STEPS, UNITY};

const UNIT: i32 = 1024;

fn at(x: i32, y: i32, z: i32) -> [i32; 3] {
    [x * UNIT, y * UNIT, z * UNIT]
}

fn gap(a: u32, b: u32) -> u32 {
    if a <= b {
        b - a
    } else {
        a - b
    }
}

#[test]
fn lerp_values() {
    let mut k: u8 = 0;
    while k <= 8 {
        assert_eq!(lerp(0, UNITY, k), 8192 * k as u32);
        assert_eq!(lerp(UNITY, 0, k), UNITY - 8192 * k as u32);
        k += 1;
    }
    assert_eq!(lerp(7, 7, 5), 7);
    assert_eq!(lerp(0, 1, 3), 0);
    assert_eq!(lerp(0, 1, 4), 1);
    assert_eq!(lerp(10, 3, 4), 6);
    assert_eq!(lerp(3, 10, 4), 7);
    assert_eq!(lerp(100, 49152, 0), 100);
    assert_eq!(lerp(100, 49152, 8), 49152);
    assert_eq!(lerp(0, u32::MAX, 8), u32::MAX);
    assert_eq!(lerp(u32::MAX, 0, 8), 0);
}

#[test]
fn lerp_agrees_with_interpolation() {
    let values = [0u32, 1, 2, 3, 7, 10, 100, 1820, 2048, 16384, 32768, 40960, 49152, 65535, 65536];
    for a in values {
        for b in values {
            let mut k: u8 = 0;
            while k <= 8 {
                let t = k as f32 / 8.0;
                assert_eq!(lerp(a, b, k), interpolation::lerp(&a, &b, &t));
                k += 1;
            }
        }
    }
}

#[test]
fn new_makes_the_first_update_from_silence() {
    let s = Spatial::new(at(0, 0, 0), at(-1, 0, 0), at(1, 0, 0));
    assert_eq!(s.lerp_position(), 1);
    assert_eq!(s.left_volume(), 0);
    assert_eq!(s.right_volume(), 0);
}

#[test]
fn ramp_reaches_target_in_eight_updates() {
    let (e, l, r) = (at(0, 0, 0), at(-1, 0, 0), at(1, 0, 0));
    let mut s = Spatial::new(e, l, r);
    let mut k: u32 = 1;
    while k <= 8 {
        s.set_positions(e, l, r);
        assert_eq!(s.left_volume(), 6144 * k);
        assert_eq!(s.right_volume(), 6144 * k);
        k += 1;
    }
    assert_eq!(s.lerp_position(), RAMP_STEPS);
    assert_eq!((s.left_volume(), s.right_volume()), target_gains(e, l, r));
    for _ in 0..20 {
        s.set_positions(e, l, r);
        assert_eq!(s.lerp_position(), 8);
        assert_eq!((s.left_volume(), s.right_volume()), (49152, 49152));
    }
}

#[test]
fn complete_ramp_follows_the_target() {
    let (l, r) = (at(-1, 0, 0), at(1, 0, 0));
    let mut s = Spatial::new(at(0, 0, 0), l, r);
    for _ in 0..8 {
        s.set_positions(at(0, 0, 0), l, r);
    }
    s.set_positions(at(-5, 0, 0), l, r);
    assert_eq!((s.left_volume(), s.right_volume()), (2048, 1820));
}

#[test]
fn reset_continues_from_the_gain_in_force() {
    let (l, r) = (at(-1, 0, 0), at(1, 0, 0));
    let mut s = Spatial::new(at(0, 0, 0), l, r);
    for _ in 0..3 {
        s.set_positions(at(0, 0, 0), l, r);
    }
    let before = (s.left_volume(), s.right_volume());
    assert_eq!(before, (18432, 18432));
    s.reset_lerp();
    assert_eq!(s.lerp_position(), 0);
    assert_eq!((s.left_volume(), s.right_volume()), before);
    s.set_positions(at(-1, 0, 0), l, r);
    assert_eq!(s.lerp_position(), 1);
    assert_eq!((s.left_volume(), s.right_volume()), before);
    s.set_positions(at(-1, 0, 0), l, r);
    assert_eq!(s.left_volume(), 18432 + (32768 - 18432) / 8);
    assert_eq!(s.right_volume(), 18432 - (18432 - 16384) / 8);
}

#[test]
fn after_reset_the_ninth_update_brings_the_target() {
    let mut s = Spatial::new(at(0, 0, 0), at(-1, 0, 0), at(1, 0, 0));
    s.reset_lerp();
    for _ in 0..8 {
        s.advance(40000, 8);
    }
    assert_eq!(s.lerp_position(), 8);
    assert_eq!((s.left_volume(), s.right_volume()), (35000, 7));
    s.advance(40000, 8);
    assert_eq!(s.lerp_position(), 8);
    assert_eq!((s.left_volume(), s.right_volume()), (40000, 8));
}

#[test]
fn advance_moves_by_eighths() {
    let mut s = Spatial::new(at(0, 0, 0), at(-1, 0, 0), at(1, 0, 0));
    s.advance(UNITY, 800);
    assert_eq!((s.left_volume(), s.right_volume()), (8192, 100));
    s.advance(UNITY, 0);
    assert_eq!((s.left_volume(), s.right_volume()), (16384, 0));
    assert_eq!(s.lerp_position(), 3);
}

#[test]
fn no_update_jumps_to_its_target() {
    let (l, r) = (at(-1, 0, 0), at(1, 0, 0));
    let places = [at(0, 0, 0), at(-1, 0, 0), at(-5, 0, 0), at(1, 0, 0), [300, -200, 100], at(0, 9, 0)];
    let mut s = Spatial::new(places[0], l, r);
    let mut target = target_gains(places[0], l, r);
    let mut i = 0;
    while i < 40 {
        let place = places[(i * 7 + 3) % places.len()];
        let next = target_gains(place, l, r);
        let before = (s.left_volume(), s.right_volume());
        s.set_positions(place, l, r);
        assert!(gap(before.0, s.left_volume()) <= gap(target.0, next.0) + UNITY / 8 + 1);
        assert!(gap(before.1, s.right_volume()) <= gap(target.1, next.1) + UNITY / 8 + 1);
        assert!(s.left_volume() <= UNITY && s.right_volume() <= UNITY);
        target = next;
        if i % 11 == 10 {
            s.reset_lerp();
        }
        i += 1;
    }
}

#[test]
fn copies_are_independent() {
    let mut s = Spatial::new(at(0, 0, 0), at(-1, 0, 0), at(1, 0, 0));
    let t = s.clone();
    s.advance(UNITY, UNITY);
    assert_eq!(t.lerp_position(), 1);
    assert_eq!(s.lerp_position(), 2);
    assert_eq!(t.left_volume(), 0);
    assert_eq!(s.left_volume(), 8192);
}
