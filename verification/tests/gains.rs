use spatial::{balance, dist_sq, falloff, isqrt, scale_gain, target_gains, UNITY};

const UNIT: i32 = 1024;

fn at(x: i32, y: i32, z: i32) -> [i32; 3] {
    [x * UNIT, y * UNIT, z * UNIT]
}

#[test]
fn emitter_between_ears_is_balanced() {
    let (left, right) = target_gains(at(0, 0, 0), at(-1, 0, 0), at(1, 0, 0));
    assert_eq!(left, right);
    assert!(left > 0);
    assert_eq!(left, 49152);
}

#[test]
fn emitter_on_the_left_is_louder_on_the_left() {
    let (left, right) = target_gains(at(-5, 0, 0), at(-1, 0, 0), at(1, 0, 0));
    assert!(left > right);
    assert_eq!(left, 2048);
    assert_eq!(right, 1820);
}

#[test]
fn emitter_at_left_ear_saturates_falloff() {
    let (left, right) = target_gains(at(-1, 0, 0), at(-1, 0, 0), at(1, 0, 0));
    assert_eq!(left, UNITY / 2);
    assert_eq!(right, UNITY / 4);
}

#[test]
fn emitter_at_right_ear_mirrors_left_ear() {
    let (left, right) = target_gains(at(1, 0, 0), at(-1, 0, 0), at(1, 0, 0));
    assert_eq!(left, UNITY / 4);
    assert_eq!(right, UNITY / 2);
}

#[test]
fn swapping_ears_swaps_gains() {
    let emitters = [at(3, -2, 7), at(0, 0, 0), at(-40, 1, 1), [17, -900, 3000], [1, 1, 1]];
    let left_ear = [-90, 40, 7];
    let right_ear = [95, 38, 2];
    for e in emitters {
        let (a, b) = target_gains(e, left_ear, right_ear);
        let (c, d) = target_gains(e, right_ear, left_ear);
        assert_eq!((a, b), (d, c));
    }
}

#[test]
fn targets_stay_within_unity() {
    let left_ear = at(-1, 0, 0);
    let right_ear = at(1, 0, 0);
    let mut x = -4 * UNIT;
    while x <= 4 * UNIT {
        let mut y = -4 * UNIT;
        while y <= 4 * UNIT {
            let (l, r) = target_gains([x, y, 300], left_ear, right_ear);
            assert!(l <= UNITY);
            assert!(r <= UNITY);
            y += 257;
        }
        x += 193;
    }
}

#[test]
fn extreme_places_are_accepted() {
    let lo = [i32::MIN, i32::MIN, i32::MIN];
    let hi = [i32::MAX, i32::MAX, i32::MAX];
    let (l, r) = target_gains([0, 0, 0], lo, hi);
    assert_eq!((l, r), (0, 0));
    let (l, r) = target_gains(lo, lo, hi);
    assert_eq!((l, r), (UNITY / 2, 0));
    let (l, r) = target_gains([0, 0, 0], [0, 0, 0], [1, 0, 0]);
    assert_eq!((l, r), (UNITY / 2, UNITY));
}

#[test]
fn approaching_beyond_the_left_ear_raises_left() {
    let left_ear = at(-1, 0, 0);
    let right_ear = at(1, 0, 0);
    let mut last = 0;
    let mut x = -9 * UNIT;
    while x <= -UNIT {
        let (l, _) = target_gains([x, 0, 0], left_ear, right_ear);
        assert!(l >= last);
        last = l;
        x += 64;
    }
    assert_eq!(last, UNITY / 2);
}

#[test]
fn approaching_between_the_ears_can_lower_left() {
    let left_ear = at(-1, 0, 0);
    let right_ear = at(1, 0, 0);
    let (middle, _) = target_gains(at(0, 0, 0), left_ear, right_ear);
    let (nearer, _) = target_gains([-512, 0, 0], left_ear, right_ear);
    assert_eq!(middle, 49152);
    assert_eq!(nearer, 40960);
}

#[test]
fn dist_sq_values() {
    assert_eq!(dist_sq([0, 0, 0], [0, 0, 0]), 0);
    assert_eq!(dist_sq([1, 2, 3], [4, 6, 3]), 25);
    assert_eq!(dist_sq([4, 6, 3], [1, 2, 3]), 25);
    assert_eq!(dist_sq([-1, -1, -1], [1, 1, 1]), 12);
    let span: u128 = u32::MAX as u128;
    assert_eq!(
        dist_sq([i32::MIN, i32::MIN, i32::MIN], [i32::MAX, i32::MAX, i32::MAX]),
        3 * span * span
    );
}

#[test]
fn isqrt_values() {
    assert_eq!(isqrt(0), 0);
    assert_eq!(isqrt(1), 1);
    assert_eq!(isqrt(3), 1);
    assert_eq!(isqrt(4), 2);
    assert_eq!(isqrt(15), 3);
    assert_eq!(isqrt(16), 4);
    assert_eq!(isqrt(17), 4);
    assert_eq!(isqrt(1_048_576), 1024);
    assert_eq!(isqrt(u128::MAX), u64::MAX);
    let big: u128 = u64::MAX as u128;
    assert_eq!(isqrt(big * big), u64::MAX);
    assert_eq!(isqrt(big * big - 1), u64::MAX - 1);
}

#[test]
fn isqrt_brackets_its_argument() {
    let mut n: u128 = 0;
    while n < 5000 {
        let r = isqrt(n) as u128;
        assert!(r * r <= n && n < (r + 1) * (r + 1));
        n += 1;
    }
}

#[test]
fn falloff_values() {
    assert_eq!(falloff(0), UNITY);
    assert_eq!(falloff(1), UNITY);
    assert_eq!(falloff(1_048_576), UNITY);
    assert_eq!(falloff(1_048_577), 65535);
    assert_eq!(falloff(4 * 1_048_576), UNITY / 4);
    assert_eq!(falloff(16 * 1_048_576), UNITY / 16);
    assert_eq!(falloff(37_748_736), 1820);
    assert_eq!(falloff(68_719_476_736), 1);
    assert_eq!(falloff(68_719_476_737), 0);
    assert_eq!(falloff(u128::MAX), 0);
}

#[test]
fn falloff_never_grows_with_distance() {
    let mut last = UNITY;
    let mut d: u128 = 0;
    while d < 40_000_000 {
        let f = falloff(d);
        assert!(f <= last);
        last = f;
        d += 99_991;
    }
}

#[test]
fn balance_values() {
    assert_eq!(balance(1024, 1024, 2048), 49152);
    assert_eq!(balance(0, 2048, 2048), UNITY / 2);
    assert_eq!(balance(2048, 0, 2048), UNITY);
    assert_eq!(balance(4096, 6144, 2048), UNITY / 2);
    assert_eq!(balance(6144, 4096, 2048), UNITY);
    assert_eq!(balance(5000, 0, 1), UNITY);
    assert_eq!(balance(0, 3, 1), 0);
    assert_eq!(balance(0, 7000, 1), 0);
    assert_eq!(balance(0, 1, 3), 43690);
    assert_eq!(balance(u64::MAX, 0, u64::MAX), UNITY);
    assert_eq!(balance(0, u64::MAX, u64::MAX), UNITY / 2);
}

#[test]
fn scale_gain_values() {
    assert_eq!(scale_gain(UNITY, UNITY), UNITY);
    assert_eq!(scale_gain(UNITY, 12345), 12345);
    assert_eq!(scale_gain(12345, UNITY), 12345);
    assert_eq!(scale_gain(UNITY / 2, UNITY / 2), UNITY / 4);
    assert_eq!(scale_gain(0, UNITY), 0);
    assert_eq!(scale_gain(3, 3), 0);
    assert_eq!(scale_gain(32768, 1820), 910);
}

#[test]
fn approaching_beyond_the_left_ear_raises_right_too() {
    let left_ear = at(-1, 0, 0);
    let right_ear = at(1, 0, 0);
    let (_, far) = target_gains(at(-5, 0, 0), left_ear, right_ear);
    let (_, near) = target_gains(at(-3, 0, 0), left_ear, right_ear);
    assert_eq!(far, 1820);
    assert_eq!(near, 4096);
}

#[test]
fn balance_favours_the_farther_ear() {
    let mut last = 0;
    let mut own: u64 = 0;
    while own <= 4096 {
        let b = balance(own, 4096 - own, 4096);
        assert!(b >= last);
        assert!(b >= UNITY / 2);
        last = b;
        own += 128;
    }
    assert_eq!(last, UNITY);
}
