use stokast::rnd::Rnd;
use stokast::taps::{diffusion_taps, flips_polarity, tap_length};

#[test]
fn tap_length_exact_values() {
    // 100 samples over 4 channels: shares [0,25) [25,50) [50,75) [75,100)
    assert_eq!(tap_length(0, 4, 100, 0), 1);
    assert_eq!(tap_length(1, 4, 100, 0), 26);
    assert_eq!(tap_length(3, 4, 100, u32::MAX), 100);
    assert_eq!(tap_length(2, 4, 100, 0x8000_0000), 63);
    assert_eq!(tap_length(0, 3, 10, u32::MAX), 3);
    assert_eq!(tap_length(0, 4, 0, 12345), 1);
}

#[test]
fn tap_lengths_stay_in_their_share() {
    let mut rnd = Rnd::new(82734);
    for _ in 0..200 {
        let n = rnd.next();
        for i in 0..8usize {
            let l = tap_length(i, 8, 4410, n);
            let lo = 4410 * i / 8;
            let hi = 4410 * (i + 1) / 8;
            assert!(lo < l && l <= hi);
        }
    }
}

#[test]
fn polarity_threshold() {
    assert!(!flips_polarity(0));
    assert!(!flips_polarity(u32::MAX / 2));
    assert!(flips_polarity(u32::MAX / 2 + 1));
    assert!(flips_polarity(u32::MAX));
}

#[test]
fn diffusion_taps_draw_lengths_then_flips() {
    let mut a = Rnd::new(7);
    let (lens, flips) = diffusion_taps::<4>(1000, &mut a);
    let mut b = Rnd::new(7);
    let draws: Vec<u32> = (0..8).map(|_| b.next()).collect();
    for i in 0..4 {
        assert_eq!(lens[i], tap_length(i, 4, 1000, draws[i]));
        assert_eq!(flips[i], flips_polarity(draws[4 + i]));
    }
    assert_eq!(a.next(), b.next());
}

#[test]
fn diffusion_taps_are_reproducible() {
    let mut a = Rnd::new(82734);
    let mut b = Rnd::new(82734);
    for range in [10usize, 441, 22050] {
        assert_eq!(diffusion_taps::<8>(range, &mut a), diffusion_taps::<8>(range, &mut b));
    }
}
