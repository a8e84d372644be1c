use evanescence_core::monte_carlo::Quality;
use evanescence_core::numerics::random::WyRand;

fn reference_gen_u64(state: &mut u64) -> u64 {
    *state = state.wrapping_add(0xa076_1d64_78bd_642f);
    let t = u128::from(*state) * u128::from(*state ^ 0xe703_7ed1_a0b4_28db);
    ((t >> 64) ^ t) as u64
}

#[test]
fn wyrand_sequence() {
    let mut rng = WyRand::new_seed(42);
    let mut state = 42_u64;
    for _ in 0..100 {
        assert_eq!(reference_gen_u64(&mut state), rng.gen_u64());
    }
    // The same seed gives the same sequence.
    let mut a = WyRand::new_seed(7);
    let mut b = WyRand::new_seed(7);
    assert_eq!(a.gen_u64(), b.gen_u64());
    assert_ne!(WyRand::new_seed(0).gen_u64(), 0);
}

#[test]
fn wyrand_unit_floats() {
    let mut rng = WyRand::new_seed(1234);
    let mut state = 1234_u64;
    for _ in 0..1000 {
        let bits = rng.gen_f32x2_bits();
        let v = reference_gen_u64(&mut state);
        assert_eq!(((v as u32) >> 9) | 0x3f80_0000, bits[0]);
        assert_eq!((((v >> 32) as u32) >> 9) | 0x3f80_0000, bits[1]);
        for b in bits {
            let f = f32::from_bits(b);
            assert!((1.0..2.0).contains(&f));
        }
        let single = rng.gen_f32_bits();
        let v = reference_gen_u64(&mut state);
        assert_eq!(((v as u32) >> 9) | 0x3f80_0000, single);
    }
}

#[test]
fn quality_sizes() {
    assert_eq!(Quality::Low, Quality::default());
    let all = Quality::iter();
    assert_eq!(6, all.len());
    for (i, q) in all.iter().enumerate() {
        assert_eq!(1_usize << (12 + i), q.points());
        let points = q.points() as f32;
        let grid = ((points.sqrt() * 0.75) as usize) | 0b1;
        let isosurface = ((points * 4.0).cbrt() as usize) | 0b1;
        assert_eq!(grid, q.for_grid());
        assert_eq!(isosurface, q.for_isosurface());
        assert_eq!(1, q.for_grid() % 2);
        assert_eq!(1, q.for_isosurface() % 2);
    }
    assert_eq!(49, Quality::Minimum.for_grid());
    assert_eq!(193, Quality::VeryHigh.for_grid());
    assert_eq!(33, Quality::Low.for_isosurface());
    assert_eq!("Very high", Quality::VeryHigh.to_text());
    assert_eq!("Medium", Quality::Medium.to_text());
    assert_eq!("VeryHigh", Quality::VeryHigh.to_string());
}

#[test]
fn quality_from_name() {
    for q in Quality::iter() {
        assert_eq!(Quality::from_name(&q.to_string()), Some(q));
        assert_eq!(q.to_string().parse::<Quality>(), Ok(q));
    }
    assert_eq!(Quality::from_name("Very high"), None);
    assert_eq!(Quality::from_name("low"), None);
    assert_eq!(Quality::from_name(""), None);
    assert_eq!("Medium".parse::<Quality>(), Ok(Quality::Medium));
    assert!("Ultra".parse::<Quality>().is_err());
}
