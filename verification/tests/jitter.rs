use symphony_core::jitter::jitter_bits;

fn unit(tick_seq: u64, now: u64) -> f64 {
    let frac = jitter_bits(tick_seq, now) as f64 / (1u64 << 53) as f64;
    frac * 2.0 - 1.0
}

#[test]
fn nothing_mixes_into_nothing() {
    assert_eq!(jitter_bits(0, 0), 0);
}

#[test]
fn first_tick_mixes_into_a_known_value() {
    assert_eq!(jitter_bits(1, 0), 0xE220_A839_7B1D_CDAF >> 11);
}

#[test]
fn mixed_values_stay_in_the_unit_interval() {
    for seq in 0..1000u64 {
        let u = unit(seq, seq.wrapping_mul(977));
        assert!((-1.0..1.0).contains(&u), "seq={seq} u={u}");
    }
}
