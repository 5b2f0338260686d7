use dehydrator::meas::{Meas, Sample, N1};

#[test]
fn new_batch_is_zero() {
    let m = Meas::new();
    assert_eq!(m.time, 0);
    assert_eq!(m.cutoffs, 0);
    assert_eq!(N1, 100);
    assert!(m.inside_temp.iter().all(|&x| f32::from_bits(x) == 0.0));
    assert_eq!(m.amps, [0u32; N1]);
    assert_eq!(m.grams, [0u32; N1]);
}

#[test]
fn record_fills_every_channel() {
    let mut m = Meas::new();
    let s = Sample {
        inside_temp: 21.5f32.to_bits(),
        outside_temp: 18.0f32.to_bits(),
        inside_rh: 40.0f32.to_bits(),
        outside_rh: 55.0f32.to_bits(),
        grams: 1200.0f32.to_bits(),
        amps: 0.75f32.to_bits(),
    };
    m.record(7, s, true);
    m.record(8, s, false);
    m.record(N1 - 1, s, true);
    assert_eq!(m.cutoffs, 2);
    assert_eq!(f32::from_bits(m.inside_temp[7]), 21.5);
    assert_eq!(f32::from_bits(m.outside_temp[8]), 18.0);
    assert_eq!(f32::from_bits(m.inside_rh[7]), 40.0);
    assert_eq!(f32::from_bits(m.outside_rh[7]), 55.0);
    assert_eq!(f32::from_bits(m.grams[N1 - 1]), 1200.0);
    assert_eq!(f32::from_bits(m.amps[7]), 0.75);
    assert_eq!(m.amps[6], 0);
}
