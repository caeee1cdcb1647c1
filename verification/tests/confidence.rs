//! How the confidence of two records becomes that of one.

use kremory::confidence::{
    merged_confidence, min_confidence_floor_for_gate, CONFIDENCE_REJECT_FLOOR_BITS,
};
use kremory::ieee::{Binary32, Binary64};

fn b32(v: f32) -> Binary32 {
    Binary32::from_bits(v.to_bits())
}

fn merged(a: Option<f32>, b: Option<f32>) -> Option<f32> {
    // The combination of two present values is computed by the caller.
    let combined = match (a, b) {
        (Some(x), Some(y)) => {
            let (x, y) = (x.clamp(0.0, 1.0), y.clamp(0.0, 1.0));
            x + y - x * y
        }
        _ => 0.0,
    };
    merged_confidence(a.map(b32), b.map(b32), b32(combined)).map(|v| f32::from_bits(v.to_bits()))
}

#[test]
fn merged_confidence_null_policy() {
    assert_eq!(merged(None, None), None);
    assert_eq!(merged(Some(0.4), None), Some(0.4));
    assert_eq!(merged(None, Some(0.6)), Some(0.6));
    assert_eq!(merged(Some(0.5), Some(0.5)), Some(0.75));
}

#[test]
fn a_single_value_is_clamped() {
    assert_eq!(merged(Some(1.5), None), Some(1.0));
    assert_eq!(merged(None, Some(-0.2)), Some(0.0));
    assert!(merged(Some(f32::NAN), None).unwrap().is_nan());
}

#[test]
fn gate_confidence_is_the_lesser_one() {
    let gate = |a: Option<f32>, b: Option<f32>| {
        min_confidence_floor_for_gate(a.map(b32), b.map(b32)).map(|v| f32::from_bits(v.to_bits()))
    };
    assert_eq!(gate(Some(0.9), Some(0.6)), Some(0.6));
    assert_eq!(gate(Some(0.3), Some(0.6)), Some(0.3));
    assert_eq!(gate(Some(0.3), None), None);
    assert_eq!(gate(None, Some(0.3)), None);
    assert_eq!(gate(None, None), None);
}

#[test]
fn reject_floor_is_seven_tenths() {
    assert_eq!(f32::from_bits(CONFIDENCE_REJECT_FLOOR_BITS), 0.7);
}

const SAMPLES: [f32; 15] = [
    0.0,
    -0.0,
    1.0,
    -1.0,
    0.5,
    0.7,
    1.5,
    -0.2,
    f32::MAX,
    f32::MIN,
    f32::MIN_POSITIVE,
    1e-45,
    f32::INFINITY,
    f32::NEG_INFINITY,
    f32::NAN,
];

#[test]
fn single_precision_order_agrees_with_the_machine() {
    for x in SAMPLES {
        assert_eq!(b32(x).is_nan(), x.is_nan());
        let clamped = f32::from_bits(b32(x).clamp_unit().to_bits());
        assert!(clamped == x.clamp(0.0, 1.0) || (clamped.is_nan() && x.is_nan()));
        for y in SAMPLES {
            assert_eq!(b32(x).less_than(b32(y)), x < y, "{x} < {y}");
            assert_eq!(b32(x).at_most(b32(y)), x <= y, "{x} <= {y}");
            let min = f32::from_bits(b32(x).min_of(b32(y)).to_bits());
            assert!(min == x.min(y) || (min.is_nan() && x.min(y).is_nan()));
            let max = f32::from_bits(b32(x).max_of(b32(y)).to_bits());
            assert!(max == x.max(y) || (max.is_nan() && x.max(y).is_nan()));
        }
    }
}

#[test]
fn double_precision_order_agrees_with_the_machine() {
    let b64 = |v: f32| Binary64::from_bits(f64::from(v).to_bits());
    for x in SAMPLES {
        assert_eq!(b64(x).is_nan(), x.is_nan());
        for y in SAMPLES {
            assert_eq!(b64(x).less_than(b64(y)), x < y, "{x} < {y}");
            assert_eq!(b64(x).at_most(b64(y)), x <= y, "{x} <= {y}");
        }
    }
    assert_eq!(f64::from_bits(Binary64::one().to_bits()), 1.0);
    assert_eq!(f64::from_bits(Binary64::zero().to_bits()), 0.0);
    assert_eq!(f32::from_bits(Binary32::one().to_bits()), 1.0);
    assert_eq!(f32::from_bits(Binary32::zero().to_bits()), 0.0);
}

#[test]
fn widening_agrees_with_the_machine() {
    let mut samples: Vec<f32> = SAMPLES.to_vec();
    for shift in 0..31 {
        samples.push(f32::from_bits(1 << shift));
        samples.push(f32::from_bits((1 << shift) | 0x8000_0001));
        samples.push(f32::from_bits((1 << shift) - 1));
    }
    for x in samples {
        if !x.is_nan() {
            assert_eq!(b32(x).widen().to_bits(), f64::from(x).to_bits(), "on {x:e}");
        }
    }
}
