//! Confidence of merged entities.
//!
//! When two entities merge, the keeper combines both extraction confidences by
//! noisy-OR (`a + b - a·b`), which never lowers a confidence. The combination itself
//! is floating-point arithmetic and is handed in; which value a merge records is
//! decided here.

use vstd::prelude::*;
use crate::ieee::Binary32;

verus! {

/// Pattern of `0.7`: confidence below which two extractions do not support a merge.
pub const CONFIDENCE_REJECT_FLOOR_BITS: u32 = 0x3f33_3333;

/// The confidence that a merge records: the combination when both entities have one,
/// the present one when only one has it, and nothing otherwise. A missing signal does
/// not dilute a present one.
pub open spec fn merged(
    a: Option<Binary32>,
    b: Option<Binary32>,
    combined: Binary32,
) -> Option<Binary32> {
    match (a, b) {
        (Some(_), Some(_)) => Some(combined),
        (Some(x), None) => Some(x.clamped()),
        (None, Some(y)) => Some(y.clamped()),
        (None, None) => None,
    }
}

/// Decides the confidence that a merge records. `combined` is the noisy-OR of the two
/// confidences and is looked at only when both are there.
pub fn merged_confidence(
    a: Option<Binary32>,
    b: Option<Binary32>,
    combined: Binary32,
) -> (r: Option<Binary32>)
    ensures
        r == merged(a, b, combined),
        r is None <==> a is None && b is None,
        a is Some && b is Some ==> r == Some(combined),
        a is Some && b is None ==> r == Some(a->0.clamped()),
        a is None && b is Some ==> r == Some(b->0.clamped()),
{
    match (a, b) {
        (Some(_), Some(_)) => Some(combined),
        (Some(x), None) => Some(x.clamp_unit()),
        (None, Some(y)) => Some(y.clamp_unit()),
        (None, None) => None,
    }
}

/// The confidence that a pair brings to the merge gate: the lesser of the two, in
/// `[0, 1]`, and nothing when one of them is missing. A missing signal bypasses the
/// floor.
pub open spec fn gate_confidence(a: Option<Binary32>, b: Option<Binary32>) -> Option<Binary32> {
    match (a, b) {
        (Some(x), Some(y)) => Some(x.lesser(y).clamped()),
        _ => None,
    }
}

/// Computes the confidence that a pair brings to the merge gate.
pub fn min_confidence_floor_for_gate(a: Option<Binary32>, b: Option<Binary32>) -> (r: Option<
    Binary32,
>)
    ensures
        r == gate_confidence(a, b),
{
    match (a, b) {
        (Some(x), Some(y)) => Some(x.min_of(y).clamp_unit()),
        _ => None,
    }
}

/// The confidence that a pair brings lies in `[0, 1]` and is at most each of the two
/// once they are clamped themselves.
pub proof fn law_gate_confidence_is_the_lesser(x: Binary32, y: Binary32)
    requires
        !x.nan(),
        !y.nan(),
    ensures
        ({
            let c = gate_confidence(Some(x), Some(y))->0;
            &&& Binary32::zero_value().le(c)
            &&& c.le(Binary32::one_value())
            &&& c.le(x.clamped())
            &&& c.le(y.clamped())
        }),
{
}

/// A confidence is recorded exactly when one of the two entities has one. Both together are
/// combined, and one alone, as long as it lies in `[0, 1]`, is recorded as it is: a missing
/// signal takes nothing away from it.
pub proof fn law_a_present_confidence_is_kept(
    a: Option<Binary32>,
    b: Option<Binary32>,
    combined: Binary32,
)
    ensures
        merged(a, b, combined) is None <==> a is None && b is None,
        a is Some && b is Some ==> merged(a, b, combined) == Some(combined),
        a is Some && b is None && Binary32::zero_value().le(a->0) && a->0.le(Binary32::one_value())
            ==> merged(a, b, combined) == a,
        a is None && b is Some && Binary32::zero_value().le(b->0) && b->0.le(Binary32::one_value())
            ==> merged(a, b, combined) == b,
{
}

/// A pair is measured exactly when both entities have a confidence, and wherever the two lie in
/// `[0, 1]` it is measured by the lesser one: a missing signal bypasses the floor.
pub proof fn law_both_signals_are_measured(a: Option<Binary32>, b: Option<Binary32>)
    ensures
        gate_confidence(a, b) is Some <==> a is Some && b is Some,
        a is Some && b is Some && Binary32::zero_value().le(a->0) && a->0.le(Binary32::one_value())
            && Binary32::zero_value().le(b->0) && b->0.le(Binary32::one_value()) ==> (
        gate_confidence(a, b) == a || gate_confidence(a, b) == b) && gate_confidence(a, b)->0.le(
            a->0,
        ) && gate_confidence(a, b)->0.le(b->0),
{
}

}
