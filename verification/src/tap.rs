//! A hold-until-resolved interceptor: decisive evidence resolves at once; evidence in the tend
//! zone suspends instead of forcing a binary decision, until a human or upstream agent
//! resolves it explicitly.
//!
//! This module acts on the ternary decision that evidence classified to: its trit and its
//! confidence (as the bit pattern of the `f64`).

use crate::trit::Trit;
use vstd::prelude::*;

verus! {

/// Two signals are equal when both resolve to the same trit, or both hold with equal
/// confidences, the confidences compared as `f64` values (not as bit patterns): `+0.0`
/// equals `-0.0`, and a NaN confidence equals nothing, itself included.
#[derive(Debug, Clone)]
pub enum Signal {
    /// The evidence was decisive: the action may proceed with this trit.
    Resolved(Trit),
    /// The evidence landed in the tend zone. Not a failure state: suspend and wait.
    Held { confidence_bits: u64 },
}

/// Whether the bit pattern is a NaN of `f64`: every exponent bit set and a nonzero
/// fraction.
pub open spec fn is_nan_bits(b: u64) -> bool {
    b & 0x7FF0_0000_0000_0000 == 0x7FF0_0000_0000_0000 && b & 0x000F_FFFF_FFFF_FFFF != 0
}

/// `==` on the `f64` values of two bit patterns: no NaN is equal to anything, the two
/// zeros (`+0.0` and `-0.0`) are equal, and otherwise values are equal exactly when their
/// bit patterns are.
pub open spec fn f64_bits_eq(a: u64, b: u64) -> bool {
    &&& !is_nan_bits(a)
    &&& !is_nan_bits(b)
    &&& (a == b || (a & 0x7FFF_FFFF_FFFF_FFFF == 0 && b & 0x7FFF_FFFF_FFFF_FFFF == 0))
}

/// Equality of signals, with confidences compared as `f64` values.
pub open spec fn signal_eq(s: Signal, t: Signal) -> bool {
    match (s, t) {
        (Signal::Resolved(a), Signal::Resolved(b)) => a == b,
        (Signal::Held { confidence_bits: a }, Signal::Held { confidence_bits: b }) => f64_bits_eq(
            a,
            b,
        ),
        _ => false,
    }
}

impl PartialEq for Signal {
    fn eq(&self, other: &Self) -> (r: bool) {
        match (self, other) {
            (Signal::Resolved(a), Signal::Resolved(b)) => *a == *b,
            (Signal::Held { confidence_bits: a }, Signal::Held { confidence_bits: b }) => {
                let a = *a;
                let b = *b;
                let a_nan = a & 0x7FF0_0000_0000_0000 == 0x7FF0_0000_0000_0000 && a
                    & 0x000F_FFFF_FFFF_FFFF != 0;
                let b_nan = b & 0x7FF0_0000_0000_0000 == 0x7FF0_0000_0000_0000 && b
                    & 0x000F_FFFF_FFFF_FFFF != 0;
                !a_nan && !b_nan && (a == b || (a & 0x7FFF_FFFF_FFFF_FFFF == 0 && b
                    & 0x7FFF_FFFF_FFFF_FFFF == 0))
            },
            _ => false,
        }
    }
}

impl vstd::std_specs::cmp::PartialEqSpecImpl for Signal {
    open spec fn obeys_eq_spec() -> bool {
        true
    }

    open spec fn eq_spec(&self, other: &Signal) -> bool {
        signal_eq(*self, *other)
    }
}

/// What the hold makes of a decision: tend holds with the decision's confidence, any
/// other trit resolves to itself.
pub open spec fn evaluate_spec(trit: Trit, confidence_bits: u64) -> Signal {
    if trit == Trit::Tend {
        Signal::Held { confidence_bits }
    } else {
        Signal::Resolved(trit)
    }
}

/// Intercepts a decision. Reject and affirm resolve immediately; tend holds instead of forcing
/// a binary decision.
pub fn evaluate(trit: Trit, confidence_bits: u64) -> (s: Signal)
    ensures
        s == evaluate_spec(trit, confidence_bits),
        trit == Trit::Tend ==> s == (Signal::Held { confidence_bits }),
        trit != Trit::Tend ==> s == Signal::Resolved(trit),
{
    match trit {
        Trit::Tend => Signal::Held { confidence_bits },
        resolved => Signal::Resolved(resolved),
    }
}

/// A human or upstream agent resolves a held signal explicitly: the outcome is their
/// decision, whatever the held signal was.
pub fn resolve(held: Signal, resolution: Trit) -> (t: Trit)
    ensures
        t == resolution,
{
    resolution
}

/// The hold applies exactly on tend, never resolves to tend, and a resolved signal carries
/// the decision's own trit.
pub proof fn lemma_holds_exactly_on_tend(trit: Trit, confidence_bits: u64)
    ensures
        (evaluate_spec(trit, confidence_bits) is Held) <==> trit == Trit::Tend,
        evaluate_spec(trit, confidence_bits) is Held ==> evaluate_spec(trit, confidence_bits)
            == (Signal::Held { confidence_bits }),
        evaluate_spec(trit, confidence_bits) != Signal::Resolved(Trit::Tend),
        evaluate_spec(trit, confidence_bits) is Resolved ==> evaluate_spec(
            trit,
            confidence_bits,
        ) == Signal::Resolved(trit),
{
}

} // verus!
