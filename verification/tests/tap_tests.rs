use bifp_core::tap::{evaluate, resolve, Signal};
use bifp_core::trit::Trit;

// `evaluate` takes the decision that evidence classified to. Evidence [0.9] classifies
// to (affirm, 0.9), [-0.9] to (reject, 0.9), [0.1, -0.05] to (tend, 0.025) and [0.0] to
// (tend, 0.0).

#[test]
fn decisive_evidence_resolves_immediately() {
    assert_eq!(evaluate(Trit::Affirm, 0.9f64.to_bits()), Signal::Resolved(Trit::Affirm));
    assert_eq!(evaluate(Trit::Reject, 0.9f64.to_bits()), Signal::Resolved(Trit::Reject));
}

#[test]
fn ambiguous_evidence_holds_instead_of_forcing_a_decision() {
    match evaluate(Trit::Tend, 0.025f64.to_bits()) {
        Signal::Held { .. } => {}
        other => panic!("expected Held, got {other:?}"),
    }
}

#[test]
fn a_held_signal_can_be_explicitly_resolved() {
    let held = evaluate(Trit::Tend, 0.0f64.to_bits());
    assert_eq!(resolve(held, Trit::Affirm), Trit::Affirm);
}

#[test]
fn held_signal_keeps_the_confidence() {
    let bits = 0.25f64.to_bits();
    assert_eq!(evaluate(Trit::Tend, bits), Signal::Held { confidence_bits: bits });
}

#[test]
fn resolution_is_the_outside_decision_whatever_was_held() {
    let held = evaluate(Trit::Tend, 0.1f64.to_bits());
    assert_eq!(resolve(held.clone(), Trit::Reject), Trit::Reject);
    assert_eq!(resolve(held, Trit::Tend), Trit::Tend);
    assert_eq!(resolve(Signal::Resolved(Trit::Affirm), Trit::Reject), Trit::Reject);
}

#[test]
fn held_confidences_compare_as_f64_values() {
    let pos = Signal::Held { confidence_bits: 0.0f64.to_bits() };
    let neg = Signal::Held { confidence_bits: (-0.0f64).to_bits() };
    assert!(0.0f64 == -0.0f64);
    assert_eq!(pos, neg);
    let nan = Signal::Held { confidence_bits: f64::NAN.to_bits() };
    assert!(f64::NAN != f64::NAN);
    assert_ne!(nan, nan.clone());
    assert_ne!(Signal::Held { confidence_bits: 0.5f64.to_bits() }, Signal::Held { confidence_bits: 0.25f64.to_bits() });
    assert_eq!(Signal::Held { confidence_bits: 0.5f64.to_bits() }, Signal::Held { confidence_bits: 0.5f64.to_bits() });
    assert_ne!(pos, Signal::Resolved(Trit::Tend));
    assert_ne!(Signal::Resolved(Trit::Affirm), Signal::Resolved(Trit::Reject));
}
