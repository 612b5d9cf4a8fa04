use bifp_core::trit::Trit;

const ALL: [Trit; 3] = [Trit::Reject, Trit::Tend, Trit::Affirm];

#[test]
fn consensus_matches_observed_runbook_result() {
    // trit_consensus(-1, 1) = 0, observed live 2026-07-02.
    assert_eq!(Trit::consensus(Trit::Reject, Trit::Affirm), Trit::Tend);
}

#[test]
fn consensus_agreement_holds() {
    assert_eq!(Trit::consensus(Trit::Affirm, Trit::Affirm), Trit::Affirm);
    assert_eq!(Trit::consensus(Trit::Reject, Trit::Reject), Trit::Reject);
}

#[test]
fn consensus_tend_is_absorbing_into_the_other_side() {
    assert_eq!(Trit::consensus(Trit::Tend, Trit::Affirm), Trit::Affirm);
    assert_eq!(Trit::consensus(Trit::Reject, Trit::Tend), Trit::Reject);
}

#[test]
fn consensus_is_commutative_on_every_pair() {
    for a in ALL {
        for b in ALL {
            assert_eq!(Trit::consensus(a, b), Trit::consensus(b, a));
        }
    }
}

#[test]
fn consensus_is_saturating_addition() {
    for a in ALL {
        for b in ALL {
            let sum = (a.as_i8() + b.as_i8()).clamp(-1, 1);
            assert_eq!(Trit::consensus(a, b).as_i8(), sum);
        }
    }
}

#[test]
fn consensus_with_tend_on_either_side_is_the_other_trit() {
    for a in ALL {
        assert_eq!(Trit::consensus(Trit::Tend, a), a);
        assert_eq!(Trit::consensus(a, Trit::Tend), a);
        assert_eq!(Trit::consensus(a, a), a);
    }
    assert_eq!(Trit::consensus(Trit::Affirm, Trit::Reject), Trit::Tend);
}

#[test]
fn signed_forms() {
    assert_eq!(Trit::Reject.as_i8(), -1);
    assert_eq!(Trit::Tend.as_i8(), 0);
    assert_eq!(Trit::Affirm.as_i8(), 1);
}

#[test]
fn from_i8_reads_the_sign() {
    assert_eq!(Trit::from_i8(-128), Trit::Reject);
    assert_eq!(Trit::from_i8(-1), Trit::Reject);
    assert_eq!(Trit::from_i8(0), Trit::Tend);
    assert_eq!(Trit::from_i8(1), Trit::Affirm);
    assert_eq!(Trit::from_i8(127), Trit::Affirm);
}

#[test]
fn from_i8_undoes_as_i8() {
    for t in ALL {
        assert_eq!(Trit::from_i8(t.as_i8()), t);
    }
}

#[test]
fn labels() {
    assert_eq!(Trit::Reject.label(), "reject");
    assert_eq!(Trit::Tend.label(), "tend");
    assert_eq!(Trit::Affirm.label(), "affirm");
}
