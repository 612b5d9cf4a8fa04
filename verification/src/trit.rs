//! The ternary value BIFP is built on: -1 (reject), 0 (tend/hold), +1 (affirm).

use vstd::prelude::*;

verus! {

#[derive(Debug, Clone, Copy, PartialEq, Eq, Structural)]
pub enum Trit {
    Reject,
    Tend,
    Affirm,
}

/// The signed integer a trit stands for.
pub open spec fn trit_value(t: Trit) -> int {
    match t {
        Trit::Reject => -1,
        Trit::Tend => 0,
        Trit::Affirm => 1,
    }
}

/// The trit whose sign a signed integer has.
pub open spec fn trit_of_sign(v: int) -> Trit {
    if v < 0 {
        Trit::Reject
    } else if v == 0 {
        Trit::Tend
    } else {
        Trit::Affirm
    }
}

/// `v` clamped into the balanced-ternary digit range [-1, 1].
pub open spec fn saturate(v: int) -> int {
    if v < -1 {
        -1
    } else if v > 1 {
        1
    } else {
        v
    }
}

/// Ternary consensus as saturating balanced-ternary addition.
pub open spec fn consensus_spec(a: Trit, b: Trit) -> Trit {
    trit_of_sign(saturate(trit_value(a) + trit_value(b)))
}

impl Trit {
    /// Signed integer form: -1 / 0 / +1.
    pub fn as_i8(self) -> (v: i8)
        ensures
            v == trit_value(self),
            self == Trit::Reject ==> v == -1,
            self == Trit::Tend ==> v == 0,
            self == Trit::Affirm ==> v == 1,
    {
        match self {
            Trit::Reject => -1,
            Trit::Tend => 0,
            Trit::Affirm => 1,
        }
    }

    /// The trit of the sign of `v`: negative is reject, zero is tend, positive is affirm.
    pub fn from_i8(v: i8) -> (t: Trit)
        ensures
            t == trit_of_sign(v as int),
            v < 0 ==> t == Trit::Reject,
            v == 0 ==> t == Trit::Tend,
            v > 0 ==> t == Trit::Affirm,
    {
        if v < 0 {
            Trit::Reject
        } else if v == 0 {
            Trit::Tend
        } else {
            Trit::Affirm
        }
    }

    /// The lower-case name of the trit.
    pub fn label(self) -> (s: &'static str)
        ensures
            self == Trit::Reject ==> s@ == "reject"@,
            self == Trit::Tend ==> s@ == "tend"@,
            self == Trit::Affirm ==> s@ == "affirm"@,
    {
        match self {
            Trit::Reject => "reject",
            Trit::Tend => "tend",
            Trit::Affirm => "affirm",
        }
    }

    /// Ternary consensus (balanced-ternary addition, saturating): truth+truth=truth,
    /// conflict+conflict=conflict, tend yields to the other side, and affirm against
    /// reject is a genuine disagreement that holds.
    pub fn consensus(a: Trit, b: Trit) -> (c: Trit)
        ensures
            c == consensus_spec(a, b),
            trit_value(c) == saturate(trit_value(a) + trit_value(b)),
            a == b ==> c == a,
            a == Trit::Tend ==> c == b,
            b == Trit::Tend ==> c == a,
            a == Trit::Affirm && b == Trit::Reject ==> c == Trit::Tend,
            a == Trit::Reject && b == Trit::Affirm ==> c == Trit::Tend,
    {
        match (a, b) {
            (Trit::Affirm, Trit::Affirm) => Trit::Affirm,
            (Trit::Reject, Trit::Reject) => Trit::Reject,
            (Trit::Tend, x) => x,
            (x, Trit::Tend) => x,
            _ => Trit::Tend,
        }
    }
}

/// Reading back the integer form of a trit gives the same trit.
pub proof fn lemma_from_i8_of_as_i8(t: Trit)
    ensures
        trit_of_sign(trit_value(t)) == t,
{
}

/// The integer form of the trit read from `v` is the sign of `v`.
pub proof fn lemma_as_i8_of_from_i8(v: int)
    ensures
        trit_value(trit_of_sign(v)) == (if v < 0 { -1int } else if v == 0 { 0int } else { 1int }),
{
}

/// Consensus does not depend on which party spoke first.
pub proof fn lemma_consensus_commutative(a: Trit, b: Trit)
    ensures
        consensus_spec(a, b) == consensus_spec(b, a),
{
}

/// Tend yields to the other side: it is the neutral element of consensus.
pub proof fn lemma_consensus_tend_neutral(a: Trit)
    ensures
        consensus_spec(Trit::Tend, a) == a,
        consensus_spec(a, Trit::Tend) == a,
{
}

/// Agreement holds: a trit in consensus with itself is that trit.
pub proof fn lemma_consensus_agreement(a: Trit)
    ensures
        consensus_spec(a, a) == a,
{
}

/// Affirm against reject, in either order, resolves to an explicit hold.
pub proof fn lemma_consensus_disagreement_holds()
    ensures
        consensus_spec(Trit::Affirm, Trit::Reject) == Trit::Tend,
        consensus_spec(Trit::Reject, Trit::Affirm) == Trit::Tend,
{
}

} // verus!
