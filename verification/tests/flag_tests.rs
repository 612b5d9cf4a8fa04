use bifp_core::flag::{Flag, Source};
use bifp_core::trit::Trit;

#[test]
fn new_flag_carries_its_trit_and_revises_nothing() {
    let f = Flag::new(Trit::Reject, 0.5f64.to_bits(), "x:3".to_string(), Source::Agent, "t3".to_string());
    assert_eq!(f.trit, -1);
    assert_eq!(f.trit(), Trit::Reject);
    assert_eq!(f.revises, None);
    assert_eq!(f.note, "x:3");
    assert_eq!(f.ts, "t3");
    assert_eq!(f.source, Source::Agent);
    assert_eq!(f64::from_bits(f.confidence_bits), 0.5);
}

#[test]
fn trit_is_read_by_sign() {
    let mut f = Flag::new(Trit::Affirm, 0, "n".to_string(), Source::Human, "t".to_string());
    f.trit = 7;
    assert_eq!(f.trit(), Trit::Affirm);
    f.trit = -3;
    assert_eq!(f.trit(), Trit::Reject);
}

#[test]
fn revising_points_back_and_keeps_the_rest() {
    let f = Flag::new(Trit::Affirm, 0.9f64.to_bits(), "note".to_string(), Source::Human, "ts".to_string());
    let r = f.clone().revising(41);
    assert_eq!(r.revises, Some(41));
    assert_eq!(r.trit, f.trit);
    assert_eq!(r.note, f.note);
    assert_eq!(r.ts, f.ts);
    assert_eq!(r.confidence_bits, f.confidence_bits);
}

#[test]
fn source_names() {
    assert_eq!(Source::from_name("human"), Source::Human);
    assert_eq!(Source::from_name("HuMaN"), Source::Human);
    assert_eq!(Source::from_name("agent"), Source::Agent);
    assert_eq!(Source::from_name("human "), Source::Agent);
    assert_eq!(Source::from_name("huma"), Source::Agent);
    assert_eq!(Source::from_name("hum\u{e4}n"), Source::Agent);
    assert_eq!(Source::from_name(""), Source::Agent);
}
