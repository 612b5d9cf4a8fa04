use bifp_core::badge::{Badge, BadgeContext};
use bifp_core::derive_badge;
use bifp_core::trit::Trit;

#[test]
fn cycle_event_overrides_everything() {
    let ctx = BadgeContext { closed: true, is_cycle_event: true, ..Default::default() };
    assert_eq!(derive_badge(Trit::Affirm, ctx), Badge::CycleEvent);
}

#[test]
fn settled_vs_fresh_affirm() {
    let fresh = BadgeContext::default();
    let settled = BadgeContext { reconfirm_count: 3, ..Default::default() };
    assert_eq!(derive_badge(Trit::Affirm, fresh), Badge::GreenFresh);
    assert_eq!(derive_badge(Trit::Affirm, settled), Badge::BlueSettled);
}

#[test]
fn default_context_is_all_clear() {
    let c = BadgeContext::default();
    assert!(!c.in_progress && !c.deliberating && !c.flagged_by_calibration);
    assert!(!c.closed && !c.is_cycle_event);
    assert_eq!(c.reconfirm_count, 0);
}

#[test]
fn lifecycle_conditions_take_precedence_in_order() {
    let all = BadgeContext {
        in_progress: true,
        deliberating: true,
        flagged_by_calibration: true,
        closed: true,
        reconfirm_count: 5,
        is_cycle_event: false,
    };
    assert_eq!(derive_badge(Trit::Reject, all), Badge::Closed);
    let no_close = BadgeContext { closed: false, ..all };
    assert_eq!(derive_badge(Trit::Reject, no_close), Badge::Orange);
    let no_flag = BadgeContext { flagged_by_calibration: false, ..no_close };
    assert_eq!(derive_badge(Trit::Reject, no_flag), Badge::Purple);
    let no_delib = BadgeContext { deliberating: false, ..no_flag };
    assert_eq!(derive_badge(Trit::Reject, no_delib), Badge::Brown);
    let none = BadgeContext { in_progress: false, ..no_delib };
    assert_eq!(derive_badge(Trit::Reject, none), Badge::Red);
}

#[test]
fn trit_colours_when_clear() {
    let clear = BadgeContext::default();
    assert_eq!(derive_badge(Trit::Reject, clear), Badge::Red);
    assert_eq!(derive_badge(Trit::Tend, clear), Badge::Yellow);
    let once = BadgeContext { reconfirm_count: 1, ..Default::default() };
    assert_eq!(derive_badge(Trit::Affirm, once), Badge::GreenFresh);
    let twice = BadgeContext { reconfirm_count: 2, ..Default::default() };
    assert_eq!(derive_badge(Trit::Affirm, twice), Badge::BlueSettled);
    // Reconfirmation only settles an affirm.
    assert_eq!(derive_badge(Trit::Tend, twice), Badge::Yellow);
}
