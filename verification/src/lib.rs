//! bifp-core: the native primitives of the Bidirectional Instant Feedback Protocol,
//! with their behaviour stated as contracts and proved.
//!
//! - `trit`: the ternary value (-1 reject, 0 tend, +1 affirm) and ternary consensus.
//! - `flag`: the flag tuple both parties emit to each other.
//! - `plan`: teach-then-handoff splitting of classified subtasks into two queues.
//! - `tap`: the hold-until-resolved interceptor over a ternary decision.
//! - `badge`: the ten-symbol badge palette.
//! - `store`: the append-only JSON-lines framing of the flag store, and the
//!   reconfirmation count over recalled flags.
//!
//! Floating-point evidence arithmetic (means, zone thresholds, clamping) is not part of
//! this crate: a confidence travels through it as the bit pattern of its `f64`.

pub mod badge;
pub mod flag;
pub mod plan;
pub mod store;
pub mod tap;
pub mod trit;

pub use badge::{derive as derive_badge, Badge, BadgeContext};
pub use flag::{Flag, Source};
pub use plan::{plan, Plan, PlannedTask};
pub use store::FlagStore;
pub use tap::{evaluate as tap_evaluate, resolve as tap_resolve, Signal};
pub use trit::Trit;
