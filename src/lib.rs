//! Decides whether a user may run a restricted program with a given command
//! line, from the system's user and group registries and a per-user list of
//! patterns.

mod authorize;
mod laws;
mod matcher;
mod policy;
mod registry;
mod text;

pub use authorize::{anchor, authorize, build_wish, decide, verdict, Decision, Denial, PatternError, Trial};
pub use policy::Policy;
pub use registry::{group_id, lines_of, user_by_uid, RegistryError};
pub use text::{chars_of, parse_u32, split_chars, trim_end_chars};
pub use laws::{
    absent_user_denied, anchoring_adds_one_each, anchoring_idempotent, anchoring_keeps_anchored,
    broken_pattern_stops, first_match_wins,
};
