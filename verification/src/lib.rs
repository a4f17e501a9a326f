//! Personal time-tracking core: a ledger of accumulated time per project key,
//! and an exclusive session that folds elapsed wall-clock time into the
//! ledger when it is closed or switched.
//!
//! Time is represented throughout as whole seconds; an accumulated value of
//! `s` seconds stands for `s / 3600` hours. Keeping integer seconds makes the
//! arithmetic exact: truncation happens only in display formatting.
use vstd::prelude::*;

pub mod ledger;
pub mod session;
pub mod time;

verus! {

/// The error kinds the core reports to its caller. Persistence and
/// command-line concerns stay outside the core.
#[derive(Clone, Copy, Debug, PartialEq, Eq, Structural)]
pub enum ErrorKind {
    /// `remove` was asked for a key the ledger does not hold.
    NotFound,
    /// `end` or `status` was called while no session is active.
    NoActiveSession,
}

} // verus!
