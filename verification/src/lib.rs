//! Time-gated, scored participation events on a shared ledger.
//!
//! The crate verifies the event participation and reward-issuance state
//! machine: an administrator creates time-windowed events, admins or
//! allow-listed verifiers record task completions that accumulate a score,
//! and a participant may claim a one-time reward and then mint a one-time
//! commemorative token.  Every operation either commits all of its writes or
//! returns an error and leaves the state untouched.
//!
//! Platform services of the ledger (durable storage, authorization-proof
//! verification, the clock, and cross-contract calls) are modeled as explicit
//! state and explicit parameters: the clock is a `now` argument, callers are
//! plain addresses the platform has already authenticated, and the
//! leaderboard collaborator receives the submission the library hands back.

pub mod achievements;
pub mod events;
