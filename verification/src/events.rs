//! The seasonal-event contract: an admin-owned catalog of time-windowed,
//! scored events, per-participant completion records, and one-time reward
//! and commemorative-token issuance.
//!
//! Every operation is a single atomic unit: it either commits all of its
//! writes (the `Ok` case) or returns an error and leaves the state exactly
//! as it was.  The ledger clock is an explicit `now` argument; callers are
//! plain addresses that the platform has already authenticated.

use vstd::prelude::*;
use std::collections::HashMap;

verus! {

broadcast use vstd::std_specs::hash::group_hash_axioms;

/// A principal on the ledger, identified by a plain address value.
pub type Address = u64;

/// The basis-point denominator: a bonus multiplier of `BPS_BASE` means 1.0x.
pub const BPS_BASE: u32 = 10_000;

/// Why an operation was rejected.  Every error leaves the state unchanged.
#[derive(Clone, Copy, Debug, PartialEq, Eq)]
pub enum Error {
    AlreadyInitialized,
    Unauthorized,
    ContractPaused,
    InvalidTimeRange,
    EventNotFound,
    EventNotActive,
    PuzzleNotInEvent,
    AlreadyCompleted,
    NotParticipant,
    AlreadyClaimed,
    AlreadyMinted,
    RewardNotYetClaimed,
}

/// The singleton contract configuration, created once by `initialize`.
#[derive(Clone, Copy, Debug)]
pub struct Config {
    pub admin: Address,
    pub leaderboard: Option<Address>,
    pub paused: bool,
}

/// An admin-defined scoring campaign with a time window, a reward, and the
/// metadata of its commemorative token.
#[derive(Clone, Debug)]
pub struct Event {
    pub id: u64,
    pub name: String,
    pub start_time: u64,
    pub end_time: u64,
    pub reward_amount: i128,
    pub bonus_multiplier_bps: u32,
    pub nft_metadata: String,
    pub puzzle_ids: Vec<u32>,
    pub cancelled: bool,
}

/// The mathematical value of an [`Event`].
pub struct EventV {
    pub id: u64,
    pub name: Seq<char>,
    pub start_time: u64,
    pub end_time: u64,
    pub reward_amount: i128,
    pub bonus_multiplier_bps: u32,
    pub nft_metadata: Seq<char>,
    pub puzzle_ids: Seq<u32>,
    pub cancelled: bool,
}

impl View for Event {
    type V = EventV;

    open spec fn view(&self) -> EventV {
        EventV {
            id: self.id,
            name: self.name@,
            start_time: self.start_time,
            end_time: self.end_time,
            reward_amount: self.reward_amount,
            bonus_multiplier_bps: self.bonus_multiplier_bps,
            nft_metadata: self.nft_metadata@,
            puzzle_ids: self.puzzle_ids@,
            cancelled: self.cancelled,
        }
    }
}

/// A commemorative token, minted at most once per participant per event.
#[derive(Clone, Debug)]
pub struct EventNft {
    pub owner: Address,
    pub event_id: u64,
    pub metadata: String,
    pub minted_at: u64,
}

/// The mathematical value of an [`EventNft`].
pub struct EventNftV {
    pub owner: Address,
    pub event_id: u64,
    pub metadata: Seq<char>,
    pub minted_at: u64,
}

impl View for EventNft {
    type V = EventNftV;

    open spec fn view(&self) -> EventNftV {
        EventNftV {
            owner: self.owner,
            event_id: self.event_id,
            metadata: self.metadata@,
            minted_at: self.minted_at,
        }
    }
}

/// A score submission owed to the configured leaderboard collaborator.
/// The caller must deliver it in the same atomic unit as the completion
/// that produced it: if the collaborator rejects it, the completion must
/// be rolled back as well.
#[derive(Clone, Copy, Debug, PartialEq, Eq)]
pub struct ScoreSubmission {
    pub leaderboard: Address,
    pub user: Address,
    pub score: i128,
}

/// Everything recorded about one (event, participant) pair.  A record
/// exists exactly when the participant has at least one completion.
#[derive(Clone, Debug)]
struct ParticipantRecord {
    completed: Vec<u32>,
    score: i128,
    reward_claimed: bool,
    nft_claimed: bool,
}

/// One event together with its participation records.
#[derive(Clone, Debug)]
struct EventState {
    event: Event,
    records: HashMap<Address, ParticipantRecord>,
}

/// Normalizes a bonus multiplier: zero stands for "no bonus", 1.0x.
pub open spec fn normalize_bps(bonus_bps: u32) -> u32 {
    if bonus_bps == 0 {
        BPS_BASE
    } else {
        bonus_bps
    }
}

/// The reward owed for `amount` under a bonus multiplier:
/// `floor(amount * normalize_bps(bonus_bps) / BPS_BASE)`.
pub open spec fn bonus_amount(amount: i128, bonus_bps: u32) -> int {
    amount * normalize_bps(bonus_bps) / (BPS_BASE as int)
}

/// Whether an event is active at instant `now`: not cancelled, and `now`
/// lies inside the inclusive window `[start_time, end_time]`.
pub open spec fn event_active_at(ev: EventV, now: u64) -> bool {
    &&& !ev.cancelled
    &&& ev.start_time <= now <= ev.end_time
}

/// A stored event is well formed: a non-empty time window, a normalized
/// (non-zero) bonus, and a reward whose scaled value fits in `i128`.
pub open spec fn event_wf(ev: EventV) -> bool {
    &&& ev.start_time < ev.end_time
    &&& ev.bonus_multiplier_bps != 0
    &&& i128::MIN <= ev.reward_amount * ev.bonus_multiplier_bps <= i128::MAX
}

/// The contract state.  Event ids are dense and start at 1; token ids are
/// dense and start at 1.
#[derive(Clone, Debug)]
pub struct SeasonalEventContract {
    config: Option<Config>,
    events: Vec<EventState>,
    verifiers: HashMap<Address, bool>,
    nfts: Vec<EventNft>,
}

impl SeasonalEventContract {
    // ───────────── The mathematical view of the state ─────────────

    /// Whether `initialize` has run.
    pub closed spec fn is_initialized(&self) -> bool {
        self.config is Some
    }

    /// The administrator set at initialization.
    pub closed spec fn spec_admin(&self) -> Address {
        self.config->Some_0.admin
    }

    /// The configured leaderboard collaborator, if any.
    pub closed spec fn spec_leaderboard(&self) -> Option<Address> {
        self.config->Some_0.leaderboard
    }

    /// Whether the contract is paused.
    pub closed spec fn spec_paused(&self) -> bool {
        self.config->Some_0.paused
    }

    /// Whether `a` is on the verifier allow-list.
    pub closed spec fn is_verifier(&self, a: Address) -> bool {
        self.verifiers@.contains_key(a) && self.verifiers@[a]
    }

    /// How many events have been created.
    pub closed spec fn num_events(&self) -> int {
        self.events@.len() as int
    }

    /// Whether an event with this id exists.  Ids are assigned densely
    /// starting at 1, and events are never deleted.
    pub open spec fn has_event(&self, event_id: u64) -> bool {
        1 <= event_id <= self.num_events()
    }

    /// The stored event with this id.
    pub closed spec fn event_v(&self, event_id: u64) -> EventV {
        self.events@[event_id - 1].event@
    }

    /// Whether `user` has completed task `puzzle_id` of event `event_id`.
    pub closed spec fn completed(&self, event_id: u64, user: Address, puzzle_id: u32) -> bool {
        &&& self.is_participant(event_id, user)
        &&& self.events@[event_id - 1].records@[user].completed@.contains(puzzle_id)
    }

    /// Whether `user` has at least one completion in event `event_id`.
    pub closed spec fn is_participant(&self, event_id: u64, user: Address) -> bool {
        &&& self.has_event(event_id)
        &&& self.events@[event_id - 1].records@.contains_key(user)
    }

    /// The running score of `user` in event `event_id` (0 before any
    /// completion).
    pub closed spec fn score_of(&self, event_id: u64, user: Address) -> i128 {
        if self.is_participant(event_id, user) {
            self.events@[event_id - 1].records@[user].score
        } else {
            0
        }
    }

    /// Whether `user` has claimed the one-time reward of event `event_id`.
    pub closed spec fn reward_claimed(&self, event_id: u64, user: Address) -> bool {
        &&& self.is_participant(event_id, user)
        &&& self.events@[event_id - 1].records@[user].reward_claimed
    }

    /// Whether `user` has minted the commemorative token of event
    /// `event_id`.
    pub closed spec fn nft_claimed(&self, event_id: u64, user: Address) -> bool {
        &&& self.is_participant(event_id, user)
        &&& self.events@[event_id - 1].records@[user].nft_claimed
    }

    /// How many commemorative tokens have been minted, over all events.
    pub closed spec fn num_nfts(&self) -> int {
        self.nfts@.len() as int
    }

    /// Whether a token with this id exists.  Token ids are assigned
    /// densely starting at 1, and tokens are never destroyed.
    pub open spec fn has_nft(&self, token_id: u32) -> bool {
        1 <= token_id <= self.num_nfts()
    }

    /// The stored token with this id.
    pub closed spec fn nft_v(&self, token_id: u32) -> EventNftV {
        self.nfts@[token_id - 1]@
    }

    /// The state invariant: every stored event is well formed and sits at
    /// the index its id names, one more event or token id is still
    /// assignable, and a token is only ever minted after the reward claim.
    pub closed spec fn wf(&self) -> bool {
        &&& forall|i: int|
            0 <= i < self.events@.len() ==> {
                &&& (#[trigger] self.events@[i]).event.id == i + 1
                &&& event_wf(self.events@[i].event@)
            }
        &&& forall|i: int, u: Address|
            0 <= i < self.events@.len() && (#[trigger] self.events@[i].records@.contains_key(u))
                && self.events@[i].records@[u].nft_claimed
                ==> self.events@[i].records@[u].reward_claimed
        &&& self.events@.len() < u64::MAX - 1
        &&& self.nfts@.len() < u32::MAX - 1
    }

    // ───────────── Frame predicates ─────────────

    /// The configuration is the same in `a` and `b`.
    pub open spec fn config_unchanged(a: &Self, b: &Self) -> bool {
        &&& b.is_initialized() == a.is_initialized()
        &&& b.spec_admin() == a.spec_admin()
        &&& b.spec_leaderboard() == a.spec_leaderboard()
        &&& b.spec_paused() == a.spec_paused()
    }

    /// The verifier allow-list is the same in `a` and `b`.
    pub open spec fn verifiers_unchanged(a: &Self, b: &Self) -> bool {
        forall|v: Address| #[trigger] b.is_verifier(v) == a.is_verifier(v)
    }

    /// The event catalog is the same in `a` and `b`.
    pub open spec fn events_unchanged(a: &Self, b: &Self) -> bool {
        &&& b.num_events() == a.num_events()
        &&& forall|id: u64| a.has_event(id) ==> #[trigger] b.event_v(id) == a.event_v(id)
    }

    /// All participation data (completions, scores, claim flags) is the
    /// same in `a` and `b`.
    pub open spec fn participation_unchanged(a: &Self, b: &Self) -> bool {
        &&& forall|e: u64, u: Address, t: u32|
            #[trigger] b.completed(e, u, t) == a.completed(e, u, t)
        &&& forall|e: u64, u: Address| #[trigger] b.is_participant(e, u) == a.is_participant(e, u)
        &&& forall|e: u64, u: Address| #[trigger] b.score_of(e, u) == a.score_of(e, u)
        &&& forall|e: u64, u: Address| #[trigger] b.reward_claimed(e, u) == a.reward_claimed(e, u)
        &&& forall|e: u64, u: Address| #[trigger] b.nft_claimed(e, u) == a.nft_claimed(e, u)
    }

    /// The minted tokens are the same in `a` and `b`.
    pub open spec fn nfts_unchanged(a: &Self, b: &Self) -> bool {
        &&& b.num_nfts() == a.num_nfts()
        &&& forall|t: u32| a.has_nft(t) ==> #[trigger] b.nft_v(t) == a.nft_v(t)
    }

    // ───────────── Construction ─────────────

    /// An empty, uninitialized contract.
    pub fn new() -> (r: Self)
        ensures
            r.wf(),
            !r.is_initialized(),
            r.num_events() == 0,
            r.num_nfts() == 0,
            forall|v: Address| !(#[trigger] r.is_verifier(v)),
    {
        SeasonalEventContract {
            config: None,
            events: Vec::new(),
            verifiers: HashMap::new(),
            nfts: Vec::new(),
        }
    }

    // ───────────── Initialization ─────────────

    /// Creates the singleton configuration.  Fails if it already exists;
    /// the counters for event and token ids start at 1.
    pub fn initialize(&mut self, admin: Address, leaderboard: Option<Address>) -> (r: Result<
        (),
        Error,
    >)
        requires
            old(self).wf(),
        ensures
            final(self).wf(),
            match r {
                Ok(()) => {
                    &&& !old(self).is_initialized()
                    &&& final(self).is_initialized()
                    &&& final(self).spec_admin() == admin
                    &&& final(self).spec_leaderboard() == leaderboard
                    &&& !final(self).spec_paused()
                    &&& Self::verifiers_unchanged(old(self), final(self))
                    &&& Self::events_unchanged(old(self), final(self))
                    &&& Self::participation_unchanged(old(self), final(self))
                    &&& Self::nfts_unchanged(old(self), final(self))
                },
                Err(e) => {
                    &&& e == Error::AlreadyInitialized
                    &&& old(self).is_initialized()
                    &&& *final(self) == *old(self)
                },
            },
    {
        if self.config.is_some() {
            return Err(Error::AlreadyInitialized);
        }
        self.config = Some(Config { admin, leaderboard, paused: false });
        Ok(())
    }

    // ───────────── Admin configuration ─────────────

    /// What an admin-only operation rejects: a caller that is not the
    /// administrator.
    pub open spec fn admin_check(&self, admin: Address) -> Result<(), Error> {
        if admin != self.spec_admin() {
            Err(Error::Unauthorized)
        } else {
            Ok(())
        }
    }

    /// Adds an address to the verifier allow-list.  Idempotent.
    pub fn add_verifier(&mut self, admin: Address, verifier: Address) -> (r: Result<(), Error>)
        requires
            old(self).wf(),
            old(self).is_initialized(),
        ensures
            final(self).wf(),
            final(self).is_initialized(),
            match r {
                Ok(()) => {
                    &&& old(self).admin_check(admin) is Ok
                    &&& final(self).is_verifier(verifier)
                    &&& forall|v: Address|
                        v != verifier ==> #[trigger] final(self).is_verifier(v) == old(
                            self,
                        ).is_verifier(v)
                    &&& Self::config_unchanged(old(self), final(self))
                    &&& Self::events_unchanged(old(self), final(self))
                    &&& Self::participation_unchanged(old(self), final(self))
                    &&& Self::nfts_unchanged(old(self), final(self))
                },
                Err(e) => {
                    &&& old(self).admin_check(admin) == Err::<(), Error>(e)
                    &&& *final(self) == *old(self)
                },
            },
    {
        let cfg = self.config.unwrap();
        if admin != cfg.admin {
            return Err(Error::Unauthorized);
        }
        self.verifiers.insert(verifier, true);
        Ok(())
    }

    /// Removes an address from the verifier allow-list.  Removing an
    /// address that is not listed is a no-op.
    pub fn remove_verifier(&mut self, admin: Address, verifier: Address) -> (r: Result<(), Error>)
        requires
            old(self).wf(),
            old(self).is_initialized(),
        ensures
            final(self).wf(),
            final(self).is_initialized(),
            match r {
                Ok(()) => {
                    &&& old(self).admin_check(admin) is Ok
                    &&& !final(self).is_verifier(verifier)
                    &&& forall|v: Address|
                        v != verifier ==> #[trigger] final(self).is_verifier(v) == old(
                            self,
                        ).is_verifier(v)
                    &&& Self::config_unchanged(old(self), final(self))
                    &&& Self::events_unchanged(old(self), final(self))
                    &&& Self::participation_unchanged(old(self), final(self))
                    &&& Self::nfts_unchanged(old(self), final(self))
                },
                Err(e) => {
                    &&& old(self).admin_check(admin) == Err::<(), Error>(e)
                    &&& *final(self) == *old(self)
                },
            },
    {
        let cfg = self.config.unwrap();
        if admin != cfg.admin {
            return Err(Error::Unauthorized);
        }
        self.verifiers.remove(&verifier);
        Ok(())
    }

    /// Sets the pause flag.  While paused, completions, claims and mints
    /// are rejected.
    pub fn set_paused(&mut self, admin: Address, paused: bool) -> (r: Result<(), Error>)
        requires
            old(self).wf(),
            old(self).is_initialized(),
        ensures
            final(self).wf(),
            final(self).is_initialized(),
            match r {
                Ok(()) => {
                    &&& old(self).admin_check(admin) is Ok
                    &&& final(self).spec_paused() == paused
                    &&& final(self).spec_admin() == old(self).spec_admin()
                    &&& final(self).spec_leaderboard() == old(self).spec_leaderboard()
                    &&& Self::verifiers_unchanged(old(self), final(self))
                    &&& Self::events_unchanged(old(self), final(self))
                    &&& Self::participation_unchanged(old(self), final(self))
                    &&& Self::nfts_unchanged(old(self), final(self))
                },
                Err(e) => {
                    &&& old(self).admin_check(admin) == Err::<(), Error>(e)
                    &&& *final(self) == *old(self)
                },
            },
    {
        let mut cfg = self.config.unwrap();
        if admin != cfg.admin {
            return Err(Error::Unauthorized);
        }
        cfg.paused = paused;
        self.config = Some(cfg);
        Ok(())
    }

    /// Replaces the leaderboard collaborator reference.
    pub fn set_leaderboard(&mut self, admin: Address, leaderboard: Option<Address>) -> (r: Result<
        (),
        Error,
    >)
        requires
            old(self).wf(),
            old(self).is_initialized(),
        ensures
            final(self).wf(),
            final(self).is_initialized(),
            match r {
                Ok(()) => {
                    &&& old(self).admin_check(admin) is Ok
                    &&& final(self).spec_leaderboard() == leaderboard
                    &&& final(self).spec_admin() == old(self).spec_admin()
                    &&& final(self).spec_paused() == old(self).spec_paused()
                    &&& Self::verifiers_unchanged(old(self), final(self))
                    &&& Self::events_unchanged(old(self), final(self))
                    &&& Self::participation_unchanged(old(self), final(self))
                    &&& Self::nfts_unchanged(old(self), final(self))
                },
                Err(e) => {
                    &&& old(self).admin_check(admin) == Err::<(), Error>(e)
                    &&& *final(self) == *old(self)
                },
            },
    {
        let mut cfg = self.config.unwrap();
        if admin != cfg.admin {
            return Err(Error::Unauthorized);
        }
        cfg.leaderboard = leaderboard;
        self.config = Some(cfg);
        Ok(())
    }
}

/// Grants mutable access to one event's state, leaving the rest of the
/// catalog untouched.
fn event_state_mut(events: &mut Vec<EventState>, i: usize) -> (r: &mut EventState)
    requires
        i < old(events).len(),
    ensures
        *r == old(events)@[i as int],
        final(events)@ == old(events)@.update(i as int, *final(r)),
{
    &mut events[i]
}

impl SeasonalEventContract {
    // ───────────── The event catalog ─────────────

    /// What `create_event` rejects: a caller that is not the administrator,
    /// then an empty or inverted time window.
    pub open spec fn create_event_check(&self, admin: Address, start_time: u64, end_time: u64)
        -> Result<(), Error> {
        if admin != self.spec_admin() {
            Err(Error::Unauthorized)
        } else if start_time >= end_time {
            Err(Error::InvalidTimeRange)
        } else {
            Ok(())
        }
    }

    /// What an operation on a stored event rejects: a caller that is not
    /// the administrator, then an unknown event id.
    pub open spec fn admin_event_check(&self, admin: Address, event_id: u64) -> Result<(), Error> {
        if admin != self.spec_admin() {
            Err(Error::Unauthorized)
        } else if !self.has_event(event_id) {
            Err(Error::EventNotFound)
        } else {
            Ok(())
        }
    }

    /// Creates a new event and returns its id.  Ids are assigned
    /// monotonically starting at 1; the bonus multiplier is normalized
    /// (0 becomes `BPS_BASE`).
    pub fn create_event(
        &mut self,
        admin: Address,
        name: String,
        start_time: u64,
        end_time: u64,
        reward_amount: i128,
        bonus_multiplier_bps: u32,
        nft_metadata: String,
        puzzle_ids: Vec<u32>,
    ) -> (r: Result<u64, Error>)
        requires
            old(self).wf(),
            old(self).is_initialized(),
            old(self).num_events() < u64::MAX - 2,
            i128::MIN <= reward_amount * normalize_bps(bonus_multiplier_bps) <= i128::MAX,
        ensures
            final(self).wf(),
            final(self).is_initialized(),
            match r {
                Ok(id) => {
                    &&& old(self).create_event_check(admin, start_time, end_time) is Ok
                    &&& id == old(self).num_events() + 1
                    &&& final(self).num_events() == old(self).num_events() + 1
                    &&& final(self).event_v(id) == (EventV {
                        id,
                        name: name@,
                        start_time,
                        end_time,
                        reward_amount,
                        bonus_multiplier_bps: normalize_bps(bonus_multiplier_bps),
                        nft_metadata: nft_metadata@,
                        puzzle_ids: puzzle_ids@,
                        cancelled: false,
                    })
                    &&& forall|id2: u64|
                        old(self).has_event(id2) ==> #[trigger] final(self).event_v(id2) == old(
                            self,
                        ).event_v(id2)
                    &&& Self::config_unchanged(old(self), final(self))
                    &&& Self::verifiers_unchanged(old(self), final(self))
                    &&& Self::participation_unchanged(old(self), final(self))
                    &&& Self::nfts_unchanged(old(self), final(self))
                },
                Err(e) => {
                    &&& old(self).create_event_check(admin, start_time, end_time) == Err::<
                        (),
                        Error,
                    >(e)
                    &&& *final(self) == *old(self)
                },
            },
    {
        let cfg = self.config.unwrap();
        if admin != cfg.admin {
            return Err(Error::Unauthorized);
        }
        if start_time >= end_time {
            return Err(Error::InvalidTimeRange);
        }
        let bonus: u32 = if bonus_multiplier_bps == 0 {
            BPS_BASE
        } else {
            bonus_multiplier_bps
        };
        let id: u64 = (self.events.len() as u64) + 1;
        let event = Event {
            id,
            name,
            start_time,
            end_time,
            reward_amount,
            bonus_multiplier_bps: bonus,
            nft_metadata,
            puzzle_ids,
            cancelled: false,
        };
        self.events.push(EventState { event, records: HashMap::new() });
        Ok(id)
    }

    /// Replaces an event's time window, re-validating `start < end`.
    pub fn update_event_times(
        &mut self,
        admin: Address,
        event_id: u64,
        start_time: u64,
        end_time: u64,
    ) -> (r: Result<(), Error>)
        requires
            old(self).wf(),
            old(self).is_initialized(),
        ensures
            final(self).wf(),
            final(self).is_initialized(),
            match r {
                Ok(()) => {
                    &&& admin == old(self).spec_admin()
                    &&& start_time < end_time
                    &&& old(self).has_event(event_id)
                    &&& final(self).event_v(event_id) == (EventV {
                        start_time,
                        end_time,
                        ..old(self).event_v(event_id)
                    })
                    &&& final(self).num_events() == old(self).num_events()
                    &&& forall|id2: u64|
                        old(self).has_event(id2) && id2 != event_id ==> #[trigger] final(self).event_v(id2) == old(self).event_v(id2)
                    &&& Self::config_unchanged(old(self), final(self))
                    &&& Self::verifiers_unchanged(old(self), final(self))
                    &&& Self::participation_unchanged(old(self), final(self))
                    &&& Self::nfts_unchanged(old(self), final(self))
                },
                Err(e) => {
                    &&& *final(self) == *old(self)
                    &&& (if admin != old(self).spec_admin() {
                        e == Error::Unauthorized
                    } else if start_time >= end_time {
                        e == Error::InvalidTimeRange
                    } else {
                        e == Error::EventNotFound && !old(self).has_event(event_id)
                    })
                },
            },
    {
        let cfg = self.config.unwrap();
        if admin != cfg.admin {
            return Err(Error::Unauthorized);
        }
        if start_time >= end_time {
            return Err(Error::InvalidTimeRange);
        }
        if event_id < 1 || event_id > self.events.len() as u64 {
            return Err(Error::EventNotFound);
        }
        let idx: usize = (event_id - 1) as usize;
        let st = event_state_mut(&mut self.events, idx);
        st.event.start_time = start_time;
        st.event.end_time = end_time;
        Ok(())
    }

    /// Replaces an event's reward amount, bonus multiplier (normalized)
    /// and token metadata.
    pub fn update_event_rewards(
        &mut self,
        admin: Address,
        event_id: u64,
        reward_amount: i128,
        bonus_multiplier_bps: u32,
        nft_metadata: String,
    ) -> (r: Result<(), Error>)
        requires
            old(self).wf(),
            old(self).is_initialized(),
            i128::MIN <= reward_amount * normalize_bps(bonus_multiplier_bps) <= i128::MAX,
        ensures
            final(self).wf(),
            final(self).is_initialized(),
            match r {
                Ok(()) => {
                    &&& old(self).admin_event_check(admin, event_id) is Ok
                    &&& final(self).event_v(event_id) == (EventV {
                        reward_amount,
                        bonus_multiplier_bps: normalize_bps(bonus_multiplier_bps),
                        nft_metadata: nft_metadata@,
                        ..old(self).event_v(event_id)
                    })
                    &&& final(self).num_events() == old(self).num_events()
                    &&& forall|id2: u64|
                        old(self).has_event(id2) && id2 != event_id ==> #[trigger] final(self).event_v(id2) == old(self).event_v(id2)
                    &&& Self::config_unchanged(old(self), final(self))
                    &&& Self::verifiers_unchanged(old(self), final(self))
                    &&& Self::participation_unchanged(old(self), final(self))
                    &&& Self::nfts_unchanged(old(self), final(self))
                },
                Err(e) => {
                    &&& old(self).admin_event_check(admin, event_id) == Err::<(), Error>(e)
                    &&& *final(self) == *old(self)
                },
            },
    {
        let cfg = self.config.unwrap();
        if admin != cfg.admin {
            return Err(Error::Unauthorized);
        }
        if event_id < 1 || event_id > self.events.len() as u64 {
            return Err(Error::EventNotFound);
        }
        let idx: usize = (event_id - 1) as usize;
        let bonus: u32 = if bonus_multiplier_bps == 0 {
            BPS_BASE
        } else {
            bonus_multiplier_bps
        };
        let st = event_state_mut(&mut self.events, idx);
        st.event.reward_amount = reward_amount;
        st.event.bonus_multiplier_bps = bonus;
        st.event.nft_metadata = nft_metadata;
        Ok(())
    }

    /// Replaces an event's set of eligible task identifiers.
    pub fn update_event_puzzles(&mut self, admin: Address, event_id: u64, puzzle_ids: Vec<u32>)
        -> (r: Result<(), Error>)
        requires
            old(self).wf(),
            old(self).is_initialized(),
        ensures
            final(self).wf(),
            final(self).is_initialized(),
            match r {
                Ok(()) => {
                    &&& old(self).admin_event_check(admin, event_id) is Ok
                    &&& final(self).event_v(event_id) == (EventV {
                        puzzle_ids: puzzle_ids@,
                        ..old(self).event_v(event_id)
                    })
                    &&& final(self).num_events() == old(self).num_events()
                    &&& forall|id2: u64|
                        old(self).has_event(id2) && id2 != event_id ==> #[trigger] final(self).event_v(id2) == old(self).event_v(id2)
                    &&& Self::config_unchanged(old(self), final(self))
                    &&& Self::verifiers_unchanged(old(self), final(self))
                    &&& Self::participation_unchanged(old(self), final(self))
                    &&& Self::nfts_unchanged(old(self), final(self))
                },
                Err(e) => {
                    &&& old(self).admin_event_check(admin, event_id) == Err::<(), Error>(e)
                    &&& *final(self) == *old(self)
                },
            },
    {
        let cfg = self.config.unwrap();
        if admin != cfg.admin {
            return Err(Error::Unauthorized);
        }
        if event_id < 1 || event_id > self.events.len() as u64 {
            return Err(Error::EventNotFound);
        }
        let idx: usize = (event_id - 1) as usize;
        let st = event_state_mut(&mut self.events, idx);
        st.event.puzzle_ids = puzzle_ids;
        Ok(())
    }

    /// Sets or clears an event's cancelled flag.  A cancelled event is
    /// never active.
    pub fn set_event_cancelled(&mut self, admin: Address, event_id: u64, cancelled: bool) -> (r:
        Result<(), Error>)
        requires
            old(self).wf(),
            old(self).is_initialized(),
        ensures
            final(self).wf(),
            final(self).is_initialized(),
            match r {
                Ok(()) => {
                    &&& old(self).admin_event_check(admin, event_id) is Ok
                    &&& final(self).event_v(event_id) == (EventV {
                        cancelled,
                        ..old(self).event_v(event_id)
                    })
                    &&& final(self).num_events() == old(self).num_events()
                    &&& forall|id2: u64|
                        old(self).has_event(id2) && id2 != event_id ==> #[trigger] final(self).event_v(id2) == old(self).event_v(id2)
                    &&& Self::config_unchanged(old(self), final(self))
                    &&& Self::verifiers_unchanged(old(self), final(self))
                    &&& Self::participation_unchanged(old(self), final(self))
                    &&& Self::nfts_unchanged(old(self), final(self))
                },
                Err(e) => {
                    &&& old(self).admin_event_check(admin, event_id) == Err::<(), Error>(e)
                    &&& *final(self) == *old(self)
                },
            },
    {
        let cfg = self.config.unwrap();
        if admin != cfg.admin {
            return Err(Error::Unauthorized);
        }
        if event_id < 1 || event_id > self.events.len() as u64 {
            return Err(Error::EventNotFound);
        }
        let idx: usize = (event_id - 1) as usize;
        let st = event_state_mut(&mut self.events, idx);
        st.event.cancelled = cancelled;
        Ok(())
    }
}

/// Whether `x` occurs in `v`.
fn vec_contains(v: &Vec<u32>, x: u32) -> (r: bool)
    ensures
        r == v@.contains(x),
{
    let n = v.len();
    let mut i: usize = 0;
    while i < n
        invariant
            n == v.len(),
            i <= n,
            forall|j: int| 0 <= j < i ==> v@[j] != x,
        decreases n - i,
    {
        if v[i] == x {
            return true;
        }
        i = i + 1;
    }
    false
}

/// Whether `puzzle_id` is one of the event's eligible tasks.
fn puzzle_allowed(event: &Event, puzzle_id: u32) -> (r: bool)
    ensures
        r == event@.puzzle_ids.contains(puzzle_id),
{
    vec_contains(&event.puzzle_ids, puzzle_id)
}

impl SeasonalEventContract {
    // ───────────── Participation ─────────────

    /// What `record_puzzle_completion` rejects, in order: a submitter that
    /// is neither the administrator nor a verifier, a paused contract, an
    /// unknown event, an inactive event, a task outside the event's set,
    /// and a task this user has already completed.
    pub open spec fn record_check(
        &self,
        submitter: Address,
        event_id: u64,
        user: Address,
        puzzle_id: u32,
        now: u64,
    ) -> Result<(), Error> {
        if submitter != self.spec_admin() && !self.is_verifier(submitter) {
            Err(Error::Unauthorized)
        } else if self.spec_paused() {
            Err(Error::ContractPaused)
        } else if !self.has_event(event_id) {
            Err(Error::EventNotFound)
        } else if !event_active_at(self.event_v(event_id), now) {
            Err(Error::EventNotActive)
        } else if !self.event_v(event_id).puzzle_ids.contains(puzzle_id) {
            Err(Error::PuzzleNotInEvent)
        } else if self.completed(event_id, user, puzzle_id) {
            Err(Error::AlreadyCompleted)
        } else {
            Ok(())
        }
    }

    /// How a successful `record_puzzle_completion` changes the state: the
    /// completion is marked, the user is a participant, the score grows by
    /// `score`, and nothing else moves.
    pub open spec fn record_effect(
        pre: Self,
        post: Self,
        event_id: u64,
        user: Address,
        puzzle_id: u32,
        score: i128,
    ) -> bool {
        &&& post.completed(event_id, user, puzzle_id)
        &&& forall|e: u64, u: Address, t: u32|
            !(e == event_id && u == user && t == puzzle_id) ==> #[trigger] post.completed(e, u, t)
                == pre.completed(e, u, t)
        &&& post.is_participant(event_id, user)
        &&& forall|e: u64, u: Address|
            !(e == event_id && u == user) ==> #[trigger] post.is_participant(e, u)
                == pre.is_participant(e, u)
        &&& post.score_of(event_id, user) == pre.score_of(event_id, user) + score
        &&& forall|e: u64, u: Address|
            !(e == event_id && u == user) ==> #[trigger] post.score_of(e, u) == pre.score_of(e, u)
        &&& forall|e: u64, u: Address|
            #[trigger] post.reward_claimed(e, u) == pre.reward_claimed(e, u)
        &&& forall|e: u64, u: Address| #[trigger] post.nft_claimed(e, u) == pre.nft_claimed(e, u)
        &&& Self::config_unchanged(&pre, &post)
        &&& Self::verifiers_unchanged(&pre, &post)
        &&& Self::events_unchanged(&pre, &post)
        &&& Self::nfts_unchanged(&pre, &post)
    }

    /// Records that `user` completed task `puzzle_id` of event `event_id`,
    /// adding `score` to the running total.  On success, returns the
    /// submission owed to the leaderboard collaborator, if one is
    /// configured; the caller must deliver it within the same atomic unit.
    pub fn record_puzzle_completion(
        &mut self,
        submitter: Address,
        event_id: u64,
        user: Address,
        puzzle_id: u32,
        score: i128,
        now: u64,
    ) -> (r: Result<Option<ScoreSubmission>, Error>)
        requires
            old(self).wf(),
            old(self).is_initialized(),
            0 <= score,
            old(self).score_of(event_id, user) + score <= i128::MAX,
        ensures
            final(self).wf(),
            final(self).is_initialized(),
            match r {
                Ok(sub) => {
                    &&& old(self).record_check(submitter, event_id, user, puzzle_id, now) is Ok
                    &&& Self::record_effect(
                        *old(self),
                        *final(self),
                        event_id,
                        user,
                        puzzle_id,
                        score,
                    )
                    &&& sub == (match old(self).spec_leaderboard() {
                        Some(l) => Some(
                            ScoreSubmission {
                                leaderboard: l,
                                user,
                                score: final(self).score_of(event_id, user),
                            },
                        ),
                        None => None::<ScoreSubmission>,
                    })
                },
                Err(e) => {
                    &&& old(self).record_check(submitter, event_id, user, puzzle_id, now) == Err::<
                        (),
                        Error,
                    >(e)
                    &&& *final(self) == *old(self)
                },
            },
    {
        let cfg = self.config.unwrap();
        let is_verifier = match self.verifiers.get(&submitter) {
            Some(b) => *b,
            None => false,
        };
        if submitter != cfg.admin && !is_verifier {
            return Err(Error::Unauthorized);
        }
        if cfg.paused {
            return Err(Error::ContractPaused);
        }
        if event_id < 1 || event_id > self.events.len() as u64 {
            return Err(Error::EventNotFound);
        }
        let idx: usize = (event_id - 1) as usize;
        let st = &self.events[idx];
        if st.event.cancelled || now < st.event.start_time || now > st.event.end_time {
            return Err(Error::EventNotActive);
        }
        if !puzzle_allowed(&st.event, puzzle_id) {
            return Err(Error::PuzzleNotInEvent);
        }
        let already = match st.records.get(&user) {
            Some(rec) => vec_contains(&rec.completed, puzzle_id),
            None => false,
        };
        if already {
            return Err(Error::AlreadyCompleted);
        }
        let st = event_state_mut(&mut self.events, idx);
        let ghost old_completed = match old(self).events@[idx as int].records@.contains_key(user) {
            true => old(self).events@[idx as int].records@[user].completed@,
            false => Seq::<u32>::empty(),
        };
        let mut rec = match st.records.remove(&user) {
            Some(r0) => r0,
            None => ParticipantRecord {
                completed: Vec::new(),
                score: 0,
                reward_claimed: false,
                nft_claimed: false,
            },
        };
        rec.completed.push(puzzle_id);
        let new_score: i128 = rec.score + score;
        rec.score = new_score;
        st.records.insert(user, rec);
        proof {
            let s_old = old_completed;
            let s_new = s_old.push(puzzle_id);
            assert forall|t: u32| t != puzzle_id implies s_new.contains(t) == s_old.contains(
                t,
            ) by {
                if s_old.contains(t) {
                    let j = choose|j: int| 0 <= j < s_old.len() && s_old[j] == t;
                    assert(s_new[j] == t);
                }
                if s_new.contains(t) {
                    let j = choose|j: int| 0 <= j < s_new.len() && s_new[j] == t;
                    assert(0 <= j < s_old.len());
                    assert(s_old[j] == t);
                }
            }
            assert(s_new[s_old.len() as int] == puzzle_id);
        }
        let sub = match cfg.leaderboard {
            Some(l) => Some(ScoreSubmission { leaderboard: l, user, score: new_score }),
            None => None,
        };
        Ok(sub)
    }

    /// What `claim_event_reward` rejects, in order: a paused contract, an
    /// unknown event, an inactive event, a caller with no completion in
    /// the event, and a reward that was already claimed.
    pub open spec fn claim_check(&self, event_id: u64, user: Address, now: u64) -> Result<
        (),
        Error,
    > {
        if self.spec_paused() {
            Err(Error::ContractPaused)
        } else if !self.has_event(event_id) {
            Err(Error::EventNotFound)
        } else if !event_active_at(self.event_v(event_id), now) {
            Err(Error::EventNotActive)
        } else if !self.is_participant(event_id, user) {
            Err(Error::NotParticipant)
        } else if self.reward_claimed(event_id, user) {
            Err(Error::AlreadyClaimed)
        } else {
            Ok(())
        }
    }

    /// How a successful `claim_event_reward` changes the state: the claim
    /// flag of this one (event, user) pair is set, and nothing else moves.
    pub open spec fn claim_effect(pre: Self, post: Self, event_id: u64, user: Address) -> bool {
        &&& post.reward_claimed(event_id, user)
        &&& forall|e: u64, u: Address|
            !(e == event_id && u == user) ==> #[trigger] post.reward_claimed(e, u)
                == pre.reward_claimed(e, u)
        &&& forall|e: u64, u: Address, t: u32|
            #[trigger] post.completed(e, u, t) == pre.completed(e, u, t)
        &&& forall|e: u64, u: Address|
            #[trigger] post.is_participant(e, u) == pre.is_participant(e, u)
        &&& forall|e: u64, u: Address| #[trigger] post.score_of(e, u) == pre.score_of(e, u)
        &&& forall|e: u64, u: Address| #[trigger] post.nft_claimed(e, u) == pre.nft_claimed(e, u)
        &&& Self::config_unchanged(&pre, &post)
        &&& Self::verifiers_unchanged(&pre, &post)
        &&& Self::events_unchanged(&pre, &post)
        &&& Self::nfts_unchanged(&pre, &post)
    }

    /// Marks the one-time reward of event `event_id` as claimed by `user`
    /// and returns the amount owed: the event's current reward scaled by
    /// its bonus multiplier.  The amount is read from the event's live
    /// configuration at claim time, not snapshotted at participation time.
    pub fn claim_event_reward(&mut self, event_id: u64, user: Address, now: u64) -> (r: Result<
        i128,
        Error,
    >)
        requires
            old(self).wf(),
            old(self).is_initialized(),
        ensures
            final(self).wf(),
            final(self).is_initialized(),
            match r {
                Ok(amount) => {
                    &&& old(self).claim_check(event_id, user, now) is Ok
                    &&& Self::claim_effect(*old(self), *final(self), event_id, user)
                    &&& amount == bonus_amount(
                        old(self).event_v(event_id).reward_amount,
                        old(self).event_v(event_id).bonus_multiplier_bps,
                    )
                },
                Err(e) => {
                    &&& old(self).claim_check(event_id, user, now) == Err::<(), Error>(e)
                    &&& *final(self) == *old(self)
                },
            },
    {
        let cfg = self.config.unwrap();
        if cfg.paused {
            return Err(Error::ContractPaused);
        }
        if event_id < 1 || event_id > self.events.len() as u64 {
            return Err(Error::EventNotFound);
        }
        let idx: usize = (event_id - 1) as usize;
        let st = &self.events[idx];
        if st.event.cancelled || now < st.event.start_time || now > st.event.end_time {
            return Err(Error::EventNotActive);
        }
        match st.records.get(&user) {
            None => {
                return Err(Error::NotParticipant);
            },
            Some(r0) => {
                if r0.reward_claimed {
                    return Err(Error::AlreadyClaimed);
                }
            },
        }
        let amount = Self::apply_bonus(st.event.reward_amount, st.event.bonus_multiplier_bps);
        let st = event_state_mut(&mut self.events, idx);
        let mut rec = st.records.remove(&user).unwrap();
        rec.reward_claimed = true;
        st.records.insert(user, rec);
        Ok(amount)
    }

    /// What `mint_event_nft` rejects, in order: a paused contract, an
    /// unknown event, an inactive event, a caller with no completion in
    /// the event, a reward not yet claimed, and a token already minted.
    pub open spec fn mint_check(&self, event_id: u64, user: Address, now: u64) -> Result<
        (),
        Error,
    > {
        if self.spec_paused() {
            Err(Error::ContractPaused)
        } else if !self.has_event(event_id) {
            Err(Error::EventNotFound)
        } else if !event_active_at(self.event_v(event_id), now) {
            Err(Error::EventNotActive)
        } else if !self.is_participant(event_id, user) {
            Err(Error::NotParticipant)
        } else if !self.reward_claimed(event_id, user) {
            Err(Error::RewardNotYetClaimed)
        } else if self.nft_claimed(event_id, user) {
            Err(Error::AlreadyMinted)
        } else {
            Ok(())
        }
    }

    /// How a successful `mint_event_nft` changes the state: the mint flag
    /// of this one (event, user) pair is set, one new token with the next
    /// id is appended, and nothing else moves.
    pub open spec fn mint_effect(
        pre: Self,
        post: Self,
        event_id: u64,
        user: Address,
        now: u64,
        token_id: u32,
    ) -> bool {
        &&& post.nft_claimed(event_id, user)
        &&& forall|e: u64, u: Address|
            !(e == event_id && u == user) ==> #[trigger] post.nft_claimed(e, u) == pre.nft_claimed(
                e,
                u,
            )
        &&& forall|e: u64, u: Address, t: u32|
            #[trigger] post.completed(e, u, t) == pre.completed(e, u, t)
        &&& forall|e: u64, u: Address|
            #[trigger] post.is_participant(e, u) == pre.is_participant(e, u)
        &&& forall|e: u64, u: Address| #[trigger] post.score_of(e, u) == pre.score_of(e, u)
        &&& forall|e: u64, u: Address|
            #[trigger] post.reward_claimed(e, u) == pre.reward_claimed(e, u)
        &&& token_id == pre.num_nfts() + 1
        &&& post.num_nfts() == pre.num_nfts() + 1
        &&& post.nft_v(token_id) == (EventNftV {
            owner: user,
            event_id,
            metadata: pre.event_v(event_id).nft_metadata,
            minted_at: now,
        })
        &&& forall|t: u32| pre.has_nft(t) ==> #[trigger] post.nft_v(t) == pre.nft_v(t)
        &&& Self::config_unchanged(&pre, &post)
        &&& Self::verifiers_unchanged(&pre, &post)
        &&& Self::events_unchanged(&pre, &post)
    }

    /// Mints the one-time commemorative token of event `event_id` for
    /// `user` and returns the new token's id.  Requires the reward to have
    /// been claimed first; the token copies the event's current metadata
    /// and records `now` as its mint time.
    pub fn mint_event_nft(&mut self, event_id: u64, user: Address, now: u64) -> (r: Result<
        u32,
        Error,
    >)
        requires
            old(self).wf(),
            old(self).is_initialized(),
            old(self).num_nfts() < u32::MAX - 2,
        ensures
            final(self).wf(),
            final(self).is_initialized(),
            match r {
                Ok(token_id) => {
                    &&& old(self).mint_check(event_id, user, now) is Ok
                    &&& Self::mint_effect(
                        *old(self),
                        *final(self),
                        event_id,
                        user,
                        now,
                        token_id,
                    )
                },
                Err(e) => {
                    &&& old(self).mint_check(event_id, user, now) == Err::<(), Error>(e)
                    &&& *final(self) == *old(self)
                },
            },
    {
        let cfg = self.config.unwrap();
        if cfg.paused {
            return Err(Error::ContractPaused);
        }
        if event_id < 1 || event_id > self.events.len() as u64 {
            return Err(Error::EventNotFound);
        }
        let idx: usize = (event_id - 1) as usize;
        let st = &self.events[idx];
        if st.event.cancelled || now < st.event.start_time || now > st.event.end_time {
            return Err(Error::EventNotActive);
        }
        match st.records.get(&user) {
            None => {
                return Err(Error::NotParticipant);
            },
            Some(r0) => {
                if !r0.reward_claimed {
                    return Err(Error::RewardNotYetClaimed);
                }
                if r0.nft_claimed {
                    return Err(Error::AlreadyMinted);
                }
            },
        }
        let metadata = self.events[idx].event.nft_metadata.clone();
        let token_id: u32 = (self.nfts.len() as u32) + 1;
        self.nfts.push(EventNft { owner: user, event_id, metadata, minted_at: now });
        let st = event_state_mut(&mut self.events, idx);
        let mut rec = st.records.remove(&user).unwrap();
        rec.nft_claimed = true;
        st.records.insert(user, rec);
        Ok(token_id)
    }
}

impl SeasonalEventContract {
    // ───────────── Read functions ─────────────

    /// Returns a copy of the stored event with this id.
    pub fn get_event(&self, event_id: u64) -> (r: Result<Event, Error>)
        requires
            self.wf(),
        ensures
            match r {
                Ok(ev) => self.has_event(event_id) && ev@ == self.event_v(event_id),
                Err(e) => e == Error::EventNotFound && !self.has_event(event_id),
            },
    {
        if event_id < 1 || event_id > self.events.len() as u64 {
            return Err(Error::EventNotFound);
        }
        let idx: usize = (event_id - 1) as usize;
        let ev = &self.events[idx].event;
        let puzzle_ids = ev.puzzle_ids.clone();
        proof {
            assert(puzzle_ids@ =~= ev.puzzle_ids@);
        }
        Ok(
            Event {
                id: ev.id,
                name: ev.name.clone(),
                start_time: ev.start_time,
                end_time: ev.end_time,
                reward_amount: ev.reward_amount,
                bonus_multiplier_bps: ev.bonus_multiplier_bps,
                nft_metadata: ev.nft_metadata.clone(),
                puzzle_ids,
                cancelled: ev.cancelled,
            },
        )
    }

    /// Returns a copy of the minted token with this id, if it exists.
    pub fn get_event_nft(&self, token_id: u32) -> (r: Option<EventNft>)
        requires
            self.wf(),
        ensures
            match r {
                Some(nft) => self.has_nft(token_id) && nft@ == self.nft_v(token_id),
                None => !self.has_nft(token_id),
            },
    {
        if token_id < 1 || token_id > self.nfts.len() as u32 {
            return None;
        }
        let idx: usize = (token_id - 1) as usize;
        let nft = &self.nfts[idx];
        Some(
            EventNft {
                owner: nft.owner,
                event_id: nft.event_id,
                metadata: nft.metadata.clone(),
                minted_at: nft.minted_at,
            },
        )
    }

    /// The running score of `user` in event `event_id`; 0 when the event
    /// is unknown or the user has no completion in it.
    pub fn get_event_score(&self, event_id: u64, user: Address) -> (r: i128)
        requires
            self.wf(),
        ensures
            r == self.score_of(event_id, user),
    {
        if event_id < 1 || event_id > self.events.len() as u64 {
            return 0;
        }
        let idx: usize = (event_id - 1) as usize;
        match self.events[idx].records.get(&user) {
            Some(rec) => rec.score,
            None => 0,
        }
    }

    /// Whether `user` has completed task `puzzle_id` of event `event_id`;
    /// false when the event is unknown.
    pub fn has_completed_puzzle(&self, event_id: u64, user: Address, puzzle_id: u32) -> (r: bool)
        requires
            self.wf(),
        ensures
            r == self.completed(event_id, user, puzzle_id),
    {
        if event_id < 1 || event_id > self.events.len() as u64 {
            return false;
        }
        let idx: usize = (event_id - 1) as usize;
        match self.events[idx].records.get(&user) {
            Some(rec) => vec_contains(&rec.completed, puzzle_id),
            None => false,
        }
    }

    /// Whether the event is active at instant `now`.  Activity is
    /// evaluated fresh on every call, never cached.
    pub fn is_event_active(&self, event_id: u64, now: u64) -> (r: bool)
        requires
            self.wf(),
            self.has_event(event_id),
        ensures
            r == event_active_at(self.event_v(event_id), now),
    {
        let n: usize = self.events.len();
        proof {
            assert(event_id - 1 < n);
        }
        let idx: usize = (event_id - 1) as usize;
        let ev = &self.events[idx].event;
        !ev.cancelled && ev.start_time <= now && now <= ev.end_time
    }

    /// Whether `user` may access the event's content at instant `now`:
    /// the event is active and `user` is a participant.
    pub fn can_access_event_content(&self, event_id: u64, user: Address, now: u64) -> (r: bool)
        requires
            self.wf(),
            self.has_event(event_id),
        ensures
            r == (event_active_at(self.event_v(event_id), now) && self.is_participant(
                event_id,
                user,
            )),
    {
        if !self.is_event_active(event_id, now) {
            return false;
        }
        let n: usize = self.events.len();
        proof {
            assert(event_id - 1 < n);
        }
        let idx: usize = (event_id - 1) as usize;
        self.events[idx].records.contains_key(&user)
    }
}

/// A fresh, initialized contract for exercising the library: the contract,
/// its administrator's address, and the address of an ordinary user.
pub fn setup() -> (r: (SeasonalEventContract, Address, Address))
    ensures
        r.0.wf(),
        r.0.is_initialized(),
        r.0.spec_admin() == r.1,
        r.0.spec_leaderboard() is None,
        !r.0.spec_paused(),
        r.0.num_events() == 0,
        r.0.num_nfts() == 0,
        forall|v: Address| !(#[trigger] r.0.is_verifier(v)),
        r.1 != r.2,
{
    let mut contract = SeasonalEventContract::new();
    let admin: Address = 1;
    let user: Address = 2;
    let _ = contract.initialize(admin, None);
    (contract, admin, user)
}

// ───────────── Laws ─────────────

/// Law: participation data of an unknown event is empty — no participant,
/// no completion, a zero score, and no claimed reward or token.
pub proof fn lemma_absent_event_has_no_participation(
    s: SeasonalEventContract,
    event_id: u64,
    user: Address,
    puzzle_id: u32,
)
    requires
        !s.has_event(event_id),
    ensures
        !s.is_participant(event_id, user),
        !s.completed(event_id, user, puzzle_id),
        s.score_of(event_id, user) == 0,
        !s.reward_claimed(event_id, user),
        !s.nft_claimed(event_id, user),
{
}

/// Law: a completion cannot be recorded twice.  After a successful
/// `record_puzzle_completion` of (event, user, task), a second call with
/// the same triple — same submitter, same instant — is rejected with
/// `AlreadyCompleted`; by the contract of `record_puzzle_completion`, the
/// rejected call leaves the state, and so the score, unchanged.
pub proof fn lemma_record_completion_not_repeatable(
    pre: SeasonalEventContract,
    post: SeasonalEventContract,
    submitter: Address,
    event_id: u64,
    user: Address,
    puzzle_id: u32,
    score: i128,
    now: u64,
)
    requires
        pre.record_check(submitter, event_id, user, puzzle_id, now) is Ok,
        SeasonalEventContract::record_effect(pre, post, event_id, user, puzzle_id, score),
    ensures
        post.record_check(submitter, event_id, user, puzzle_id, now) == Err::<(), Error>(
            Error::AlreadyCompleted,
        ),
{
}

/// Law: the reward claim is idempotent by rejection.  After a successful
/// `claim_event_reward` for (event, user), a second claim at the same
/// instant is rejected with `AlreadyClaimed`; by the contract of
/// `claim_event_reward`, the rejected call leaves the state unchanged.
pub proof fn lemma_claim_not_repeatable(
    pre: SeasonalEventContract,
    post: SeasonalEventContract,
    event_id: u64,
    user: Address,
    now: u64,
)
    requires
        pre.claim_check(event_id, user, now) is Ok,
        SeasonalEventContract::claim_effect(pre, post, event_id, user),
    ensures
        post.claim_check(event_id, user, now) == Err::<(), Error>(Error::AlreadyClaimed),
{
}

/// Law: minting is gated on the reward claim.  Whenever a claim would
/// succeed — so the reward is still unclaimed — minting is rejected with
/// `RewardNotYetClaimed`.
pub proof fn lemma_mint_requires_claim(
    s: SeasonalEventContract,
    event_id: u64,
    user: Address,
    now: u64,
)
    requires
        s.claim_check(event_id, user, now) is Ok,
    ensures
        s.mint_check(event_id, user, now) == Err::<(), Error>(Error::RewardNotYetClaimed),
{
}

/// Law: a commemorative token is only ever minted after the reward claim —
/// in every well-formed state, `nft_claimed` implies `reward_claimed`.
pub proof fn lemma_mint_gated_on_claim_invariant(
    s: SeasonalEventContract,
    event_id: u64,
    user: Address,
)
    requires
        s.wf(),
        s.nft_claimed(event_id, user),
    ensures
        s.reward_claimed(event_id, user),
{
}

/// Law: once the reward is claimed, the mint is owed.  After a successful
/// `claim_event_reward` for (event, user), `mint_event_nft` at the same
/// instant passes all of its checks.
pub proof fn lemma_mint_owed_after_claim(
    pre: SeasonalEventContract,
    post: SeasonalEventContract,
    event_id: u64,
    user: Address,
    now: u64,
)
    requires
        pre.wf(),
        pre.claim_check(event_id, user, now) is Ok,
        SeasonalEventContract::claim_effect(pre, post, event_id, user),
    ensures
        post.mint_check(event_id, user, now) is Ok,
{
    if pre.nft_claimed(event_id, user) {
        lemma_mint_gated_on_claim_invariant(pre, event_id, user);
    }
}

/// Law: the token cannot be minted twice.  After a successful
/// `mint_event_nft` for (event, user), a second mint at the same instant
/// is rejected with `AlreadyMinted`; by the contract of `mint_event_nft`,
/// the rejected call leaves the state unchanged.
pub proof fn lemma_mint_not_repeatable(
    pre: SeasonalEventContract,
    post: SeasonalEventContract,
    event_id: u64,
    user: Address,
    now: u64,
    token_id: u32,
)
    requires
        pre.mint_check(event_id, user, now) is Ok,
        SeasonalEventContract::mint_effect(pre, post, event_id, user, now, token_id),
    ensures
        post.mint_check(event_id, user, now) == Err::<(), Error>(Error::AlreadyMinted),
{
}

/// Law: a bonus multiplier of zero is normalized to `BPS_BASE`, so it
/// leaves the reward amount unchanged.
pub proof fn lemma_zero_bonus_identity(amount: i128)
    ensures
        normalize_bps(0) == BPS_BASE,
        bonus_amount(amount, 0) == amount,
{
    vstd::arithmetic::div_mod::lemma_div_multiples_vanish(amount as int, BPS_BASE as int);
}

impl SeasonalEventContract {
    /// Applies a basis-point bonus multiplier to a reward amount, rounding
    /// toward negative infinity.
    pub fn apply_bonus(amount: i128, bonus_bps: u32) -> (r: i128)
        requires
            i128::MIN <= amount * normalize_bps(bonus_bps) <= i128::MAX,
        ensures
            r == bonus_amount(amount, bonus_bps),
    {
        let bonus: u32 = if bonus_bps == 0 {
            BPS_BASE
        } else {
            bonus_bps
        };
        let product: i128 = amount * (bonus as i128);
        let quotient: i128 = product / (BPS_BASE as i128);
        if product % (BPS_BASE as i128) != 0 && product < 0 {
            quotient - 1
        } else {
            quotient
        }
    }
}

} // verus!

