//! The reputation engine: a ledger of how each counterparty has behaved,
//! and the risk multiplier and the score that follow from it.
//!
//! The escrow manager and the loan manager report what happens: a trade
//! completed, a loan repaid early, on time or late, a default, a dispute
//! lost. The engine counts. From the counts it derives a multiplier in
//! basis points, 10000 for a counterparty without history, lower for good
//! behaviour and higher for bad, and a score between 0 and 1000.

use crate::ledger::{Address, Env};
use crate::store::{
    absent, as_map, first_at, lemma_position_absent, lemma_position_found, lemma_push_fresh,
    lemma_update_named, Keyed,
};
use vstd::prelude::*;

verus! {

/// The multiplier of a counterparty without history, in basis points.
pub const NEUTRAL_MULTIPLIER: u32 = 10000;

/// The lowest multiplier, in basis points: half the usual collateral.
pub const MIN_MULTIPLIER: u32 = 5000;

/// The highest multiplier, in basis points: twice the usual collateral.
pub const MAX_MULTIPLIER: u32 = 20000;

/// The score of a counterparty without history.
pub const NEUTRAL_SCORE: u32 = 500;

/// The highest score.
pub const MAX_SCORE: u32 = 1000;

/// The traded volume that makes one volume tier: 100,000 units of a token
/// with seven decimals.
pub const VOLUME_TIER: i128 = 1_000_000_000_000;

/// Why the engine refused an operation.
#[derive(Clone, Copy, Debug, PartialEq, Eq)]
pub enum ContractError {
    Unauthorized,
    AlreadyInitialized,
    ProfileNotFound,
    InvalidValue,
}

impl ContractError {
    /// The number under which the ledger reports this error.
    pub open spec fn spec_code(self) -> u32 {
        match self {
            ContractError::Unauthorized => 1,
            ContractError::AlreadyInitialized => 2,
            ContractError::ProfileNotFound => 3,
            ContractError::InvalidValue => 4,
        }
    }

    /// The number under which the ledger reports this error.
    pub fn code(self) -> (r: u32)
        ensures
            r == self.spec_code(),
            1 <= r <= 4,
    {
        match self {
            ContractError::Unauthorized => 1,
            ContractError::AlreadyInitialized => 2,
            ContractError::ProfileNotFound => 3,
            ContractError::InvalidValue => 4,
        }
    }
}

/// What the engine knows of one counterparty.
#[derive(Debug, PartialEq, Eq)]
pub struct ReputationProfile {
    pub user: Address,
    pub successful_trades: u32,
    pub total_volume: i128,
    pub defaults: u32,
    pub disputes_lost: u32,
    pub early_repayments: u32,
    pub on_time_repayments: u32,
    pub late_repayments: u32,
    pub created_at: u64,
    pub last_updated: u64,
}

impl Clone for ReputationProfile {
    fn clone(&self) -> (r: Self)
        ensures
            r == *self,
    {
        ReputationProfile {
            user: self.user.clone(),
            successful_trades: self.successful_trades,
            total_volume: self.total_volume,
            defaults: self.defaults,
            disputes_lost: self.disputes_lost,
            early_repayments: self.early_repayments,
            on_time_repayments: self.on_time_repayments,
            late_repayments: self.late_repayments,
            created_at: self.created_at,
            last_updated: self.last_updated,
        }
    }
}

impl Keyed for ReputationProfile {
    type Key = Seq<char>;

    open spec fn key(&self) -> Seq<char> {
        self.user@
    }
}

/// Something that a counterparty did, as the managers report it.
#[derive(Clone, Copy, Debug, PartialEq, Eq)]
pub enum ReputationEvent {
    TradeCompleted,
    EarlyRepayment,
    OnTimeRepayment,
    LateRepayment,
    Default,
    DisputeLost,
}

/// What the engine tells the world, one notice for each change of state.
#[derive(Debug, PartialEq, Eq)]
pub enum ReputationNotice {
    Initialized { admin: Address },
    Recorded { user: Address, event_type: ReputationEvent, volume: i128 },
    Slashed { user: Address, disputes: u32, defaults: u32 },
}

/// The state of the reputation engine.
#[derive(Debug)]
pub struct ReputationRegistry {
    pub admin: Option<Address>,
    /// The two principals that may report events.
    pub escrow_manager: Option<Address>,
    pub loan_manager: Option<Address>,
    pub profiles: Vec<ReputationProfile>,
    /// The notices that the host still has to publish.
    pub events: Vec<ReputationNotice>,
}

/// `count * each`, but no more than `cap`.
pub open spec fn capped(count: int, each: int, cap: int) -> int {
    if count * each < cap {
        count * each
    } else {
        cap
    }
}

/// `value` brought into the range from `low` to `high`.
pub open spec fn clamped(value: int, low: int, high: int) -> int {
    if value < low {
        low
    } else if value > high {
        high
    } else {
        value
    }
}

/// The volume tiers that a traded volume makes: one for each full
/// `VOLUME_TIER`, rounded toward zero.
pub open spec fn volume_tiers(total_volume: i128) -> int {
    if total_volume >= 0 {
        total_volume / 1_000_000_000_000
    } else {
        -((-total_volume) / 1_000_000_000_000)
    }
}

/// The multiplier of a counterparty before it is brought into range: 10000,
/// less 10 for each trade up to 500, 20 for each early repayment up to 400,
/// 5 for each repayment on time up to 300 and 50 for each volume tier up to
/// 500, plus 500 for each default, 300 for each dispute lost and 50 for
/// each late repayment.
pub open spec fn raw_multiplier(p: ReputationProfile) -> int {
    10000 - capped(p.successful_trades as int, 10, 500) - capped(
        p.early_repayments as int,
        20,
        400,
    ) - capped(p.on_time_repayments as int, 5, 300) - capped(volume_tiers(p.total_volume), 50, 500)
        + p.defaults * 500 + p.disputes_lost * 300 + p.late_repayments * 50
}

/// The multiplier of a counterparty with this profile, in basis points,
/// between 5000 and 20000.
pub open spec fn multiplier_of(p: ReputationProfile) -> int {
    clamped(raw_multiplier(p), 5000, 20000)
}

/// The score of a counterparty before it is brought into range: 500, plus 5
/// for each trade up to 200, 10 for each early repayment up to 150 and 3
/// for each repayment on time up to 100, less 100 for each default, 50 for
/// each dispute lost and 10 for each late repayment.
pub open spec fn raw_score(p: ReputationProfile) -> int {
    500 + capped(p.successful_trades as int, 5, 200) + capped(p.early_repayments as int, 10, 150)
        + capped(p.on_time_repayments as int, 3, 100) - p.defaults * 100 - p.disputes_lost * 50
        - p.late_repayments * 10
}

/// The score of a counterparty with this profile, between 0 and 1000.
pub open spec fn score_of(p: ReputationProfile) -> int {
    clamped(raw_score(p), 0, 1000)
}

/// The profile of a counterparty that the engine hears of for the first
/// time at `now`.
pub open spec fn fresh_profile(user: Address, now: u64) -> ReputationProfile {
    ReputationProfile {
        user,
        successful_trades: 0,
        total_volume: 0,
        defaults: 0,
        disputes_lost: 0,
        early_repayments: 0,
        on_time_repayments: 0,
        late_repayments: 0,
        created_at: now,
        last_updated: now,
    }
}

/// Whether the counters that the event raises have room for it.
pub open spec fn has_room(p: ReputationProfile, event_type: ReputationEvent) -> bool {
    match event_type {
        ReputationEvent::TradeCompleted => p.successful_trades < u32::MAX,
        ReputationEvent::EarlyRepayment => p.early_repayments < u32::MAX && p.on_time_repayments
            < u32::MAX,
        ReputationEvent::OnTimeRepayment => p.on_time_repayments < u32::MAX,
        ReputationEvent::LateRepayment => p.late_repayments < u32::MAX,
        ReputationEvent::Default => p.defaults < u32::MAX,
        ReputationEvent::DisputeLost => p.disputes_lost < u32::MAX,
    }
}

/// The sum of a traded volume and a new trade's volume, held at the
/// largest 128-bit value where it would pass it.
pub open spec fn volume_sum(total: i128, volume: i128) -> i128 {
    if total + volume > i128::MAX {
        i128::MAX
    } else if total + volume < i128::MIN {
        i128::MIN
    } else {
        (total + volume) as i128
    }
}

/// The profile after one event at `now`. Each event raises its own
/// counter by one; an early repayment also counts as one on time, and a
/// completed trade adds its volume.
pub open spec fn recorded(
    p: ReputationProfile,
    event_type: ReputationEvent,
    volume: i128,
    now: u64,
) -> ReputationProfile {
    let q = ReputationProfile { last_updated: now, ..p };
    match event_type {
        ReputationEvent::TradeCompleted => ReputationProfile {
            successful_trades: (p.successful_trades + 1) as u32,
            total_volume: volume_sum(p.total_volume, volume),
            ..q
        },
        ReputationEvent::EarlyRepayment => ReputationProfile {
            early_repayments: (p.early_repayments + 1) as u32,
            on_time_repayments: (p.on_time_repayments + 1) as u32,
            ..q
        },
        ReputationEvent::OnTimeRepayment => ReputationProfile {
            on_time_repayments: (p.on_time_repayments + 1) as u32,
            ..q
        },
        ReputationEvent::LateRepayment => ReputationProfile {
            late_repayments: (p.late_repayments + 1) as u32,
            ..q
        },
        ReputationEvent::Default => ReputationProfile { defaults: (p.defaults + 1) as u32, ..q },
        ReputationEvent::DisputeLost => ReputationProfile {
            disputes_lost: (p.disputes_lost + 1) as u32,
            ..q
        },
    }
}

/// The profile after a sanction at `now`.
pub open spec fn slashed(p: ReputationProfile, disputes: u32, defaults: u32, now: u64)
    -> ReputationProfile {
    ReputationProfile {
        disputes_lost: (p.disputes_lost + disputes) as u32,
        defaults: (p.defaults + defaults) as u32,
        last_updated: now,
        ..p
    }
}

/// The profile after the same event `times` times at `now`, without volume.
pub open spec fn recorded_times(
    p: ReputationProfile,
    event_type: ReputationEvent,
    now: u64,
    times: nat,
) -> ReputationProfile
    decreases times,
{
    if times == 0 {
        p
    } else {
        recorded(recorded_times(p, event_type, now, (times - 1) as nat), event_type, 0, now)
    }
}

/// The position of the profile of `user`, if it has one.
pub fn find_profile(list: &Vec<ReputationProfile>, user: &Address) -> (r: Option<usize>)
    ensures
        match r {
            Some(i) => first_at(list@, user@, i as int),
            None => absent(list@, user@),
        },
{
    let mut i: usize = 0;
    while i < list.len()
        invariant
            i <= list.len(),
            forall|j: int| 0 <= j < i ==> (#[trigger] list@[j]).key() != user@,
        decreases list.len() - i,
    {
        if list[i].user.same(user) {
            return Some(i);
        }
        i += 1;
    }
    None
}

/// `count * each`, but no more than `cap`.
fn capped_points(count: u32, each: u32, cap: u32) -> (r: i128)
    requires
        each <= 1000,
        cap <= 1000,
    ensures
        r == capped(count as int, each as int, cap as int),
        0 <= r <= cap,
{
    assert(count * each <= 0xffff_ffff * 1000) by (nonlinear_arith)
        requires
            0 <= count <= 0xffff_ffff,
            0 <= each <= 1000,
    ;
    let product: u64 = (count as u64) * (each as u64);
    if product < cap as u64 {
        product as i128
    } else {
        cap as i128
    }
}

/// The points for the volume tiers: 50 for each, but no more than 500.
fn volume_points(total_volume: i128) -> (r: i128)
    ensures
        r == capped(volume_tiers(total_volume), 50, 500),
        r <= 500,
        r >= -50 * 0x1_0000_0000_0000_0000_0000_0000,
{
    let tiers: i128 = match total_volume.checked_div(VOLUME_TIER) {
        Some(t) => t,
        None => 0,
    };
    assert(tiers == volume_tiers(total_volume));
    if tiers >= 10 {
        500
    } else {
        assert(-0x1_0000_0000_0000_0000_0000_0000 <= tiers) by {
            assert(total_volume >= -0x8000_0000_0000_0000_0000_0000_0000_0000);
        }
        tiers * 50
    }
}

impl ReputationProfile {
    /// Whether the counters that the event raises have room for it.
    pub fn has_room_for(&self, event_type: ReputationEvent) -> (r: bool)
        ensures
            r == has_room(*self, event_type),
    {
        match event_type {
            ReputationEvent::TradeCompleted => self.successful_trades < u32::MAX,
            ReputationEvent::EarlyRepayment => self.early_repayments < u32::MAX
                && self.on_time_repayments < u32::MAX,
            ReputationEvent::OnTimeRepayment => self.on_time_repayments < u32::MAX,
            ReputationEvent::LateRepayment => self.late_repayments < u32::MAX,
            ReputationEvent::Default => self.defaults < u32::MAX,
            ReputationEvent::DisputeLost => self.disputes_lost < u32::MAX,
        }
    }

    /// Whether the counters have room for a sanction of so many disputes
    /// and defaults.
    pub fn has_room_for_sanction(&self, disputes: u32, defaults: u32) -> (r: bool)
        ensures
            r == (self.disputes_lost + disputes <= u32::MAX && self.defaults + defaults
                <= u32::MAX),
    {
        disputes <= u32::MAX - self.disputes_lost && defaults <= u32::MAX - self.defaults
    }

    /// The multiplier of this profile, in basis points.
    pub fn multiplier(&self) -> (r: u32)
        ensures
            r == multiplier_of(*self),
            MIN_MULTIPLIER <= r <= MAX_MULTIPLIER,
    {
        let bonus: i128 = capped_points(self.successful_trades, 10, 500) + capped_points(
            self.early_repayments,
            20,
            400,
        ) + capped_points(self.on_time_repayments, 5, 300) + volume_points(self.total_volume);
        let penalty: i128 = (self.defaults as i128) * 500 + (self.disputes_lost as i128) * 300 + (
        self.late_repayments as i128) * 50;
        let raw: i128 = 10000 - bonus + penalty;
        if raw < 5000 {
            5000
        } else if raw > 20000 {
            20000
        } else {
            raw as u32
        }
    }

    /// The score of this profile.
    pub fn score(&self) -> (r: u32)
        ensures
            r == score_of(*self),
            r <= MAX_SCORE,
    {
        let bonus: i128 = capped_points(self.successful_trades, 5, 200) + capped_points(
            self.early_repayments,
            10,
            150,
        ) + capped_points(self.on_time_repayments, 3, 100);
        let penalty: i128 = (self.defaults as i128) * 100 + (self.disputes_lost as i128) * 50 + (
        self.late_repayments as i128) * 10;
        let raw: i128 = 500 + bonus - penalty;
        if raw < 0 {
            0
        } else if raw > 1000 {
            1000
        } else {
            raw as u32
        }
    }
}

impl ReputationRegistry {
    /// The profile of `user`, if the engine has one.
    pub open spec fn profile_of(&self, user: Seq<char>) -> Option<ReputationProfile> {
        if as_map(self.profiles@).contains_key(user) {
            Some(as_map(self.profiles@)[user])
        } else {
            None
        }
    }

    /// The profile of `user`, or the one that the engine would create for
    /// it at `now`.
    pub open spec fn profile_or_fresh(&self, user: Address, now: u64) -> ReputationProfile {
        match self.profile_of(user@) {
            Some(p) => p,
            None => fresh_profile(user, now),
        }
    }

    /// Whether `caller` is one of the two managers that may report events.
    pub open spec fn is_manager(&self, caller: Seq<char>) -> bool {
        &&& self.escrow_manager is Some
        &&& self.loan_manager is Some
        &&& (caller == self.escrow_manager.unwrap()@ || caller == self.loan_manager.unwrap()@)
    }

    /// What holds of every engine that was filled through its operations:
    /// a profile is kept under the name of its own user, and no traded
    /// volume is negative.
    pub open spec fn consistent(&self) -> bool {
        forall|user: Seq<char>| #[trigger]
            as_map(self.profiles@).contains_key(user) ==> {
                &&& as_map(self.profiles@)[user].user@ == user
                &&& as_map(self.profiles@)[user].total_volume >= 0
            }
    }

    /// An engine that nobody has initialized.
    pub fn new() -> (r: ReputationRegistry)
        ensures
            r.consistent(),
            r.admin is None,
            r.escrow_manager is None,
            r.loan_manager is None,
            r.profiles@.len() == 0,
            r.events@.len() == 0,
            forall|user: Seq<char>| r.profile_of(user) is None,
    {
        let r = ReputationRegistry {
            admin: None,
            escrow_manager: None,
            loan_manager: None,
            profiles: Vec::new(),
            events: Vec::new(),
        };
        proof {
            assert forall|user: Seq<char>| r.profile_of(user) is None by {
                lemma_position_absent(r.profiles@, user);
            }
            assert forall|user: Seq<char>| !as_map(r.profiles@).contains_key(user) by {
                lemma_position_absent(r.profiles@, user);
            }
        }
        r
    }

    /// Gives the engine its admin and names the two managers. An engine is
    /// initialized once.
    pub fn initialize(
        &mut self,
        env: &Env,
        admin: Address,
        escrow_manager: Address,
        loan_management: Address,
    ) -> (r: Result<(), ContractError>)
        ensures
            r is Err <==> old(self).admin is Some,
            r is Err ==> r == Err::<(), ContractError>(ContractError::AlreadyInitialized)
                && *final(self) == *old(self),
            r is Ok ==> *final(self) == (ReputationRegistry {
                admin: Some(admin),
                escrow_manager: Some(escrow_manager),
                loan_manager: Some(loan_management),
                events: final(self).events,
                ..*old(self)
            }) && final(self).events@ == old(self).events@.push(
                ReputationNotice::Initialized { admin },
            ),
    {
        if self.admin.is_some() {
            return Err(ContractError::AlreadyInitialized);
        }
        self.events.push(ReputationNotice::Initialized { admin: admin.clone() });
        self.admin = Some(admin);
        self.escrow_manager = Some(escrow_manager);
        self.loan_manager = Some(loan_management);
        Ok(())
    }

    /// The profile of `user`. Where the engine has none, it creates one as
    /// of now, with every counter at zero.
    pub fn get_or_create_profile(&mut self, env: &Env, user: Address) -> (r: ReputationProfile)
        ensures
            r == old(self).profile_or_fresh(user, env.timestamp),
            final(self).profile_of(user@) == Some(r),
            old(self).profile_of(user@) is Some ==> *final(self) == *old(self),
            old(self).profile_of(user@) is None ==> {
                &&& *final(self) == (ReputationRegistry {
                    profiles: final(self).profiles,
                    ..*old(self)
                })
                &&& final(self).profiles@ == old(self).profiles@.push(r)
                &&& as_map(final(self).profiles@) == as_map(old(self).profiles@).insert(user@, r)
            },
            old(self).consistent() ==> final(self).consistent(),
    {
        match find_profile(&self.profiles, &user) {
            Some(i) => {
                proof {
                    lemma_position_found(self.profiles@, user@, i as int);
                }
                self.profiles[i].clone()
            },
            None => {
                let now = env.timestamp();
                let profile = ReputationProfile {
                    user,
                    successful_trades: 0,
                    total_volume: 0,
                    defaults: 0,
                    disputes_lost: 0,
                    early_repayments: 0,
                    on_time_repayments: 0,
                    late_repayments: 0,
                    created_at: now,
                    last_updated: now,
                };
                proof {
                    lemma_position_absent(self.profiles@, user@);
                    lemma_push_fresh(self.profiles@, profile);
                }
                let copy = profile.clone();
                self.profiles.push(profile);
                copy
            },
        }
    }

    /// Puts `profile` in the place of the profile of its user, or adds it
    /// where the user has none.
    fn store_profile(&mut self, profile: ReputationProfile)
        ensures
            *final(self) == (ReputationRegistry { profiles: final(self).profiles, ..*old(self) }),
            as_map(final(self).profiles@) == as_map(old(self).profiles@).insert(
                profile.user@,
                profile,
            ),
    {
        match find_profile(&self.profiles, &profile.user) {
            Some(i) => {
                proof {
                    lemma_update_named(self.profiles@, i as int, profile);
                }
                self.profiles[i] = profile;
            },
            None => {
                proof {
                    lemma_push_fresh(self.profiles@, profile);
                }
                self.profiles.push(profile);
            },
        }
    }

    /// Why the engine refuses this report, if it does. The caller must be
    /// one of the two managers and must have authorized the call; the
    /// volume must not be negative.
    pub open spec fn record_error(&self, env: Env, caller: Seq<char>, volume: i128) -> Option<
        ContractError,
    > {
        if !self.is_manager(caller) {
            Some(ContractError::Unauthorized)
        } else if !env.authorizes(caller) {
            Some(ContractError::Unauthorized)
        } else if volume < 0 {
            Some(ContractError::InvalidValue)
        } else {
            None
        }
    }

    /// Whether `caller` is one of the two managers that may report events.
    pub fn is_authorized_contract(&self, caller: &Address) -> (r: bool)
        ensures
            r == self.is_manager(caller@),
    {
        match (&self.escrow_manager, &self.loan_manager) {
            (Some(escrow_manager), Some(loan_manager)) => {
                caller.same(escrow_manager) || caller.same(loan_manager)
            },
            _ => false,
        }
    }

    /// Whether `caller` is one of the two managers and has authorized the
    /// call.
    fn require_authorized_caller(&self, env: &Env, caller: &Address) -> (r: Result<
        (),
        ContractError,
    >)
        ensures
            r is Ok <==> self.is_manager(caller@) && env.authorizes(caller@),
            r is Err ==> r == Err::<(), ContractError>(ContractError::Unauthorized),
    {
        if self.is_authorized_contract(caller) && env.is_authorized(caller) {
            Ok(())
        } else {
            Err(ContractError::Unauthorized)
        }
    }

    /// Records one event in the profile of `user`, which is created if
    /// need be, and stamps the profile with the ledger's time.
    pub fn record_event(
        &mut self,
        env: &Env,
        caller: Address,
        user: Address,
        event_type: ReputationEvent,
        volume: i128,
    ) -> (r: Result<(), ContractError>)
        requires
            has_room(old(self).profile_or_fresh(user, env.timestamp), event_type),
        ensures
            match r {
                Ok(_) => {
                    &&& old(self).record_error(*env, caller@, volume) is None
                    &&& *final(self) == (ReputationRegistry {
                        profiles: final(self).profiles,
                        events: final(self).events,
                        ..*old(self)
                    })
                    &&& as_map(final(self).profiles@) == as_map(old(self).profiles@).insert(
                        user@,
                        recorded(
                            old(self).profile_or_fresh(user, env.timestamp),
                            event_type,
                            volume,
                            env.timestamp,
                        ),
                    )
                    &&& final(self).events@ == old(self).events@.push(
                        ReputationNotice::Recorded { user, event_type, volume },
                    )
                },
                Err(e) => {
                    &&& old(self).record_error(*env, caller@, volume) == Some(e)
                    &&& *final(self) == *old(self)
                },
            },
            old(self).consistent() ==> final(self).consistent(),
    {
        match self.require_authorized_caller(env, &caller) {
            Ok(_) => {},
            Err(e) => {
                return Err(e);
            },
        }
        if volume < 0 {
            return Err(ContractError::InvalidValue);
        }
        let mut profile = self.get_or_create_profile(env, user.clone());
        match event_type {
            ReputationEvent::TradeCompleted => {
                profile.successful_trades = profile.successful_trades + 1;
                profile.total_volume = match profile.total_volume.checked_add(volume) {
                    Some(sum) => sum,
                    None => i128::MAX,
                };
            },
            ReputationEvent::EarlyRepayment => {
                profile.early_repayments = profile.early_repayments + 1;
                profile.on_time_repayments = profile.on_time_repayments + 1;
            },
            ReputationEvent::OnTimeRepayment => {
                profile.on_time_repayments = profile.on_time_repayments + 1;
            },
            ReputationEvent::LateRepayment => {
                profile.late_repayments = profile.late_repayments + 1;
            },
            ReputationEvent::Default => {
                profile.defaults = profile.defaults + 1;
            },
            ReputationEvent::DisputeLost => {
                profile.disputes_lost = profile.disputes_lost + 1;
            },
        }
        profile.last_updated = env.timestamp();
        self.store_profile(profile);
        self.events.push(ReputationNotice::Recorded { user, event_type, volume });
        Ok(())
    }

    /// The multiplier of `user`, in basis points: 10000 for a user without
    /// a profile, else what the profile gives, between 5000 and 20000.
    pub fn get_reputation_multiplier(&self, user: &Address) -> (r: u32)
        ensures
            r == (match self.profile_of(user@) {
                Some(p) => multiplier_of(p),
                None => 10000,
            }),
            MIN_MULTIPLIER <= r <= MAX_MULTIPLIER,
    {
        match find_profile(&self.profiles, user) {
            Some(i) => {
                proof {
                    lemma_position_found(self.profiles@, user@, i as int);
                }
                self.profiles[i].multiplier()
            },
            None => {
                proof {
                    lemma_position_absent(self.profiles@, user@);
                }
                NEUTRAL_MULTIPLIER
            },
        }
    }

    /// The score of `user`: 500 for a user without a profile, else what
    /// the profile gives, between 0 and 1000.
    pub fn get_reputation_score(&self, user: &Address) -> (r: u32)
        ensures
            r == (match self.profile_of(user@) {
                Some(p) => score_of(p),
                None => 500,
            }),
            r <= MAX_SCORE,
    {
        match find_profile(&self.profiles, user) {
            Some(i) => {
                proof {
                    lemma_position_found(self.profiles@, user@, i as int);
                }
                self.profiles[i].score()
            },
            None => {
                proof {
                    lemma_position_absent(self.profiles@, user@);
                }
                NEUTRAL_SCORE
            },
        }
    }

    /// Why the engine refuses an order of the admin, if it does.
    pub open spec fn admin_error(&self, env: Env) -> Option<ContractError> {
        if self.admin is None {
            Some(ContractError::Unauthorized)
        } else if !env.authorizes(self.admin.unwrap()@) {
            Some(ContractError::Unauthorized)
        } else {
            None
        }
    }

    /// Whether the admin has authorized the call.
    fn require_admin(&self, env: &Env) -> (r: Result<(), ContractError>)
        ensures
            r is Ok <==> self.admin_error(*env) is None,
            r is Err ==> Some(r->Err_0) == self.admin_error(*env),
    {
        match &self.admin {
            Some(admin) => {
                if env.is_authorized(admin) {
                    Ok(())
                } else {
                    Err(ContractError::Unauthorized)
                }
            },
            None => Err(ContractError::Unauthorized),
        }
    }

    /// Adds penalties to the profile of `user` on the admin's order,
    /// without an event having been reported.
    pub fn slash_reputation(
        &mut self,
        env: &Env,
        user: Address,
        disputes_to_add: u32,
        defaults_to_add: u32,
    ) -> (r: Result<(), ContractError>)
        requires
            old(self).profile_or_fresh(user, env.timestamp).disputes_lost + disputes_to_add
                <= u32::MAX,
            old(self).profile_or_fresh(user, env.timestamp).defaults + defaults_to_add <= u32::MAX,
        ensures
            match r {
                Ok(_) => {
                    &&& old(self).admin_error(*env) is None
                    &&& *final(self) == (ReputationRegistry {
                        profiles: final(self).profiles,
                        events: final(self).events,
                        ..*old(self)
                    })
                    &&& as_map(final(self).profiles@) == as_map(old(self).profiles@).insert(
                        user@,
                        slashed(
                            old(self).profile_or_fresh(user, env.timestamp),
                            disputes_to_add,
                            defaults_to_add,
                            env.timestamp,
                        ),
                    )
                    &&& final(self).events@ == old(self).events@.push(
                        ReputationNotice::Slashed {
                            user,
                            disputes: disputes_to_add,
                            defaults: defaults_to_add,
                        },
                    )
                },
                Err(e) => old(self).admin_error(*env) == Some(e) && *final(self) == *old(self),
            },
            old(self).consistent() ==> final(self).consistent(),
    {
        match self.require_admin(env) {
            Ok(_) => {},
            Err(e) => {
                return Err(e);
            },
        }
        let mut profile = self.get_or_create_profile(env, user.clone());
        profile.disputes_lost = profile.disputes_lost + disputes_to_add;
        profile.defaults = profile.defaults + defaults_to_add;
        profile.last_updated = env.timestamp();
        self.store_profile(profile);
        self.events.push(
            ReputationNotice::Slashed {
                user,
                disputes: disputes_to_add,
                defaults: defaults_to_add,
            },
        );
        Ok(())
    }

    /// The profile of `user`, if the engine has one.
    pub fn get_profile(&self, user: &Address) -> (r: Option<ReputationProfile>)
        ensures
            r == self.profile_of(user@),
    {
        match find_profile(&self.profiles, user) {
            Some(i) => {
                proof {
                    lemma_position_found(self.profiles@, user@, i as int);
                }
                Some(self.profiles[i].clone())
            },
            None => {
                proof {
                    lemma_position_absent(self.profiles@, user@);
                }
                None
            },
        }
    }

    /// Names the two managers anew, on the admin's order.
    pub fn update_authorized_contracts(
        &mut self,
        env: &Env,
        escrow_manager: Address,
        loan_management: Address,
    ) -> (r: Result<(), ContractError>)
        ensures
            match r {
                Ok(_) => old(self).admin_error(*env) is None && *final(self) == (
                ReputationRegistry {
                    escrow_manager: Some(escrow_manager),
                    loan_manager: Some(loan_management),
                    ..*old(self)
                }),
                Err(e) => old(self).admin_error(*env) == Some(e) && *final(self) == *old(self),
            },
    {
        match self.require_admin(env) {
            Ok(_) => {},
            Err(e) => {
                return Err(e);
            },
        }
        self.escrow_manager = Some(escrow_manager);
        self.loan_manager = Some(loan_management);
        Ok(())
    }
}

/// The multiplier never leaves its range, and neither does the score.
pub proof fn lemma_reputation_in_range(p: ReputationProfile)
    ensures
        5000 <= multiplier_of(p) <= 20000,
        0 <= score_of(p) <= 1000,
{
}

/// A counterparty without history is neutral: the profile that the engine
/// creates has the multiplier 10000 and the score 500.
pub proof fn lemma_fresh_profile_is_neutral(user: Address, now: u64)
    ensures
        multiplier_of(fresh_profile(user, now)) == 10000,
        score_of(fresh_profile(user, now)) == 500,
{
}

/// Defaults saturate: with 24 defaults or more the multiplier is 20000
/// whatever else the profile holds, and with 10 defaults or more the score
/// is 0.
pub proof fn lemma_defaults_saturate(p: ReputationProfile)
    ensures
        p.defaults >= 24 ==> multiplier_of(p) == 20000,
        p.defaults >= 10 ==> score_of(p) == 0,
{
    assert(capped(p.successful_trades as int, 10, 500) <= 500);
    assert(capped(p.early_repayments as int, 20, 400) <= 400);
    assert(capped(p.on_time_repayments as int, 5, 300) <= 300);
    assert(capped(volume_tiers(p.total_volume), 50, 500) <= 500);
    assert(capped(p.successful_trades as int, 5, 200) <= 200);
    assert(capped(p.early_repayments as int, 10, 150) <= 150);
    assert(capped(p.on_time_repayments as int, 3, 100) <= 100);
}

/// A default, reported again and again, raises its counter by one each
/// time: after `times` defaults a profile holds `times` more defaults than
/// before.
pub proof fn lemma_defaults_accumulate(p: ReputationProfile, now: u64, times: nat)
    requires
        p.defaults + times <= u32::MAX,
    ensures
        recorded_times(p, ReputationEvent::Default, now, times).defaults == p.defaults + times,
    decreases times,
{
    if times > 0 {
        lemma_defaults_accumulate(p, now, (times - 1) as nat);
    }
}

/// A new counterparty that defaults again and again ends at the worst
/// multiplier and the worst score: 24 defaults make the multiplier 20000,
/// 10 make the score 0, and more change neither.
pub proof fn lemma_repeated_defaults_saturate(user: Address, now: u64, times: nat)
    requires
        times <= u32::MAX,
    ensures
        times >= 24 ==> multiplier_of(
            recorded_times(fresh_profile(user, now), ReputationEvent::Default, now, times),
        ) == 20000,
        times >= 10 ==> score_of(
            recorded_times(fresh_profile(user, now), ReputationEvent::Default, now, times),
        ) == 0,
{
    lemma_defaults_accumulate(fresh_profile(user, now), now, times);
    lemma_defaults_saturate(
        recorded_times(fresh_profile(user, now), ReputationEvent::Default, now, times),
    );
}

/// A sanction lowers no counter either: after it, the profile holds the
/// added disputes and defaults, and everything else but the time of the
/// last change is as it was.
pub proof fn lemma_slash_only_adds(p: ReputationProfile, disputes: u32, defaults: u32, now: u64)
    requires
        p.disputes_lost + disputes <= u32::MAX,
        p.defaults + defaults <= u32::MAX,
    ensures
        slashed(p, disputes, defaults, now).disputes_lost == p.disputes_lost + disputes,
        slashed(p, disputes, defaults, now).defaults == p.defaults + defaults,
        slashed(p, disputes, defaults, now) == (ReputationProfile {
            disputes_lost: slashed(p, disputes, defaults, now).disputes_lost,
            defaults: slashed(p, disputes, defaults, now).defaults,
            last_updated: now,
            ..p
        }),
        multiplier_of(slashed(p, disputes, defaults, now)) >= multiplier_of(p),
        score_of(slashed(p, disputes, defaults, now)) <= score_of(p),
{
}

/// No event lowers a counter: after an event with a volume that is not
/// negative, every counter of the profile is at least what it was.
pub proof fn lemma_counters_never_fall(
    p: ReputationProfile,
    event_type: ReputationEvent,
    volume: i128,
    now: u64,
)
    requires
        has_room(p, event_type),
        volume >= 0,
    ensures
        ({
            let q = recorded(p, event_type, volume, now);
            &&& q.successful_trades >= p.successful_trades
            &&& q.total_volume >= p.total_volume
            &&& q.defaults >= p.defaults
            &&& q.disputes_lost >= p.disputes_lost
            &&& q.early_repayments >= p.early_repayments
            &&& q.on_time_repayments >= p.on_time_repayments
            &&& q.late_repayments >= p.late_repayments
            &&& q.user == p.user
            &&& q.created_at == p.created_at
        }),
{
}

} // verus!
