//! The vault: tokenised collateral, trade escrows and the protocol
//! parameters that governance controls.
//!
//! This module holds the vault's records and its state. The escrow
//! operations are in [`crate::escrow`], the governance operations in
//! [`crate::governance`].

use crate::ledger::{Address, Env};
use crate::store::{absent, as_map, first_at, Keyed};
use std::collections::HashMap;
use vstd::prelude::*;

verus! {

/// The basis points that stand for the whole: 10000 bps are 100%.
pub const BASIS_POINTS: i128 = 10000;

/// The loan-to-value limit of a freshly initialized vault: 70%.
pub const DEFAULT_MAX_LTV: u32 = 7000;

/// The quorum of a vault until governance is given another.
pub const DEFAULT_QUORUM: u128 = 100;

/// Why the vault refused an operation.
#[derive(Clone, Copy, Debug, PartialEq, Eq)]
pub enum ContractError {
    Unauthorized,
    InsufficientBalance,
    InvalidAmount,
    EscrowNotFound,
    EscrowAlreadyReleased,
    ProposalNotFound,
    ProposalNotActive,
    AlreadyVoted,
    VotePeriodEnded,
    ZeroWeight,
    AssetNotWhitelisted,
    OracleNotWhitelisted,
    LtvExceeded,
    CollateralNotFound,
    MathOverflow,
    VoteOverflow,
    VotePeriodActive,
    QuorumNotMet,
}

impl ContractError {
    /// The number under which the ledger reports this error.
    pub open spec fn spec_code(self) -> u32 {
        match self {
            ContractError::Unauthorized => 1,
            ContractError::InsufficientBalance => 2,
            ContractError::InvalidAmount => 3,
            ContractError::EscrowNotFound => 4,
            ContractError::EscrowAlreadyReleased => 5,
            ContractError::ProposalNotFound => 6,
            ContractError::ProposalNotActive => 7,
            ContractError::AlreadyVoted => 8,
            ContractError::VotePeriodEnded => 9,
            ContractError::ZeroWeight => 10,
            ContractError::AssetNotWhitelisted => 11,
            ContractError::OracleNotWhitelisted => 12,
            ContractError::LtvExceeded => 13,
            ContractError::CollateralNotFound => 14,
            ContractError::MathOverflow => 15,
            ContractError::VoteOverflow => 16,
            ContractError::VotePeriodActive => 17,
            ContractError::QuorumNotMet => 18,
        }
    }

    /// The number under which the ledger reports this error.
    pub fn code(self) -> (r: u32)
        ensures
            r == self.spec_code(),
            1 <= r <= 18,
    {
        match self {
            ContractError::Unauthorized => 1,
            ContractError::InsufficientBalance => 2,
            ContractError::InvalidAmount => 3,
            ContractError::EscrowNotFound => 4,
            ContractError::EscrowAlreadyReleased => 5,
            ContractError::ProposalNotFound => 6,
            ContractError::ProposalNotActive => 7,
            ContractError::AlreadyVoted => 8,
            ContractError::VotePeriodEnded => 9,
            ContractError::ZeroWeight => 10,
            ContractError::AssetNotWhitelisted => 11,
            ContractError::OracleNotWhitelisted => 12,
            ContractError::LtvExceeded => 13,
            ContractError::CollateralNotFound => 14,
            ContractError::MathOverflow => 15,
            ContractError::VoteOverflow => 16,
            ContractError::VotePeriodActive => 17,
            ContractError::QuorumNotMet => 18,
        }
    }
}

/// A collateral token: a real-world asset pledged on the ledger.
#[derive(Debug, PartialEq, Eq)]
pub struct CollateralToken {
    pub owner: Address,
    /// The kind of asset, such as `INVOICE` or `COMMODITY`.
    pub asset_type: String,
    pub asset_value: i128,
    /// The hash of the asset's off-chain metadata.
    pub metadata: String,
    pub fractional_shares: u32,
    pub created_at: u64,
}

impl Clone for CollateralToken {
    fn clone(&self) -> (r: Self)
        ensures
            r == *self,
    {
        CollateralToken {
            owner: self.owner.clone(),
            asset_type: self.asset_type.clone(),
            asset_value: self.asset_value,
            metadata: self.metadata.clone(),
            fractional_shares: self.fractional_shares,
            created_at: self.created_at,
        }
    }
}

/// Where an escrow stands. An escrow only ever moves forward: from
/// `Pending` to `Active`, from `Active` to `Released`.
#[derive(Clone, Copy, Debug, PartialEq, Eq)]
pub enum EscrowStatus {
    Pending,
    Active,
    Released,
    Cancelled,
}

impl EscrowStatus {
    /// How far along its life an escrow with this status is.
    pub open spec fn rank(self) -> nat {
        match self {
            EscrowStatus::Pending => 0,
            EscrowStatus::Active => 1,
            EscrowStatus::Released => 2,
            EscrowStatus::Cancelled => 3,
        }
    }
}

/// A trade escrow: a loan against one collateral token, released when the
/// bound oracle says so.
#[derive(Debug, PartialEq, Eq)]
pub struct TradeEscrow {
    pub buyer: Address,
    pub seller: Address,
    pub collateral_token_id: u64,
    pub amount: i128,
    pub status: EscrowStatus,
    pub oracle_address: Address,
    /// What has to happen for the release, such as `SHIPMENT_DELIVERED`.
    pub release_conditions: String,
    pub created_at: u64,
}

impl Clone for TradeEscrow {
    fn clone(&self) -> (r: Self)
        ensures
            r == *self,
    {
        TradeEscrow {
            buyer: self.buyer.clone(),
            seller: self.seller.clone(),
            collateral_token_id: self.collateral_token_id,
            amount: self.amount,
            status: self.status,
            oracle_address: self.oracle_address.clone(),
            release_conditions: self.release_conditions.clone(),
            created_at: self.created_at,
        }
    }
}

/// What a proposal does to the protocol when it is executed.
#[derive(Debug, PartialEq, Eq)]
pub enum GovernanceAction {
    /// Sets the loan-to-value limit, in basis points.
    UpdateMaxLTV(u32),
    /// Allows or bans an asset type as collateral.
    UpdateCollateralWhitelist(String, bool),
    /// Allows or bans an oracle for new escrows.
    UpdateOracleWhitelist(Address, bool),
    /// Moves the vault to the code with this hash.
    UpgradeContract([u8; 32]),
}

impl Clone for GovernanceAction {
    fn clone(&self) -> (r: Self)
        ensures
            r == *self,
    {
        match self {
            GovernanceAction::UpdateMaxLTV(ltv) => GovernanceAction::UpdateMaxLTV(*ltv),
            GovernanceAction::UpdateCollateralWhitelist(asset, allowed) => {
                GovernanceAction::UpdateCollateralWhitelist(asset.clone(), *allowed)
            },
            GovernanceAction::UpdateOracleWhitelist(oracle, allowed) => {
                GovernanceAction::UpdateOracleWhitelist(oracle.clone(), *allowed)
            },
            GovernanceAction::UpgradeContract(hash) => GovernanceAction::UpgradeContract(*hash),
        }
    }
}

/// A governance proposal.
#[derive(Debug, PartialEq, Eq)]
pub struct Proposal {
    pub id: u64,
    pub proposer: Address,
    pub title: String,
    pub desc: String,
    pub action: GovernanceAction,
    /// The votes cast so far: the sum of the square roots of the weights.
    pub vote_count: u128,
    pub end_time: u64,
    pub executed: bool,
}

impl Clone for Proposal {
    fn clone(&self) -> (r: Self)
        ensures
            r == *self,
    {
        Proposal {
            id: self.id,
            proposer: self.proposer.clone(),
            title: self.title.clone(),
            desc: self.desc.clone(),
            action: self.action.clone(),
            vote_count: self.vote_count,
            end_time: self.end_time,
            executed: self.executed,
        }
    }
}

/// The vote of one voter on one proposal. There is at most one per pair.
#[derive(Debug, PartialEq, Eq)]
pub struct VoteRecord {
    pub voter: Address,
    pub proposal_id: u64,
    /// The tokens that the voter committed.
    pub weight: u128,
}

impl Keyed for VoteRecord {
    type Key = (u64, Seq<char>);

    open spec fn key(&self) -> (u64, Seq<char>) {
        (self.proposal_id, self.voter@)
    }
}

/// Whether an asset type may back collateral.
#[derive(Debug, PartialEq, Eq)]
pub struct AssetFlag {
    pub asset: String,
    pub allowed: bool,
}

impl Keyed for AssetFlag {
    type Key = Seq<char>;

    open spec fn key(&self) -> Seq<char> {
        self.asset@
    }
}

/// Whether an oracle may be bound to new escrows.
#[derive(Debug, PartialEq, Eq)]
pub struct OracleFlag {
    pub oracle: Address,
    pub allowed: bool,
}

impl Keyed for OracleFlag {
    type Key = Seq<char>;

    open spec fn key(&self) -> Seq<char> {
        self.oracle@
    }
}

/// Governance tokens that a voter owes the vault for a vote. The host moves
/// them into the vault's custody within the transaction of the vote, and
/// fails the whole vote if it cannot.
#[derive(Debug, PartialEq, Eq)]
pub struct TokenTransfer {
    pub from: Address,
    pub amount: u128,
}

/// What the vault tells the world, one event for each change of state.
#[derive(Debug, PartialEq, Eq)]
pub enum VaultEvent {
    Initialized { admin: Address },
    Tokenized { token_id: u64, owner: Address, asset_value: i128 },
    EscrowCreated { escrow_id: u64, buyer: Address, seller: Address, amount: i128 },
    EscrowActivated { escrow_id: u64 },
    EscrowReleased { escrow_id: u64 },
    ProposalCreated { proposal_id: u64, proposer: Address, end_time: u64 },
    VoteCast { proposal_id: u64, voter: Address, votes: u128 },
    ProposalExecuted { proposal_id: u64 },
}

/// The state of the vault.
#[derive(Debug)]
pub struct StelloVaultContract {
    pub admin: Option<Address>,
    /// The token in which votes are paid.
    pub gov_token: Option<Address>,
    pub next_token_id: u64,
    pub next_escrow_id: u64,
    pub next_proposal_id: u64,
    /// The loan-to-value limit, in basis points.
    pub max_ltv: u32,
    /// The votes that a proposal needs to be executed.
    pub quorum: u128,
    /// The code that governance last moved the vault to.
    pub code_hash: Option<[u8; 32]>,
    pub collateral_whitelist: Vec<AssetFlag>,
    pub oracle_whitelist: Vec<OracleFlag>,
    pub tokens: HashMap<u64, CollateralToken>,
    pub escrows: HashMap<u64, TradeEscrow>,
    pub proposals: HashMap<u64, Proposal>,
    pub votes: Vec<VoteRecord>,
    /// The token transfers that the host still has to make.
    pub transfers: Vec<TokenTransfer>,
    /// The events that the host still has to publish.
    pub events: Vec<VaultEvent>,
}

/// The position of the flag of `asset`, if it has one.
pub fn find_asset(list: &Vec<AssetFlag>, asset: &String) -> (r: Option<usize>)
    ensures
        match r {
            Some(i) => first_at(list@, asset@, i as int),
            None => absent(list@, asset@),
        },
{
    let mut i: usize = 0;
    while i < list.len()
        invariant
            i <= list.len(),
            forall|j: int| 0 <= j < i ==> (#[trigger] list@[j]).key() != asset@,
        decreases list.len() - i,
    {
        if list[i].asset == *asset {
            return Some(i);
        }
        i += 1;
    }
    None
}

/// The position of the flag of `oracle`, if it has one.
pub fn find_oracle(list: &Vec<OracleFlag>, oracle: &Address) -> (r: Option<usize>)
    ensures
        match r {
            Some(i) => first_at(list@, oracle@, i as int),
            None => absent(list@, oracle@),
        },
{
    let mut i: usize = 0;
    while i < list.len()
        invariant
            i <= list.len(),
            forall|j: int| 0 <= j < i ==> (#[trigger] list@[j]).key() != oracle@,
        decreases list.len() - i,
    {
        if list[i].oracle.same(oracle) {
            return Some(i);
        }
        i += 1;
    }
    None
}

impl StelloVaultContract {
    /// Whether `asset` may back collateral: it has a flag, and the flag
    /// allows it.
    pub open spec fn asset_allowed(&self, asset: Seq<char>) -> bool {
        let flags = as_map(self.collateral_whitelist@);
        flags.contains_key(asset) && flags[asset].allowed
    }

    /// Whether `oracle` may be bound to a new escrow.
    pub open spec fn oracle_allowed(&self, oracle: Seq<char>) -> bool {
        let flags = as_map(self.oracle_whitelist@);
        flags.contains_key(oracle) && flags[oracle].allowed
    }

    /// Whether `voter` has voted on the proposal.
    pub open spec fn has_voted(&self, proposal_id: u64, voter: Seq<char>) -> bool {
        as_map(self.votes@).contains_key((proposal_id, voter))
    }

    /// What holds of every vault that was filled through its operations:
    /// the ids are below their counters, every collateral token has a
    /// positive value, every escrow a positive amount, every proposal its
    /// own id and every vote a positive weight.
    pub open spec fn consistent(&self) -> bool {
        &&& self.next_token_id >= 1
        &&& self.next_escrow_id >= 1
        &&& self.next_proposal_id >= 1
        &&& forall|id: u64| #[trigger]
            self.tokens@.contains_key(id) ==> 1 <= id < self.next_token_id
                && self.tokens@[id].asset_value > 0
        &&& forall|id: u64| #[trigger]
            self.escrows@.contains_key(id) ==> 1 <= id < self.next_escrow_id
                && self.escrows@[id].amount > 0
        &&& forall|id: u64| #[trigger]
            self.proposals@.contains_key(id) ==> 1 <= id < self.next_proposal_id
                && self.proposals@[id].id == id
        &&& forall|i: int| 0 <= i < self.votes@.len() ==> (#[trigger] self.votes@[i]).weight > 0
    }

    /// Every proposal that is executed in `pre` is in `post` exactly as it
    /// was: an executed proposal is final.
    pub open spec fn keeps_executed(pre: Self, post: Self) -> bool {
        forall|id: u64|
            pre.proposals@.contains_key(id) && pre.proposals@[id].executed
                ==> #[trigger] post.proposals@.contains_key(id) && post.proposals@[id]
                == pre.proposals@[id]
    }

    /// Whether the vault has handed out no id yet.
    pub open spec fn unused(&self) -> bool {
        self.next_token_id == 1 && self.next_escrow_id == 1 && self.next_proposal_id == 1
    }

    /// A vault that nobody has initialized: no admin, nothing whitelisted,
    /// a loan-to-value limit of zero.
    pub fn new() -> (r: StelloVaultContract)
        ensures
            r.consistent(),
            r.admin is None,
            r.gov_token is None,
            r.next_token_id == 1,
            r.next_escrow_id == 1,
            r.next_proposal_id == 1,
            r.max_ltv == 0,
            r.quorum == DEFAULT_QUORUM,
            r.code_hash is None,
            r.collateral_whitelist@.len() == 0,
            r.oracle_whitelist@.len() == 0,
            r.tokens@ == Map::<u64, CollateralToken>::empty(),
            r.escrows@ == Map::<u64, TradeEscrow>::empty(),
            r.proposals@ == Map::<u64, Proposal>::empty(),
            r.votes@.len() == 0,
            r.transfers@.len() == 0,
            r.events@.len() == 0,
    {
        StelloVaultContract {
            admin: None,
            gov_token: None,
            next_token_id: 1,
            next_escrow_id: 1,
            next_proposal_id: 1,
            max_ltv: 0,
            quorum: DEFAULT_QUORUM,
            code_hash: None,
            collateral_whitelist: Vec::new(),
            oracle_whitelist: Vec::new(),
            tokens: HashMap::new(),
            escrows: HashMap::new(),
            proposals: HashMap::new(),
            votes: Vec::new(),
            transfers: Vec::new(),
            events: Vec::new(),
        }
    }

    /// Gives the vault its admin and its governance token, restarts the
    /// three counters at 1 and sets the default parameters. A vault is
    /// initialized once: a second call fails with `Unauthorized`.
    pub fn initialize(&mut self, env: &Env, admin: Address, gov_token: Address) -> (r: Result<
        (),
        ContractError,
    >)
        ensures
            r is Err <==> old(self).admin is Some,
            r is Err ==> r == Err::<(), ContractError>(ContractError::Unauthorized) && *final(self)
                == *old(self),
            r is Ok ==> *final(self) == (StelloVaultContract {
                admin: Some(admin),
                gov_token: Some(gov_token),
                next_token_id: 1,
                next_escrow_id: 1,
                next_proposal_id: 1,
                max_ltv: DEFAULT_MAX_LTV,
                quorum: DEFAULT_QUORUM,
                events: final(self).events,
                ..*old(self)
            }) && final(self).events@ == old(self).events@.push(
                VaultEvent::Initialized { admin },
            ),
            old(self).consistent() && old(self).unused() ==> final(self).consistent(),
            Self::keeps_executed(*old(self), *final(self)),
    {
        if self.admin.is_some() {
            return Err(ContractError::Unauthorized);
        }
        self.events.push(VaultEvent::Initialized { admin: admin.clone() });
        self.admin = Some(admin);
        self.gov_token = Some(gov_token);
        self.next_token_id = 1;
        self.next_escrow_id = 1;
        self.next_proposal_id = 1;
        self.max_ltv = DEFAULT_MAX_LTV;
        self.quorum = DEFAULT_QUORUM;
        Ok(())
    }

    /// The vault's admin.
    pub fn admin(&self) -> (r: Address)
        requires
            self.admin is Some,
        ensures
            Some(r) == self.admin,
    {
        match &self.admin {
            Some(a) => a.clone(),
            None => vstd::pervasive::unreached(),
        }
    }

    /// The collateral token with this id, if there is one.
    pub fn get_collateral(&self, token_id: u64) -> (r: Option<CollateralToken>)
        ensures
            r == (if self.tokens@.contains_key(token_id) {
                Some(self.tokens@[token_id])
            } else {
                None
            }),
    {
        match self.tokens.get(&token_id) {
            Some(t) => Some(t.clone()),
            None => None,
        }
    }

    /// The escrow with this id, if there is one.
    pub fn get_escrow(&self, escrow_id: u64) -> (r: Option<TradeEscrow>)
        ensures
            r == (if self.escrows@.contains_key(escrow_id) {
                Some(self.escrows@[escrow_id])
            } else {
                None
            }),
    {
        match self.escrows.get(&escrow_id) {
            Some(e) => Some(e.clone()),
            None => None,
        }
    }

    /// The proposal with this id, if there is one.
    pub fn get_proposal(&self, proposal_id: u64) -> (r: Option<Proposal>)
        ensures
            r == (if self.proposals@.contains_key(proposal_id) {
                Some(self.proposals@[proposal_id])
            } else {
                None
            }),
    {
        match self.proposals.get(&proposal_id) {
            Some(p) => Some(p.clone()),
            None => None,
        }
    }

    /// Whether `asset` may back collateral.
    pub fn is_asset_whitelisted(&self, asset: &String) -> (r: bool)
        ensures
            r == self.asset_allowed(asset@),
    {
        match find_asset(&self.collateral_whitelist, asset) {
            Some(i) => {
                proof {
                    crate::store::lemma_position_found(self.collateral_whitelist@, asset@, i as int);
                }
                self.collateral_whitelist[i].allowed
            },
            None => {
                proof {
                    crate::store::lemma_position_absent(self.collateral_whitelist@, asset@);
                }
                false
            },
        }
    }

    /// Whether `oracle` may be bound to a new escrow.
    pub fn is_oracle_whitelisted(&self, oracle: &Address) -> (r: bool)
        ensures
            r == self.oracle_allowed(oracle@),
    {
        match find_oracle(&self.oracle_whitelist, oracle) {
            Some(i) => {
                proof {
                    crate::store::lemma_position_found(self.oracle_whitelist@, oracle@, i as int);
                }
                self.oracle_whitelist[i].allowed
            },
            None => {
                proof {
                    crate::store::lemma_position_absent(self.oracle_whitelist@, oracle@);
                }
                false
            },
        }
    }
}

} // verus!
