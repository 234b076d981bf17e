//! The escrow core of the vault: tokenising collateral, lending against it
//! within the loan-to-value limit, and releasing on the oracle's word.

use crate::ledger::{Address, Env};
use crate::vault::{
    CollateralToken, ContractError, EscrowStatus, StelloVaultContract, TradeEscrow, VaultEvent,
    BASIS_POINTS,
};
use vstd::prelude::*;

verus! {

/// The largest loan that collateral worth `asset_value` backs under the
/// limit `max_ltv`, in basis points: `asset_value * max_ltv / 10000`,
/// rounded toward zero. For the positive values that tokenised collateral
/// has, this is the floor of the quotient.
pub open spec fn loan_cap(asset_value: i128, max_ltv: u32) -> int {
    let product = asset_value * max_ltv;
    if product >= 0 {
        product / 10000
    } else {
        -((-product) / 10000)
    }
}

/// Whether `asset_value * max_ltv` fits the 128-bit arithmetic of the vault.
pub open spec fn ltv_product_fits(asset_value: i128, max_ltv: u32) -> bool {
    i128::MIN <= asset_value * max_ltv <= i128::MAX
}

/// The largest loan that collateral worth `asset_value` backs under the
/// limit `max_ltv`, or `MathOverflow` where the product of the two does not
/// fit.
pub fn max_loan_amount(asset_value: i128, max_ltv: u32) -> (r: Result<i128, ContractError>)
    ensures
        r is Ok <==> ltv_product_fits(asset_value, max_ltv),
        r is Ok ==> r.unwrap() == loan_cap(asset_value, max_ltv),
        r is Err ==> r == Err::<i128, ContractError>(ContractError::MathOverflow),
{
    match asset_value.checked_mul(max_ltv as i128) {
        None => Err(ContractError::MathOverflow),
        Some(product) => {
            match product.checked_div(BASIS_POINTS) {
                Some(cap) => Ok(cap),
                None => Err(ContractError::MathOverflow),
            }
        },
    }
}

impl StelloVaultContract {
    /// Why the vault refuses to tokenise this collateral, if it does. The
    /// checks come in this order: the owner's authorization, the value, the
    /// whitelist.
    pub open spec fn tokenize_error(
        &self,
        env: Env,
        owner: Seq<char>,
        asset_type: Seq<char>,
        asset_value: i128,
    ) -> Option<ContractError> {
        if !env.authorizes(owner) {
            Some(ContractError::Unauthorized)
        } else if asset_value <= 0 {
            Some(ContractError::InvalidAmount)
        } else if !self.asset_allowed(asset_type) {
            Some(ContractError::AssetNotWhitelisted)
        } else {
            None
        }
    }

    /// Creates a collateral token for `owner` and returns its id, the next
    /// in sequence.
    pub fn tokenize_collateral(
        &mut self,
        env: &Env,
        owner: Address,
        asset_type: String,
        asset_value: i128,
        metadata: String,
        fractional_shares: u32,
    ) -> (r: Result<u64, ContractError>)
        requires
            old(self).next_token_id < u64::MAX,
        ensures
            match r {
                Ok(id) => {
                    &&& old(self).tokenize_error(*env, owner@, asset_type@, asset_value) is None
                    &&& id == old(self).next_token_id
                    &&& *final(self) == (StelloVaultContract {
                        next_token_id: (id + 1) as u64,
                        tokens: final(self).tokens,
                        events: final(self).events,
                        ..*old(self)
                    })
                    &&& final(self).tokens@ == old(self).tokens@.insert(
                        id,
                        CollateralToken {
                            owner,
                            asset_type,
                            asset_value,
                            metadata,
                            fractional_shares,
                            created_at: env.timestamp,
                        },
                    )
                    &&& final(self).events@ == old(self).events@.push(
                        VaultEvent::Tokenized { token_id: id, owner, asset_value },
                    )
                },
                Err(e) => {
                    &&& old(self).tokenize_error(*env, owner@, asset_type@, asset_value) == Some(e)
                    &&& *final(self) == *old(self)
                },
            },
            old(self).consistent() ==> final(self).consistent(),
            Self::keeps_executed(*old(self), *final(self)),
    {
        if !env.is_authorized(&owner) {
            return Err(ContractError::Unauthorized);
        }
        if asset_value <= 0 {
            return Err(ContractError::InvalidAmount);
        }
        if !self.is_asset_whitelisted(&asset_type) {
            return Err(ContractError::AssetNotWhitelisted);
        }
        let token_id = self.next_token_id;
        self.events.push(
            VaultEvent::Tokenized { token_id, owner: owner.clone(), asset_value },
        );
        let token = CollateralToken {
            owner,
            asset_type,
            asset_value,
            metadata,
            fractional_shares,
            created_at: env.timestamp(),
        };
        self.tokens.insert(token_id, token);
        self.next_token_id = token_id + 1;
        Ok(token_id)
    }

    /// Why the vault refuses to create this escrow, if it does. The checks
    /// come in this order: the buyer's authorization, the amount, the
    /// oracle's whitelist, the collateral, the arithmetic, the
    /// loan-to-value limit.
    pub open spec fn create_escrow_error(
        &self,
        env: Env,
        buyer: Seq<char>,
        collateral_token_id: u64,
        amount: i128,
        oracle: Seq<char>,
    ) -> Option<ContractError> {
        if !env.authorizes(buyer) {
            Some(ContractError::Unauthorized)
        } else if amount <= 0 {
            Some(ContractError::InvalidAmount)
        } else if !self.oracle_allowed(oracle) {
            Some(ContractError::OracleNotWhitelisted)
        } else if !self.tokens@.contains_key(collateral_token_id) {
            Some(ContractError::CollateralNotFound)
        } else if !ltv_product_fits(self.tokens@[collateral_token_id].asset_value, self.max_ltv) {
            Some(ContractError::MathOverflow)
        } else if amount > loan_cap(self.tokens@[collateral_token_id].asset_value, self.max_ltv) {
            Some(ContractError::LtvExceeded)
        } else {
            None
        }
    }

    /// Creates a pending escrow of `amount` against a collateral token and
    /// returns its id, the next in sequence. The amount may not exceed the
    /// share of the collateral's value that the loan-to-value limit allows.
    pub fn create_escrow(
        &mut self,
        env: &Env,
        buyer: Address,
        seller: Address,
        collateral_token_id: u64,
        amount: i128,
        oracle_address: Address,
        release_conditions: String,
    ) -> (r: Result<u64, ContractError>)
        requires
            old(self).next_escrow_id < u64::MAX,
        ensures
            match r {
                Ok(id) => {
                    &&& old(self).create_escrow_error(
                        *env,
                        buyer@,
                        collateral_token_id,
                        amount,
                        oracle_address@,
                    ) is None
                    &&& id == old(self).next_escrow_id
                    &&& *final(self) == (StelloVaultContract {
                        next_escrow_id: (id + 1) as u64,
                        escrows: final(self).escrows,
                        events: final(self).events,
                        ..*old(self)
                    })
                    &&& final(self).escrows@ == old(self).escrows@.insert(
                        id,
                        TradeEscrow {
                            buyer,
                            seller,
                            collateral_token_id,
                            amount,
                            status: EscrowStatus::Pending,
                            oracle_address,
                            release_conditions,
                            created_at: env.timestamp,
                        },
                    )
                    &&& final(self).events@ == old(self).events@.push(
                        VaultEvent::EscrowCreated { escrow_id: id, buyer, seller, amount },
                    )
                },
                Err(e) => {
                    &&& old(self).create_escrow_error(
                        *env,
                        buyer@,
                        collateral_token_id,
                        amount,
                        oracle_address@,
                    ) == Some(e)
                    &&& *final(self) == *old(self)
                },
            },
            old(self).consistent() ==> final(self).consistent(),
            Self::keeps_executed(*old(self), *final(self)),
    {
        if !env.is_authorized(&buyer) {
            return Err(ContractError::Unauthorized);
        }
        if amount <= 0 {
            return Err(ContractError::InvalidAmount);
        }
        if !self.is_oracle_whitelisted(&oracle_address) {
            return Err(ContractError::OracleNotWhitelisted);
        }
        let asset_value = match self.tokens.get(&collateral_token_id) {
            Some(token) => token.asset_value,
            None => {
                return Err(ContractError::CollateralNotFound);
            },
        };
        let max_loan = match max_loan_amount(asset_value, self.max_ltv) {
            Ok(cap) => cap,
            Err(e) => {
                return Err(e);
            },
        };
        if amount > max_loan {
            return Err(ContractError::LtvExceeded);
        }
        let escrow_id = self.next_escrow_id;
        self.events.push(
            VaultEvent::EscrowCreated {
                escrow_id,
                buyer: buyer.clone(),
                seller: seller.clone(),
                amount,
            },
        );
        let escrow = TradeEscrow {
            buyer,
            seller,
            collateral_token_id,
            amount,
            status: EscrowStatus::Pending,
            oracle_address,
            release_conditions,
            created_at: env.timestamp(),
        };
        self.escrows.insert(escrow_id, escrow);
        self.next_escrow_id = escrow_id + 1;
        Ok(escrow_id)
    }

    /// Why the vault refuses to activate this escrow, if it does.
    pub open spec fn activate_error(&self, escrow_id: u64) -> Option<ContractError> {
        if !self.escrows@.contains_key(escrow_id) {
            Some(ContractError::EscrowNotFound)
        } else if self.escrows@[escrow_id].status != EscrowStatus::Pending {
            Some(ContractError::Unauthorized)
        } else {
            None
        }
    }

    /// `post` is `pre` after the escrow has moved to the status `to`:
    /// nothing else about the escrow has changed, no other escrow has, and
    /// `event` tells of it.
    pub open spec fn status_moved(
        pre: Self,
        escrow_id: u64,
        to: EscrowStatus,
        event: VaultEvent,
        post: Self,
    ) -> bool {
        &&& pre.escrows@.contains_key(escrow_id)
        &&& post == (StelloVaultContract { escrows: post.escrows, events: post.events, ..pre })
        &&& post.escrows@ == pre.escrows@.insert(
            escrow_id,
            TradeEscrow { status: to, ..pre.escrows@[escrow_id] },
        )
        &&& post.events@ == pre.events@.push(event)
    }

    /// Moves a pending escrow to `Active`: it is funded and ready. An
    /// escrow in any other state is refused with `Unauthorized`.
    pub fn activate_escrow(&mut self, escrow_id: u64) -> (r: Result<(), ContractError>)
        ensures
            match r {
                Ok(_) => {
                    &&& old(self).activate_error(escrow_id) is None
                    &&& Self::status_moved(
                        *old(self),
                        escrow_id,
                        EscrowStatus::Active,
                        VaultEvent::EscrowActivated { escrow_id },
                        *final(self),
                    )
                },
                Err(e) => {
                    &&& old(self).activate_error(escrow_id) == Some(e)
                    &&& *final(self) == *old(self)
                },
            },
            old(self).consistent() ==> final(self).consistent(),
            Self::keeps_executed(*old(self), *final(self)),
    {
        let mut escrow = match self.escrows.get(&escrow_id) {
            Some(e) => e.clone(),
            None => {
                return Err(ContractError::EscrowNotFound);
            },
        };
        match escrow.status {
            EscrowStatus::Pending => {},
            _ => {
                return Err(ContractError::Unauthorized);
            },
        }
        escrow.status = EscrowStatus::Active;
        self.escrows.insert(escrow_id, escrow);
        self.events.push(VaultEvent::EscrowActivated { escrow_id });
        Ok(())
    }

    /// Why the vault refuses to release this escrow, if it does. Only the
    /// oracle bound to the escrow may release it, and only while it is
    /// active: the vault answers `EscrowAlreadyReleased` for an escrow in
    /// any other state, a pending or cancelled one too.
    pub open spec fn release_error(&self, env: Env, escrow_id: u64) -> Option<ContractError> {
        if !self.escrows@.contains_key(escrow_id) {
            Some(ContractError::EscrowNotFound)
        } else if !env.authorizes(self.escrows@[escrow_id].oracle_address@) {
            Some(ContractError::Unauthorized)
        } else if self.escrows@[escrow_id].status != EscrowStatus::Active {
            Some(ContractError::EscrowAlreadyReleased)
        } else {
            None
        }
    }

    /// Releases the funds of an active escrow on the word of its oracle.
    pub fn release_escrow(&mut self, env: &Env, escrow_id: u64) -> (r: Result<(), ContractError>)
        ensures
            match r {
                Ok(_) => {
                    &&& old(self).release_error(*env, escrow_id) is None
                    &&& Self::status_moved(
                        *old(self),
                        escrow_id,
                        EscrowStatus::Released,
                        VaultEvent::EscrowReleased { escrow_id },
                        *final(self),
                    )
                },
                Err(e) => {
                    &&& old(self).release_error(*env, escrow_id) == Some(e)
                    &&& *final(self) == *old(self)
                },
            },
            old(self).consistent() ==> final(self).consistent(),
            Self::keeps_executed(*old(self), *final(self)),
    {
        let mut escrow = match self.escrows.get(&escrow_id) {
            Some(e) => e.clone(),
            None => {
                return Err(ContractError::EscrowNotFound);
            },
        };
        if !env.is_authorized(&escrow.oracle_address) {
            return Err(ContractError::Unauthorized);
        }
        match escrow.status {
            EscrowStatus::Active => {},
            _ => {
                return Err(ContractError::EscrowAlreadyReleased);
            },
        }
        escrow.status = EscrowStatus::Released;
        self.escrows.insert(escrow_id, escrow);
        self.events.push(VaultEvent::EscrowReleased { escrow_id });
        Ok(())
    }
}

/// A loan above the loan-to-value limit is refused, and the loan that
/// meets the limit exactly is granted: once the buyer has authorized the
/// call, the amount is positive, the oracle is whitelisted, the collateral
/// exists and its value times the limit fits the arithmetic, the vault
/// answers `LtvExceeded` to every amount above
/// `asset_value * max_ltv / 10000` and accepts the amount equal to it.
/// Whatever else holds, no amount above the limit is accepted.
pub proof fn lemma_ltv_limit(
    vault: StelloVaultContract,
    env: Env,
    buyer: Seq<char>,
    collateral_token_id: u64,
    amount: i128,
    oracle: Seq<char>,
)
    requires
        vault.tokens@.contains_key(collateral_token_id),
        ltv_product_fits(vault.tokens@[collateral_token_id].asset_value, vault.max_ltv),
    ensures
        ({
            let cap = loan_cap(vault.tokens@[collateral_token_id].asset_value, vault.max_ltv);
            let verdict = vault.create_escrow_error(
                env,
                buyer,
                collateral_token_id,
                amount,
                oracle,
            );
            let admitted = env.authorizes(buyer) && amount > 0 && vault.oracle_allowed(oracle);
            &&& amount > cap ==> verdict is Some
            &&& amount > cap && admitted ==> verdict == Some(ContractError::LtvExceeded)
            &&& amount == cap && admitted ==> verdict is None
            &&& verdict is None ==> 0 < amount <= cap
        }),
{
}

/// An escrow only moves forward: an activation takes it from `Pending` to
/// `Active`, a release from `Active` to `Released`, and neither changes
/// anything else about it or touches another escrow.
pub proof fn lemma_escrow_moves_forward(
    pre: StelloVaultContract,
    env: Env,
    escrow_id: u64,
    to: EscrowStatus,
    event: VaultEvent,
    post: StelloVaultContract,
    other: u64,
)
    requires
        StelloVaultContract::status_moved(pre, escrow_id, to, event, post),
        (to == EscrowStatus::Active && pre.activate_error(escrow_id) is None) || (to
            == EscrowStatus::Released && pre.release_error(env, escrow_id) is None),
    ensures
        post.escrows@[escrow_id].status.rank() == pre.escrows@[escrow_id].status.rank() + 1,
        post.escrows@[escrow_id] == (TradeEscrow { status: to, ..pre.escrows@[escrow_id] }),
        other != escrow_id ==> post.escrows@.contains_key(other) == pre.escrows@.contains_key(other),
        other != escrow_id && pre.escrows@.contains_key(other) ==> post.escrows@[other]
            == pre.escrows@[other],
{
}

/// No id is handed out twice: in a consistent vault the next id of each
/// kind names nothing yet, so a new collateral token, escrow or proposal
/// never takes the place of one that exists.
pub proof fn lemma_next_ids_are_free(vault: StelloVaultContract)
    requires
        vault.consistent(),
    ensures
        !vault.tokens@.contains_key(vault.next_token_id),
        !vault.escrows@.contains_key(vault.next_escrow_id),
        !vault.proposals@.contains_key(vault.next_proposal_id),
{
}

} // verus!
