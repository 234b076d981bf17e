//! The governance module of the vault: proposals, quadratic voting and
//! quorum-gated execution.
//!
//! A proposal is active until its end time, executable once the end time
//! has passed and the votes have reached the quorum, and executed at most
//! once. A voter commits a weight of governance tokens and gets the integer
//! square root of the weight in votes.

use crate::ledger::{Address, Env};
use crate::math::{
    is_isqrt, isqrt, lemma_half_is_above, lemma_isqrt_is, lemma_newton_fixpoint_is_below,
    lemma_newton_step_stays_above, lemma_newton_sum_fits,
};
use crate::store::{
    absent, as_map, first_at, lemma_position_absent, lemma_position_found, lemma_push_fresh,
    lemma_update_named, Keyed,
};
use crate::vault::{
    find_asset, find_oracle, AssetFlag, ContractError, GovernanceAction, OracleFlag, Proposal,
    StelloVaultContract, TokenTransfer, VaultEvent, VoteRecord,
};
use vstd::prelude::*;

verus! {

/// The votes of a proposal after one more vote of the given weight, or
/// `None` where the sum does not fit 128 bits.
pub open spec fn count_after_vote(count: u128, weight: u128) -> Option<u128> {
    if count + isqrt(weight as nat) <= u128::MAX {
        Some((count + isqrt(weight as nat)) as u128)
    } else {
        None
    }
}

/// The sum of the integer square roots of the weights.
pub open spec fn tally(weights: Seq<u128>) -> nat
    decreases weights.len(),
{
    if weights.len() == 0 {
        0
    } else {
        tally(weights.drop_last()) + isqrt(weights.last() as nat)
    }
}

/// The votes of a proposal that stood at `count` after votes of the given
/// weights, one after the other, or `None` where one of them overflows.
pub open spec fn count_after_votes(count: u128, weights: Seq<u128>) -> Option<u128>
    decreases weights.len(),
{
    if weights.len() == 0 {
        Some(count)
    } else {
        match count_after_votes(count, weights.drop_last()) {
            Some(before) => count_after_vote(before, weights.last()),
            None => None,
        }
    }
}

/// Quadratic voting counts square roots: after votes of the weights
/// `w1 ... wn` a proposal holds exactly the votes it had before plus
/// `isqrt(w1) + ... + isqrt(wn)`, and the votes can all be cast exactly
/// when that sum fits 128 bits.
pub proof fn lemma_vote_count_is_sum(count: u128, weights: Seq<u128>)
    ensures
        count_after_votes(count, weights) is Some <==> count + tally(weights) <= u128::MAX,
        count_after_votes(count, weights) is Some ==> count_after_votes(count, weights).unwrap()
            == count + tally(weights),
    decreases weights.len(),
{
    if weights.len() > 0 {
        lemma_vote_count_is_sum(count, weights.drop_last());
    }
}

/// The position of the vote of `voter` on the proposal, if there is one.
pub fn find_vote(list: &Vec<VoteRecord>, proposal_id: u64, voter: &Address) -> (r: Option<usize>)
    ensures
        match r {
            Some(i) => first_at(list@, (proposal_id, voter@), i as int),
            None => absent(list@, (proposal_id, voter@)),
        },
{
    let mut i: usize = 0;
    while i < list.len()
        invariant
            i <= list.len(),
            forall|j: int| 0 <= j < i ==> (#[trigger] list@[j]).key() != (proposal_id, voter@),
        decreases list.len() - i,
    {
        if list[i].proposal_id == proposal_id && list[i].voter.same(voter) {
            return Some(i);
        }
        i += 1;
    }
    None
}

/// Gives `asset` the flag `allowed`, whether or not it had a flag before.
pub fn set_asset_flag(list: &mut Vec<AssetFlag>, asset: String, allowed: bool)
    ensures
        as_map(final(list)@) == as_map(old(list)@).insert(asset@, AssetFlag { asset, allowed }),
{
    match find_asset(list, &asset) {
        Some(i) => {
            proof {
                lemma_update_named(list@, i as int, AssetFlag { asset, allowed });
            }
            list[i] = AssetFlag { asset, allowed };
        },
        None => {
            proof {
                lemma_push_fresh(list@, AssetFlag { asset, allowed });
            }
            list.push(AssetFlag { asset, allowed });
        },
    }
}

/// Gives `oracle` the flag `allowed`, whether or not it had a flag before.
pub fn set_oracle_flag(list: &mut Vec<OracleFlag>, oracle: Address, allowed: bool)
    ensures
        as_map(final(list)@) == as_map(old(list)@).insert(oracle@, OracleFlag { oracle, allowed }),
{
    match find_oracle(list, &oracle) {
        Some(i) => {
            proof {
                lemma_update_named(list@, i as int, OracleFlag { oracle, allowed });
            }
            list[i] = OracleFlag { oracle, allowed };
        },
        None => {
            proof {
                lemma_push_fresh(list@, OracleFlag { oracle, allowed });
            }
            list.push(OracleFlag { oracle, allowed });
        },
    }
}

impl StelloVaultContract {
    /// Integer square root by Newton's method: `n` itself below 2; else the
    /// first guess is `n / 2`, each step replaces the guess `x` by
    /// `(x + n / x) / 2`, and the iteration stops at the first step that
    /// does not lower the guess. The result is `floor(sqrt(n))`.
    pub fn sqrt(n: u128) -> (r: u128)
        ensures
            r == isqrt(n as nat),
            r * r <= n < (r + 1) * (r + 1),
    {
        if n < 2 {
            proof {
                assert(is_isqrt(n as nat, n as nat)) by (nonlinear_arith)
                    requires
                        n == 0 || n == 1,
                ;
                lemma_isqrt_is(n as nat, n as nat);
            }
            return n;
        }
        let mut x: u128 = n / 2;
        proof {
            lemma_half_is_above(n as nat);
            lemma_newton_sum_fits(n as nat, x as nat);
        }
        let mut y: u128 = (x + n / x) / 2;
        while y < x
            invariant
                n >= 2,
                1 <= x <= n / 2,
                n < (x + 1) * (x + 1),
                y == (x + n / x) / 2,
            decreases x,
        {
            proof {
                lemma_newton_step_stays_above(n as nat, x as nat, y as nat);
                if y == 0 {
                    assert(n < 1) by (nonlinear_arith)
                        requires
                            y == 0,
                            n < (y + 1) * (y + 1),
                    ;
                }
            }
            x = y;
            proof {
                lemma_newton_sum_fits(n as nat, x as nat);
            }
            y = (x + n / x) / 2;
        }
        proof {
            lemma_newton_fixpoint_is_below(n as nat, x as nat, y as nat);
            lemma_isqrt_is(n as nat, x as nat);
        }
        x
    }

    /// Opens a proposal for votes until `duration` seconds from now and
    /// returns its id, the next in sequence.
    pub fn propose(
        &mut self,
        env: &Env,
        proposer: Address,
        title: String,
        desc: String,
        action: GovernanceAction,
        duration: u64,
    ) -> (r: Result<u64, ContractError>)
        requires
            old(self).next_proposal_id < u64::MAX,
            env.timestamp + duration <= u64::MAX,
        ensures
            r is Err <==> !env.authorizes(proposer@),
            match r {
                Ok(id) => {
                    &&& id == old(self).next_proposal_id
                    &&& *final(self) == (StelloVaultContract {
                        next_proposal_id: (id + 1) as u64,
                        proposals: final(self).proposals,
                        events: final(self).events,
                        ..*old(self)
                    })
                    &&& final(self).proposals@ == old(self).proposals@.insert(
                        id,
                        Proposal {
                            id,
                            proposer,
                            title,
                            desc,
                            action,
                            vote_count: 0,
                            end_time: (env.timestamp + duration) as u64,
                            executed: false,
                        },
                    )
                    &&& final(self).events@ == old(self).events@.push(
                        VaultEvent::ProposalCreated {
                            proposal_id: id,
                            proposer,
                            end_time: (env.timestamp + duration) as u64,
                        },
                    )
                },
                Err(e) => e == ContractError::Unauthorized && *final(self) == *old(self),
            },
            old(self).consistent() ==> final(self).consistent(),
            old(self).consistent() ==> Self::keeps_executed(*old(self), *final(self)),
    {
        if !env.is_authorized(&proposer) {
            return Err(ContractError::Unauthorized);
        }
        let proposal_id = self.next_proposal_id;
        let end_time = env.timestamp() + duration;
        self.events.push(
            VaultEvent::ProposalCreated { proposal_id, proposer: proposer.clone(), end_time },
        );
        let proposal = Proposal {
            id: proposal_id,
            proposer,
            title,
            desc,
            action,
            vote_count: 0,
            end_time,
            executed: false,
        };
        self.proposals.insert(proposal_id, proposal);
        self.next_proposal_id = proposal_id + 1;
        Ok(proposal_id)
    }

    /// Why the vault refuses this vote, if it does. The checks come in this
    /// order: the voter's authorization, the weight, the proposal, its
    /// deadline, its execution, an earlier vote of the same voter, the
    /// arithmetic.
    pub open spec fn vote_error(
        &self,
        env: Env,
        voter: Seq<char>,
        proposal_id: u64,
        weight: u128,
    ) -> Option<ContractError> {
        if !env.authorizes(voter) {
            Some(ContractError::Unauthorized)
        } else if weight == 0 {
            Some(ContractError::ZeroWeight)
        } else if !self.proposals@.contains_key(proposal_id) {
            Some(ContractError::ProposalNotFound)
        } else if env.timestamp > self.proposals@[proposal_id].end_time {
            Some(ContractError::VotePeriodEnded)
        } else if self.proposals@[proposal_id].executed {
            Some(ContractError::ProposalNotActive)
        } else if self.has_voted(proposal_id, voter) {
            Some(ContractError::AlreadyVoted)
        } else if count_after_vote(self.proposals@[proposal_id].vote_count, weight) is None {
            Some(ContractError::VoteOverflow)
        } else {
            None
        }
    }

    /// `post` is `pre` after the vote: the proposal has gained
    /// `isqrt(weight)` votes, the vote is on record, the vault has asked
    /// for `weight` tokens of the voter, and one event tells of it.
    pub open spec fn voted(
        pre: Self,
        env: Env,
        voter: Address,
        proposal_id: u64,
        weight: u128,
        post: Self,
    ) -> bool {
        &&& pre.vote_error(env, voter@, proposal_id, weight) is None
        &&& post == (StelloVaultContract {
            proposals: post.proposals,
            votes: post.votes,
            transfers: post.transfers,
            events: post.events,
            ..pre
        })
        &&& post.proposals@ == pre.proposals@.insert(
            proposal_id,
            Proposal {
                vote_count: count_after_vote(
                    pre.proposals@[proposal_id].vote_count,
                    weight,
                ).unwrap(),
                ..pre.proposals@[proposal_id]
            },
        )
        &&& post.votes@ == pre.votes@.push(VoteRecord { voter, proposal_id, weight })
        &&& as_map(post.votes@) == as_map(pre.votes@).insert(
            (proposal_id, voter@),
            VoteRecord { voter, proposal_id, weight },
        )
        &&& post.transfers@ == pre.transfers@.push(TokenTransfer { from: voter, amount: weight })
        &&& post.events@ == pre.events@.push(
            VaultEvent::VoteCast { proposal_id, voter, votes: isqrt(weight as nat) as u128 },
        )
    }

    /// Casts the vote of `voter` on a proposal. The voter commits `weight`
    /// governance tokens, which the vault asks the host to move into its
    /// custody, and the proposal gains `isqrt(weight)` votes.
    pub fn vote(&mut self, env: &Env, voter: Address, proposal_id: u64, weight: u128) -> (r: Result<
        (),
        ContractError,
    >)
        ensures
            match r {
                Ok(_) => Self::voted(*old(self), *env, voter, proposal_id, weight, *final(self)),
                Err(e) => {
                    &&& old(self).vote_error(*env, voter@, proposal_id, weight) == Some(e)
                    &&& *final(self) == *old(self)
                },
            },
            old(self).consistent() ==> final(self).consistent(),
            Self::keeps_executed(*old(self), *final(self)),
    {
        if !env.is_authorized(&voter) {
            return Err(ContractError::Unauthorized);
        }
        if weight == 0 {
            return Err(ContractError::ZeroWeight);
        }
        let mut proposal = match self.proposals.get(&proposal_id) {
            Some(p) => p.clone(),
            None => {
                return Err(ContractError::ProposalNotFound);
            },
        };
        if env.timestamp() > proposal.end_time {
            return Err(ContractError::VotePeriodEnded);
        }
        if proposal.executed {
            return Err(ContractError::ProposalNotActive);
        }
        match find_vote(&self.votes, proposal_id, &voter) {
            Some(i) => {
                proof {
                    lemma_position_found(self.votes@, (proposal_id, voter@), i as int);
                }
                return Err(ContractError::AlreadyVoted);
            },
            None => {
                proof {
                    lemma_position_absent(self.votes@, (proposal_id, voter@));
                }
            },
        }
        let votes = Self::sqrt(weight);
        let counted = match proposal.vote_count.checked_add(votes) {
            Some(c) => c,
            None => {
                return Err(ContractError::VoteOverflow);
            },
        };
        proposal.vote_count = counted;
        self.proposals.insert(proposal_id, proposal);
        proof {
            lemma_push_fresh(self.votes@, VoteRecord { voter, proposal_id, weight });
        }
        self.transfers.push(TokenTransfer { from: voter.clone(), amount: weight });
        self.events.push(VaultEvent::VoteCast { proposal_id, voter: voter.clone(), votes });
        self.votes.push(VoteRecord { voter, proposal_id, weight });
        Ok(())
    }

    /// `post` is `pre` after the action: exactly one parameter of the
    /// protocol has changed, the one that the action names.
    pub open spec fn action_applied(pre: Self, action: GovernanceAction, post: Self) -> bool {
        match action {
            GovernanceAction::UpdateMaxLTV(ltv) => post == (StelloVaultContract {
                max_ltv: ltv,
                ..pre
            }),
            GovernanceAction::UpdateCollateralWhitelist(asset, allowed) => {
                &&& post == (StelloVaultContract {
                    collateral_whitelist: post.collateral_whitelist,
                    ..pre
                })
                &&& as_map(post.collateral_whitelist@) == as_map(pre.collateral_whitelist@).insert(
                    asset@,
                    AssetFlag { asset, allowed },
                )
            },
            GovernanceAction::UpdateOracleWhitelist(oracle, allowed) => {
                &&& post == (StelloVaultContract { oracle_whitelist: post.oracle_whitelist, ..pre })
                &&& as_map(post.oracle_whitelist@) == as_map(pre.oracle_whitelist@).insert(
                    oracle@,
                    OracleFlag { oracle, allowed },
                )
            },
            GovernanceAction::UpgradeContract(hash) => post == (StelloVaultContract {
                code_hash: Some(hash),
                ..pre
            }),
        }
    }

    /// Applies a governance action to the parameters of the protocol: the
    /// loan-to-value limit, a flag of one of the two whitelists, or the
    /// hash of the vault's code, which the host then moves the vault to.
    pub fn apply(&mut self, action: &GovernanceAction)
        ensures
            Self::action_applied(*old(self), *action, *final(self)),
            old(self).consistent() ==> final(self).consistent(),
            Self::keeps_executed(*old(self), *final(self)),
    {
        match action {
            GovernanceAction::UpdateMaxLTV(ltv) => {
                self.max_ltv = *ltv;
            },
            GovernanceAction::UpdateCollateralWhitelist(asset, allowed) => {
                set_asset_flag(&mut self.collateral_whitelist, asset.clone(), *allowed);
            },
            GovernanceAction::UpdateOracleWhitelist(oracle, allowed) => {
                set_oracle_flag(&mut self.oracle_whitelist, oracle.clone(), *allowed);
            },
            GovernanceAction::UpgradeContract(hash) => {
                self.code_hash = Some(*hash);
            },
        }
    }

    /// Why the vault refuses to execute this proposal, if it does. The
    /// checks come in this order: the proposal, its deadline, an earlier
    /// execution, the quorum.
    pub open spec fn execute_error(&self, env: Env, proposal_id: u64) -> Option<ContractError> {
        if !self.proposals@.contains_key(proposal_id) {
            Some(ContractError::ProposalNotFound)
        } else if env.timestamp <= self.proposals@[proposal_id].end_time {
            Some(ContractError::VotePeriodActive)
        } else if self.proposals@[proposal_id].executed {
            Some(ContractError::ProposalNotActive)
        } else if self.proposals@[proposal_id].vote_count < self.quorum {
            Some(ContractError::QuorumNotMet)
        } else {
            None
        }
    }

    /// `post` is `pre` after the execution of the proposal at the time of
    /// `env`: the proposal was executable, its action has been applied, it
    /// is marked executed, and one event tells of it.
    pub open spec fn executed(pre: Self, env: Env, proposal_id: u64, post: Self) -> bool {
        &&& pre.execute_error(env, proposal_id) is None
        &&& Self::action_applied(
            pre,
            pre.proposals@[proposal_id].action,
            StelloVaultContract { proposals: pre.proposals, events: pre.events, ..post },
        )
        &&& post.proposals@ == pre.proposals@.insert(
            proposal_id,
            Proposal { executed: true, ..pre.proposals@[proposal_id] },
        )
        &&& post.events@ == pre.events@.push(VaultEvent::ProposalExecuted { proposal_id })
    }

    /// Executes a proposal whose voting has ended with the quorum met:
    /// applies its action and marks it executed, for good.
    pub fn execute_proposal(&mut self, env: &Env, proposal_id: u64) -> (r: Result<
        (),
        ContractError,
    >)
        ensures
            match r {
                Ok(_) => Self::executed(*old(self), *env, proposal_id, *final(self)),
                Err(e) => {
                    &&& old(self).execute_error(*env, proposal_id) == Some(e)
                    &&& *final(self) == *old(self)
                },
            },
            old(self).consistent() ==> final(self).consistent(),
            Self::keeps_executed(*old(self), *final(self)),
    {
        let mut proposal = match self.proposals.get(&proposal_id) {
            Some(p) => p.clone(),
            None => {
                return Err(ContractError::ProposalNotFound);
            },
        };
        if env.timestamp() <= proposal.end_time {
            return Err(ContractError::VotePeriodActive);
        }
        if proposal.executed {
            return Err(ContractError::ProposalNotActive);
        }
        if proposal.vote_count < self.quorum {
            return Err(ContractError::QuorumNotMet);
        }
        self.apply(&proposal.action);
        proposal.executed = true;
        self.proposals.insert(proposal_id, proposal);
        self.events.push(VaultEvent::ProposalExecuted { proposal_id });
        Ok(())
    }
}

/// Execution needs both: a proposal is executed only after its end time
/// and only with at least the quorum in votes, and only if it has not been
/// executed before.
pub proof fn lemma_execution_needs_deadline_and_quorum(
    vault: StelloVaultContract,
    env: Env,
    proposal_id: u64,
)
    ensures
        vault.execute_error(env, proposal_id) is None <==> {
            &&& vault.proposals@.contains_key(proposal_id)
            &&& env.timestamp > vault.proposals@[proposal_id].end_time
            &&& vault.proposals@[proposal_id].vote_count >= vault.quorum
            &&& !vault.proposals@[proposal_id].executed
        },
{
}

/// No action runs twice: once a proposal has been executed, an attempt to
/// execute it again, at that time or any later, fails with
/// `ProposalNotActive`.
pub proof fn lemma_second_execution_fails(
    pre: StelloVaultContract,
    env: Env,
    proposal_id: u64,
    post: StelloVaultContract,
    later: Env,
)
    requires
        StelloVaultContract::executed(pre, env, proposal_id, post),
        later.timestamp >= env.timestamp,
    ensures
        post.execute_error(later, proposal_id) == Some(ContractError::ProposalNotActive),
{
}

/// A voter has one vote on a proposal: after a vote has been cast, a second
/// vote of the same voter on the same proposal is refused, whatever its
/// weight, and with `AlreadyVoted` if the voter authorizes it with a
/// positive weight while the proposal is still open.
pub proof fn lemma_no_double_vote(
    pre: StelloVaultContract,
    env: Env,
    voter: Address,
    proposal_id: u64,
    weight: u128,
    post: StelloVaultContract,
    second_env: Env,
    second_weight: u128,
)
    requires
        StelloVaultContract::voted(pre, env, voter, proposal_id, weight, post),
    ensures
        post.has_voted(proposal_id, voter@),
        post.vote_error(second_env, voter@, proposal_id, second_weight) is Some,
        second_env.authorizes(voter@) && second_weight > 0 && second_env.timestamp
            <= post.proposals@[proposal_id].end_time ==> post.vote_error(
            second_env,
            voter@,
            proposal_id,
            second_weight,
        ) == Some(ContractError::AlreadyVoted),
{
}

/// Votes are counted before the deadline and never taken back: a vote is
/// accepted only up to the end time of its proposal, it raises the
/// proposal's votes by `isqrt(weight)`, which is at least 1, and it leaves
/// every other proposal as it was.
pub proof fn lemma_votes_only_accumulate(
    pre: StelloVaultContract,
    env: Env,
    voter: Address,
    proposal_id: u64,
    weight: u128,
    post: StelloVaultContract,
    other: u64,
)
    requires
        StelloVaultContract::voted(pre, env, voter, proposal_id, weight, post),
    ensures
        env.timestamp <= pre.proposals@[proposal_id].end_time,
        post.proposals@[proposal_id].vote_count == pre.proposals@[proposal_id].vote_count + isqrt(
            weight as nat,
        ),
        post.proposals@[proposal_id].vote_count > pre.proposals@[proposal_id].vote_count,
        other != proposal_id && pre.proposals@.contains_key(other) ==> post.proposals@[other]
            == pre.proposals@[other],
{
    let root = isqrt(weight as nat);
    crate::math::lemma_isqrt_exists(weight as nat);
    if root == 0 {
        assert(weight < 1) by (nonlinear_arith)
            requires
                root == 0,
                weight < (root + 1) * (root + 1),
        ;
    }
}

/// The votes of a proposal are the sum of the square roots of what was
/// committed: when votes of the weights `w1 ... wn` are cast on a proposal,
/// one after the other, the proposal ends with exactly
/// `isqrt(w1) + ... + isqrt(wn)` votes more than it began with.
pub proof fn lemma_votes_are_sum_of_roots(
    states: Seq<StelloVaultContract>,
    envs: Seq<Env>,
    voters: Seq<Address>,
    weights: Seq<u128>,
    proposal_id: u64,
)
    requires
        states.len() == weights.len() + 1,
        envs.len() == weights.len(),
        voters.len() == weights.len(),
        forall|i: int|
            0 <= i < weights.len() ==> StelloVaultContract::voted(
                #[trigger] states[i],
                envs[i],
                voters[i],
                proposal_id,
                weights[i],
                states[i + 1],
            ),
    ensures
        states.last().proposals@[proposal_id].vote_count == states[0].proposals@[proposal_id].vote_count
            + tally(weights),
        count_after_votes(states[0].proposals@[proposal_id].vote_count, weights) == Some(
            states.last().proposals@[proposal_id].vote_count,
        ),
    decreases weights.len(),
{
    if weights.len() > 0 {
        let n = weights.len() as int;
        let earlier = states.drop_last();
        assert forall|i: int| 0 <= i < n - 1 implies StelloVaultContract::voted(
            #[trigger] earlier[i],
            envs.drop_last()[i],
            voters.drop_last()[i],
            proposal_id,
            weights.drop_last()[i],
            earlier[i + 1],
        ) by {
            assert(StelloVaultContract::voted(
                states[i],
                envs[i],
                voters[i],
                proposal_id,
                weights[i],
                states[i + 1],
            ));
        }
        lemma_votes_are_sum_of_roots(
            earlier,
            envs.drop_last(),
            voters.drop_last(),
            weights.drop_last(),
            proposal_id,
        );
        assert(StelloVaultContract::voted(
            states[n - 1],
            envs[n - 1],
            voters[n - 1],
            proposal_id,
            weights[n - 1],
            states[n],
        ));
        assert(earlier.last() == states[n - 1]);
        assert(earlier[0] == states[0]);
    }
}

/// Once executed, executed for good: whatever the vault goes through after
/// a proposal has been executed, as long as every step keeps the executed
/// proposals, as every operation of a consistent vault does, an attempt to
/// execute the proposal again fails, and with `ProposalNotActive` once its
/// end time has passed.
pub proof fn lemma_executed_for_good(
    history: Seq<StelloVaultContract>,
    proposal_id: u64,
    env: Env,
)
    requires
        history.len() >= 1,
        history[0].proposals@.contains_key(proposal_id),
        history[0].proposals@[proposal_id].executed,
        forall|i: int|
            0 <= i < history.len() - 1 ==> StelloVaultContract::keeps_executed(
                #[trigger] history[i],
                history[i + 1],
            ),
    ensures
        history.last().proposals@.contains_key(proposal_id),
        history.last().proposals@[proposal_id] == history[0].proposals@[proposal_id],
        history.last().execute_error(env, proposal_id) is Some,
        env.timestamp > history[0].proposals@[proposal_id].end_time
            ==> history.last().execute_error(env, proposal_id) == Some(
            ContractError::ProposalNotActive,
        ),
    decreases history.len(),
{
    if history.len() > 1 {
        let earlier = history.drop_last();
        assert forall|i: int| 0 <= i < earlier.len() - 1 implies StelloVaultContract::keeps_executed(
            #[trigger] earlier[i],
            earlier[i + 1],
        ) by {
            assert(StelloVaultContract::keeps_executed(history[i], history[i + 1]));
        }
        lemma_executed_for_good(earlier, proposal_id, env);
        let n = history.len() as int;
        assert(StelloVaultContract::keeps_executed(history[n - 2], history[n - 1]));
        assert(earlier.last() == history[n - 2]);
        assert(earlier[0] == history[0]);
    }
}

} // verus!
