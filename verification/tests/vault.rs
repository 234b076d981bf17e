use stellovault::collateral_registry::CollateralRegistry;
use stellovault::escrow::max_loan_amount;
use stellovault::governance::{set_asset_flag, set_oracle_flag};
use stellovault::ledger::{Address, Env};
use stellovault::vault::{
    AssetFlag, CollateralToken, ContractError, EscrowStatus, GovernanceAction, OracleFlag,
    Proposal, StelloVaultContract, TokenTransfer, TradeEscrow, VaultEvent, VoteRecord,
};

fn addr(name: &str) -> Address {
    Address::from_str(name)
}

fn env_for(timestamp: u64, who: &[&Address]) -> Env {
    let mut env = Env::new(timestamp);
    for a in who {
        env.authorize((*a).clone());
    }
    env
}

fn text(s: &str) -> String {
    s.to_string()
}

/// A vault with the asset `INVOICE` and the oracle `GORACLE` whitelisted.
fn ready_vault(env: &Env) -> StelloVaultContract {
    let mut vault = StelloVaultContract::new();
    vault.initialize(env, addr("GADMIN"), addr("CGOVTOKEN")).unwrap();
    set_asset_flag(&mut vault.collateral_whitelist, text("INVOICE"), true);
    set_oracle_flag(&mut vault.oracle_whitelist, addr("GORACLE"), true);
    vault
}

#[test]
fn lib_test_initialize() {
    let env = Env::new(0);
    let admin = addr("GADMIN");
    let mut vault = StelloVaultContract::new();

    let gov_token = addr("CGOVTOKEN");
    vault.initialize(&env, admin.clone(), gov_token).unwrap();

    let admin_result = vault.admin();
    assert_eq!(admin_result, admin);

    assert_eq!(vault.max_ltv, 7000);
}

#[test]
fn test_tokenize_collateral() {
    let admin = addr("GADMIN");
    let owner = addr("GOWNER");
    let env = env_for(0, &[&owner]);
    let mut vault = StelloVaultContract::new();

    let gov_token = addr("CGOVTOKEN");
    vault.initialize(&env, admin, gov_token).unwrap();

    // Whitelist the asset by hand.
    let asset = text("INVOICE");
    vault.collateral_whitelist.push(AssetFlag { asset: asset.clone(), allowed: true });

    let token_id = vault
        .tokenize_collateral(&env, owner.clone(), asset, 10000, text("META"), 100)
        .unwrap();

    assert_eq!(token_id, 1);

    let collateral = vault.get_collateral(token_id).unwrap();
    assert_eq!(collateral.owner, owner);
    assert_eq!(collateral.asset_value, 10000);
}

#[test]
fn test_governance_flow() {
    let admin = addr("GADMIN");
    let user1 = addr("GUSER1");
    let user2 = addr("GUSER2");
    let mut env = env_for(0, &[&user1, &user2]);
    let mut vault = StelloVaultContract::new();

    let gov_token_id = addr("CGOVTOKEN");
    vault.initialize(&env, admin, gov_token_id).unwrap();
    // The two votes below make 30 votes: the quorum is set to what they reach.
    vault.quorum = 30;

    // 1. Propose LTV change
    let new_ltv = 8000u32;
    let action = GovernanceAction::UpdateMaxLTV(new_ltv);

    let proposal_id = vault
        .propose(&env, user1.clone(), text("LTV_UP"), text("Boost_LTV"), action, 1000)
        .unwrap();

    // 2. Vote
    // User 1 votes with weight 100 -> sqrt(100) = 10 votes
    vault.vote(&env, user1.clone(), proposal_id, 100).unwrap();

    // User 2 votes with weight 400 -> sqrt(400) = 20 votes
    vault.vote(&env, user2.clone(), proposal_id, 400).unwrap();

    let proposal = vault.get_proposal(proposal_id).unwrap();
    assert_eq!(proposal.vote_count, 30);

    // 3. Execute, once the voting has ended
    env.set_timestamp(1001);
    vault.execute_proposal(&env, proposal_id).unwrap();

    // Verify LTV updated
    let current_ltv = vault.max_ltv;
    assert_eq!(current_ltv, 8000);

    let proposal_updated = vault.get_proposal(proposal_id).unwrap();
    assert!(proposal_updated.executed);
}

#[test]
fn new_vault_has_no_limit_and_the_default_quorum() {
    let vault = StelloVaultContract::new();
    assert_eq!(vault.admin, None);
    assert_eq!(vault.max_ltv, 0);
    assert_eq!(vault.quorum, 100);
    assert_eq!(vault.next_token_id, 1);
    assert_eq!(vault.next_escrow_id, 1);
    assert_eq!(vault.next_proposal_id, 1);
    assert_eq!(vault.code_hash, None);
}

#[test]
fn initialize_sets_defaults_and_happens_once() {
    let env = Env::new(5);
    let mut vault = StelloVaultContract::new();
    assert_eq!(vault.initialize(&env, addr("GADMIN"), addr("CTOKEN")), Ok(()));
    assert_eq!(vault.admin, Some(addr("GADMIN")));
    assert_eq!(vault.gov_token, Some(addr("CTOKEN")));
    assert_eq!(vault.max_ltv, 7000);
    assert_eq!(vault.quorum, 100);
    assert_eq!(vault.events, vec![VaultEvent::Initialized { admin: addr("GADMIN") }]);
    assert_eq!(
        vault.initialize(&env, addr("GOTHER"), addr("CTOKEN")),
        Err(ContractError::Unauthorized)
    );
    assert_eq!(vault.admin, Some(addr("GADMIN")));
    assert_eq!(vault.events.len(), 1);
}

#[test]
fn tokenize_errors_in_order() {
    let owner = addr("GOWNER");
    let mut vault = StelloVaultContract::new();
    assert_eq!(
        vault.tokenize_collateral(&Env::new(0), owner.clone(), text("GOLD"), 0, text("M"), 1),
        Err(ContractError::Unauthorized)
    );
    let env = env_for(0, &[&owner]);
    assert_eq!(
        vault.tokenize_collateral(&env, owner.clone(), text("GOLD"), 0, text("M"), 1),
        Err(ContractError::InvalidAmount)
    );
    assert_eq!(
        vault.tokenize_collateral(&env, owner.clone(), text("GOLD"), -5, text("M"), 1),
        Err(ContractError::InvalidAmount)
    );
    assert_eq!(
        vault.tokenize_collateral(&env, owner.clone(), text("GOLD"), 1, text("M"), 1),
        Err(ContractError::AssetNotWhitelisted)
    );
    set_asset_flag(&mut vault.collateral_whitelist, text("GOLD"), false);
    assert_eq!(
        vault.tokenize_collateral(&env, owner.clone(), text("GOLD"), 1, text("M"), 1),
        Err(ContractError::AssetNotWhitelisted)
    );
    set_asset_flag(&mut vault.collateral_whitelist, text("GOLD"), true);
    assert_eq!(
        vault.tokenize_collateral(&env, owner.clone(), text("GOLD"), 1, text("M"), 1),
        Ok(1)
    );
    assert_eq!(vault.next_token_id, 2);
    assert!(vault.tokens.len() == 1);
}

#[test]
fn tokenize_records_everything() {
    let owner = addr("GOWNER");
    let env = env_for(77, &[&owner]);
    let mut vault = ready_vault(&env);
    let id = vault
        .tokenize_collateral(&env, owner.clone(), text("INVOICE"), 123, text("HASH"), 4)
        .unwrap();
    assert_eq!(
        vault.get_collateral(id),
        Some(CollateralToken {
            owner: owner.clone(),
            asset_type: text("INVOICE"),
            asset_value: 123,
            metadata: text("HASH"),
            fractional_shares: 4,
            created_at: 77,
        })
    );
    assert_eq!(
        vault.events.last(),
        Some(&VaultEvent::Tokenized { token_id: id, owner, asset_value: 123 })
    );
    assert_eq!(vault.get_collateral(id + 1), None);
}

#[test]
fn whitelist_flags_are_set_and_reset() {
    let mut vault = StelloVaultContract::new();
    assert!(!vault.is_asset_whitelisted(&text("INVOICE")));
    set_asset_flag(&mut vault.collateral_whitelist, text("INVOICE"), true);
    set_asset_flag(&mut vault.collateral_whitelist, text("COMMODITY"), true);
    assert!(vault.is_asset_whitelisted(&text("INVOICE")));
    assert!(vault.is_asset_whitelisted(&text("COMMODITY")));
    assert!(!vault.is_asset_whitelisted(&text("invoice")));
    set_asset_flag(&mut vault.collateral_whitelist, text("INVOICE"), false);
    assert!(!vault.is_asset_whitelisted(&text("INVOICE")));
    assert!(vault.is_asset_whitelisted(&text("COMMODITY")));
    assert_eq!(vault.collateral_whitelist.len(), 2);

    assert!(!vault.is_oracle_whitelisted(&addr("GO")));
    set_oracle_flag(&mut vault.oracle_whitelist, addr("GO"), true);
    assert!(vault.is_oracle_whitelisted(&addr("GO")));
    set_oracle_flag(&mut vault.oracle_whitelist, addr("GO"), false);
    assert!(!vault.is_oracle_whitelisted(&addr("GO")));
    assert_eq!(
        vault.oracle_whitelist,
        vec![OracleFlag { oracle: addr("GO"), allowed: false }]
    );
}

#[test]
fn max_loan_amount_values() {
    assert_eq!(max_loan_amount(10000, 7000), Ok(7000));
    assert_eq!(max_loan_amount(9999, 7000), Ok(6999));
    assert_eq!(max_loan_amount(1, 9999), Ok(0));
    assert_eq!(max_loan_amount(3, 5000), Ok(1));
    assert_eq!(max_loan_amount(10000, 0), Ok(0));
    assert_eq!(max_loan_amount(0, 7000), Ok(0));
    assert_eq!(max_loan_amount(10000, 10000), Ok(10000));
    assert_eq!(max_loan_amount(-10001, 5000), Ok(-5000));
    assert_eq!(max_loan_amount(i128::MAX, 1), Ok(i128::MAX / 10000));
    assert_eq!(max_loan_amount(i128::MAX, 2), Err(ContractError::MathOverflow));
    assert_eq!(max_loan_amount(i128::MAX / 7000 + 1, 7000), Err(ContractError::MathOverflow));
    assert_eq!(
        max_loan_amount(i128::MAX / 7000, 7000),
        Ok((i128::MAX / 7000) * 7000 / 10000)
    );
}

#[test]
fn end_to_end_loan_to_value() {
    let owner = addr("GBUYER");
    let seller = addr("GSELLER");
    let oracle = addr("GORACLE");
    let env = env_for(0, &[&owner]);

    // The collateral is registered, expiring in a day.
    let mut registry = CollateralRegistry::new();
    assert_eq!(
        registry.register_collateral(&env, owner.clone(), 10000, env.timestamp() + 86400, [1u8; 32]),
        Ok(1)
    );

    // Its asset type is whitelisted, and the limit is 70%.
    let mut vault = ready_vault(&env);
    assert_eq!(vault.max_ltv, 7000);

    let token = vault
        .tokenize_collateral(&env, owner.clone(), text("INVOICE"), 10000, text("META"), 1)
        .unwrap();
    assert_eq!(token, 1);

    assert_eq!(
        vault.create_escrow(
            &env,
            owner.clone(),
            seller.clone(),
            token,
            7000,
            oracle.clone(),
            text("SHIPMENT_DELIVERED"),
        ),
        Ok(1)
    );
    assert_eq!(
        vault.create_escrow(
            &env,
            owner.clone(),
            seller.clone(),
            token,
            7001,
            oracle.clone(),
            text("SHIPMENT_DELIVERED"),
        ),
        Err(ContractError::LtvExceeded)
    );
    assert_eq!(vault.next_escrow_id, 2);
    assert_eq!(
        vault.get_escrow(1),
        Some(TradeEscrow {
            buyer: owner,
            seller,
            collateral_token_id: 1,
            amount: 7000,
            status: EscrowStatus::Pending,
            oracle_address: oracle,
            release_conditions: text("SHIPMENT_DELIVERED"),
            created_at: 0,
        })
    );
    // The collateral token is still what it was.
    assert_eq!(vault.get_collateral(1).unwrap().asset_value, 10000);
}

#[test]
fn create_escrow_errors_in_order() {
    let buyer = addr("GBUYER");
    let seller = addr("GSELLER");
    let oracle = addr("GORACLE");
    let stranger = addr("GSTRANGER");
    let env = env_for(0, &[&buyer]);
    let mut vault = ready_vault(&env);
    vault
        .tokenize_collateral(&env, buyer.clone(), text("INVOICE"), 1000, text("M"), 1)
        .unwrap();

    assert_eq!(
        vault.create_escrow(
            &Env::new(0),
            buyer.clone(),
            seller.clone(),
            9,
            0,
            stranger.clone(),
            text("X"),
        ),
        Err(ContractError::Unauthorized)
    );
    assert_eq!(
        vault.create_escrow(&env, buyer.clone(), seller.clone(), 9, 0, stranger.clone(), text("X")),
        Err(ContractError::InvalidAmount)
    );
    assert_eq!(
        vault.create_escrow(&env, buyer.clone(), seller.clone(), 9, 1, stranger.clone(), text("X")),
        Err(ContractError::OracleNotWhitelisted)
    );
    assert_eq!(
        vault.create_escrow(&env, buyer.clone(), seller.clone(), 9, 1, oracle.clone(), text("X")),
        Err(ContractError::CollateralNotFound)
    );
    assert_eq!(
        vault.create_escrow(&env, buyer.clone(), seller.clone(), 1, 701, oracle.clone(), text("X")),
        Err(ContractError::LtvExceeded)
    );
    vault.max_ltv = u32::MAX;
    vault.tokens.insert(
        2,
        CollateralToken {
            owner: buyer.clone(),
            asset_type: text("INVOICE"),
            asset_value: i128::MAX,
            metadata: text("M"),
            fractional_shares: 1,
            created_at: 0,
        },
    );
    assert_eq!(
        vault.create_escrow(&env, buyer.clone(), seller.clone(), 2, 1, oracle.clone(), text("X")),
        Err(ContractError::MathOverflow)
    );
    assert!(vault.escrows.is_empty());
    assert_eq!(vault.next_escrow_id, 1);
}

#[test]
fn escrow_moves_forward_only() {
    let buyer = addr("GBUYER");
    let oracle = addr("GORACLE");
    let env = env_for(3, &[&buyer]);
    let by_oracle = env_for(4, &[&oracle]);
    let mut vault = ready_vault(&env);
    vault
        .tokenize_collateral(&env, buyer.clone(), text("INVOICE"), 1000, text("M"), 1)
        .unwrap();
    let id = vault
        .create_escrow(&env, buyer.clone(), addr("GSELLER"), 1, 700, oracle.clone(), text("X"))
        .unwrap();

    assert_eq!(vault.activate_escrow(99), Err(ContractError::EscrowNotFound));
    assert_eq!(vault.release_escrow(&by_oracle, 99), Err(ContractError::EscrowNotFound));

    // A pending escrow cannot be released, not even by its oracle.
    assert_eq!(vault.release_escrow(&by_oracle, id), Err(ContractError::EscrowAlreadyReleased));
    assert_eq!(vault.get_escrow(id).unwrap().status, EscrowStatus::Pending);

    assert_eq!(vault.activate_escrow(id), Ok(()));
    assert_eq!(vault.get_escrow(id).unwrap().status, EscrowStatus::Active);
    assert_eq!(vault.events.last(), Some(&VaultEvent::EscrowActivated { escrow_id: id }));
    assert_eq!(vault.activate_escrow(id), Err(ContractError::Unauthorized));

    // Only the bound oracle releases.
    assert_eq!(vault.release_escrow(&env, id), Err(ContractError::Unauthorized));
    assert_eq!(vault.get_escrow(id).unwrap().status, EscrowStatus::Active);
    assert_eq!(vault.release_escrow(&by_oracle, id), Ok(()));
    assert_eq!(vault.get_escrow(id).unwrap().status, EscrowStatus::Released);
    assert_eq!(vault.events.last(), Some(&VaultEvent::EscrowReleased { escrow_id: id }));

    assert_eq!(vault.release_escrow(&by_oracle, id), Err(ContractError::EscrowAlreadyReleased));
    assert_eq!(vault.activate_escrow(id), Err(ContractError::Unauthorized));
    assert_eq!(vault.get_escrow(id).unwrap().status, EscrowStatus::Released);
    assert_eq!(vault.get_escrow(id).unwrap().amount, 700);
}

#[test]
fn cancelled_escrow_is_neither_activated_nor_released() {
    let oracle = addr("GORACLE");
    let by_oracle = env_for(0, &[&oracle]);
    let mut vault = StelloVaultContract::new();
    vault.escrows.insert(
        1,
        TradeEscrow {
            buyer: addr("GB"),
            seller: addr("GS"),
            collateral_token_id: 1,
            amount: 1,
            status: EscrowStatus::Cancelled,
            oracle_address: oracle,
            release_conditions: text("X"),
            created_at: 0,
        },
    );
    assert_eq!(vault.activate_escrow(1), Err(ContractError::Unauthorized));
    assert_eq!(vault.release_escrow(&by_oracle, 1), Err(ContractError::EscrowAlreadyReleased));
}

#[test]
fn sqrt_values() {
    assert_eq!(StelloVaultContract::sqrt(0), 0);
    assert_eq!(StelloVaultContract::sqrt(1), 1);
    assert_eq!(StelloVaultContract::sqrt(2), 1);
    assert_eq!(StelloVaultContract::sqrt(3), 1);
    assert_eq!(StelloVaultContract::sqrt(4), 2);
    assert_eq!(StelloVaultContract::sqrt(8), 2);
    assert_eq!(StelloVaultContract::sqrt(9), 3);
    assert_eq!(StelloVaultContract::sqrt(99), 9);
    assert_eq!(StelloVaultContract::sqrt(100), 10);
    assert_eq!(StelloVaultContract::sqrt(400), 20);
    assert_eq!(StelloVaultContract::sqrt(10000), 100);
    assert_eq!(StelloVaultContract::sqrt(1 << 64), 1 << 32);
    assert_eq!(StelloVaultContract::sqrt((1 << 64) - 1), (1 << 32) - 1);
    assert_eq!(StelloVaultContract::sqrt(u128::MAX), u64::MAX as u128);
    assert_eq!(StelloVaultContract::sqrt(u128::MAX - 1), u64::MAX as u128);
}

#[test]
fn sqrt_is_the_floor_of_the_root() {
    for n in 0u128..5000 {
        let r = StelloVaultContract::sqrt(n);
        assert!(r * r <= n);
        assert!((r + 1) * (r + 1) > n);
    }
}

#[test]
fn propose_records_everything() {
    let proposer = addr("GPROPOSER");
    let env = env_for(50, &[&proposer]);
    let mut vault = StelloVaultContract::new();
    assert_eq!(
        vault.propose(
            &Env::new(50),
            proposer.clone(),
            text("T"),
            text("D"),
            GovernanceAction::UpdateMaxLTV(1),
            10,
        ),
        Err(ContractError::Unauthorized)
    );
    let action = GovernanceAction::UpdateCollateralWhitelist(text("INVOICE"), true);
    let id = vault
        .propose(&env, proposer.clone(), text("T"), text("D"), action.clone(), 10)
        .unwrap();
    assert_eq!(id, 1);
    assert_eq!(
        vault.get_proposal(1),
        Some(Proposal {
            id: 1,
            proposer: proposer.clone(),
            title: text("T"),
            desc: text("D"),
            action,
            vote_count: 0,
            end_time: 60,
            executed: false,
        })
    );
    assert_eq!(
        vault.events,
        vec![VaultEvent::ProposalCreated { proposal_id: 1, proposer, end_time: 60 }]
    );
    assert_eq!(vault.next_proposal_id, 2);
    assert_eq!(vault.get_proposal(2), None);
}

#[test]
fn vote_errors_in_order() {
    let voter = addr("GVOTER");
    let mut env = env_for(0, &[&voter]);
    let mut vault = StelloVaultContract::new();
    let id = vault
        .propose(&env, voter.clone(), text("T"), text("D"), GovernanceAction::UpdateMaxLTV(1), 10)
        .unwrap();

    assert_eq!(vault.vote(&Env::new(0), voter.clone(), 7, 0), Err(ContractError::Unauthorized));
    assert_eq!(vault.vote(&env, voter.clone(), 7, 0), Err(ContractError::ZeroWeight));
    assert_eq!(vault.vote(&env, voter.clone(), 7, 1), Err(ContractError::ProposalNotFound));
    env.set_timestamp(11);
    assert_eq!(vault.vote(&env, voter.clone(), id, 1), Err(ContractError::VotePeriodEnded));
    // The deadline itself is still in time.
    env.set_timestamp(10);
    assert_eq!(vault.vote(&env, voter.clone(), id, 16), Ok(()));
    assert_eq!(vault.vote(&env, voter.clone(), id, 16), Err(ContractError::AlreadyVoted));
    assert_eq!(vault.get_proposal(id).unwrap().vote_count, 4);
    assert_eq!(vault.votes, vec![VoteRecord { voter: voter.clone(), proposal_id: id, weight: 16 }]);
    assert_eq!(vault.transfers, vec![TokenTransfer { from: voter.clone(), amount: 16 }]);
    assert_eq!(
        vault.events.last(),
        Some(&VaultEvent::VoteCast { proposal_id: id, voter, votes: 4 })
    );
}

#[test]
fn vote_on_an_executed_proposal_is_refused() {
    let voter = addr("GVOTER");
    let env = env_for(0, &[&voter]);
    let mut vault = StelloVaultContract::new();
    vault.proposals.insert(
        1,
        Proposal {
            id: 1,
            proposer: voter.clone(),
            title: text("T"),
            desc: text("D"),
            action: GovernanceAction::UpdateMaxLTV(1),
            vote_count: 0,
            end_time: 100,
            executed: true,
        },
    );
    assert_eq!(vault.vote(&env, voter, 1, 9), Err(ContractError::ProposalNotActive));
}

#[test]
fn vote_overflow_is_refused() {
    let voter = addr("GVOTER");
    let env = env_for(0, &[&voter]);
    let mut vault = StelloVaultContract::new();
    vault.proposals.insert(
        1,
        Proposal {
            id: 1,
            proposer: voter.clone(),
            title: text("T"),
            desc: text("D"),
            action: GovernanceAction::UpdateMaxLTV(1),
            vote_count: u128::MAX - 2,
            end_time: 100,
            executed: false,
        },
    );
    assert_eq!(vault.vote(&env, voter.clone(), 1, 9), Err(ContractError::VoteOverflow));
    assert!(vault.votes.is_empty());
    assert!(vault.transfers.is_empty());
    assert_eq!(vault.vote(&env, voter, 1, 4), Ok(()));
    assert_eq!(vault.get_proposal(1).unwrap().vote_count, u128::MAX);
}

#[test]
fn one_voter_votes_on_two_proposals() {
    let voter = addr("GVOTER");
    let env = env_for(0, &[&voter]);
    let mut vault = StelloVaultContract::new();
    let a = vault
        .propose(&env, voter.clone(), text("A"), text("D"), GovernanceAction::UpdateMaxLTV(1), 10)
        .unwrap();
    let b = vault
        .propose(&env, voter.clone(), text("B"), text("D"), GovernanceAction::UpdateMaxLTV(2), 10)
        .unwrap();
    assert_eq!((a, b), (1, 2));
    assert_eq!(vault.vote(&env, voter.clone(), a, 25), Ok(()));
    assert_eq!(vault.vote(&env, voter.clone(), b, 36), Ok(()));
    assert_eq!(vault.get_proposal(a).unwrap().vote_count, 5);
    assert_eq!(vault.get_proposal(b).unwrap().vote_count, 6);
}

#[test]
fn execute_errors_in_order_and_only_once() {
    let voter = addr("GVOTER");
    let mut env = env_for(0, &[&voter]);
    let mut vault = StelloVaultContract::new();
    vault.initialize(&env, addr("GADMIN"), addr("CTOKEN")).unwrap();
    let id = vault
        .propose(
            &env,
            voter.clone(),
            text("T"),
            text("D"),
            GovernanceAction::UpdateMaxLTV(8000),
            1000,
        )
        .unwrap();

    assert_eq!(vault.execute_proposal(&env, 9), Err(ContractError::ProposalNotFound));
    assert_eq!(vault.execute_proposal(&env, id), Err(ContractError::VotePeriodActive));
    env.set_timestamp(1000);
    assert_eq!(vault.execute_proposal(&env, id), Err(ContractError::VotePeriodActive));
    vault.vote(&env, voter.clone(), id, 9800).unwrap();
    assert_eq!(vault.get_proposal(id).unwrap().vote_count, 98);
    env.set_timestamp(1001);
    assert_eq!(vault.execute_proposal(&env, id), Err(ContractError::QuorumNotMet));
    assert_eq!(vault.max_ltv, 7000);

    vault.quorum = 98;
    assert_eq!(vault.execute_proposal(&env, id), Ok(()));
    assert_eq!(vault.max_ltv, 8000);
    assert!(vault.get_proposal(id).unwrap().executed);
    assert_eq!(vault.events.last(), Some(&VaultEvent::ProposalExecuted { proposal_id: id }));

    vault.max_ltv = 1;
    assert_eq!(vault.execute_proposal(&env, id), Err(ContractError::ProposalNotActive));
    env.set_timestamp(u64::MAX);
    assert_eq!(vault.execute_proposal(&env, id), Err(ContractError::ProposalNotActive));
    assert_eq!(vault.max_ltv, 1);
}

#[test]
fn quorum_of_exactly_one_hundred_votes() {
    let voter = addr("GVOTER");
    let mut env = env_for(0, &[&voter]);
    let mut vault = ready_vault(&env);
    let id = vault
        .propose(
            &env,
            voter.clone(),
            text("T"),
            text("D"),
            GovernanceAction::UpdateCollateralWhitelist(text("COMMODITY"), true),
            5,
        )
        .unwrap();
    vault.vote(&env, voter.clone(), id, 10000).unwrap();
    env.set_timestamp(6);
    assert!(!vault.is_asset_whitelisted(&text("COMMODITY")));
    assert_eq!(vault.execute_proposal(&env, id), Ok(()));
    assert!(vault.is_asset_whitelisted(&text("COMMODITY")));
    assert!(vault.is_asset_whitelisted(&text("INVOICE")));
}

#[test]
fn apply_each_action() {
    let mut vault = StelloVaultContract::new();
    vault.apply(&GovernanceAction::UpdateMaxLTV(1234));
    assert_eq!(vault.max_ltv, 1234);
    vault.apply(&GovernanceAction::UpdateCollateralWhitelist(text("A"), true));
    assert!(vault.is_asset_whitelisted(&text("A")));
    vault.apply(&GovernanceAction::UpdateCollateralWhitelist(text("A"), false));
    assert!(!vault.is_asset_whitelisted(&text("A")));
    vault.apply(&GovernanceAction::UpdateOracleWhitelist(addr("GO"), true));
    assert!(vault.is_oracle_whitelisted(&addr("GO")));
    assert_eq!(vault.code_hash, None);
    vault.apply(&GovernanceAction::UpgradeContract([8u8; 32]));
    assert_eq!(vault.code_hash, Some([8u8; 32]));
    assert_eq!(vault.max_ltv, 1234);
    assert!(vault.events.is_empty());
}

#[test]
fn vault_error_codes() {
    assert_eq!(ContractError::Unauthorized.code(), 1);
    assert_eq!(ContractError::InsufficientBalance.code(), 2);
    assert_eq!(ContractError::InvalidAmount.code(), 3);
    assert_eq!(ContractError::EscrowNotFound.code(), 4);
    assert_eq!(ContractError::EscrowAlreadyReleased.code(), 5);
    assert_eq!(ContractError::ProposalNotFound.code(), 6);
    assert_eq!(ContractError::ProposalNotActive.code(), 7);
    assert_eq!(ContractError::AlreadyVoted.code(), 8);
    assert_eq!(ContractError::VotePeriodEnded.code(), 9);
    assert_eq!(ContractError::ZeroWeight.code(), 10);
    assert_eq!(ContractError::AssetNotWhitelisted.code(), 11);
    assert_eq!(ContractError::OracleNotWhitelisted.code(), 12);
    assert_eq!(ContractError::LtvExceeded.code(), 13);
    assert_eq!(ContractError::CollateralNotFound.code(), 14);
    assert_eq!(ContractError::MathOverflow.code(), 15);
    assert_eq!(ContractError::VoteOverflow.code(), 16);
    assert_eq!(ContractError::VotePeriodActive.code(), 17);
    assert_eq!(ContractError::QuorumNotMet.code(), 18);
}
