use stellovault::collateral_registry::{
    Collateral, CollateralRegistry, ContractError, MetadataEntry, RegistryEvent,
};
use stellovault::ledger::{Address, Env};

fn addr(name: &str) -> Address {
    Address::from_str(name)
}

fn env_for(timestamp: u64, who: &[&Address]) -> Env {
    let mut env = Env::new(timestamp);
    for a in who {
        env.authorize((*a).clone());
    }
    env
}

#[test]
fn test_initialize() {
    let env = Env::new(0);
    let admin = addr("GADMIN");
    let mut registry = CollateralRegistry::new();

    let result = registry.initialize(&env, admin.clone());
    assert!(result.is_ok());

    let admin_result = registry.admin();
    assert_eq!(admin_result, admin);
}

#[test]
fn test_register_collateral_success() {
    let admin = addr("GADMIN");
    let owner = addr("GOWNER");
    let env = env_for(0, &[&owner]);
    let mut registry = CollateralRegistry::new();
    registry.initialize(&env, admin).unwrap();

    let future_ts = env.timestamp() + 86400;
    let metadata_hash = [1u8; 32];

    let result = registry.register_collateral(&env, owner.clone(), 1000, future_ts, metadata_hash);

    assert!(result.is_ok());
    let collateral_id = result.unwrap();
    assert_eq!(collateral_id, 1);

    let collateral = registry.get_collateral(collateral_id).unwrap();
    assert_eq!(collateral.owner, owner);
    assert_eq!(collateral.face_value, 1000);
    assert_eq!(collateral.locked, false);
}

#[test]
fn test_register_collateral_invalid_amount() {
    let admin = addr("GADMIN");
    let owner = addr("GOWNER");
    let env = env_for(0, &[&owner]);
    let mut registry = CollateralRegistry::new();
    registry.initialize(&env, admin).unwrap();

    let future_ts = env.timestamp() + 86400;
    let metadata_hash = [1u8; 32];

    let result = registry.register_collateral(&env, owner, 0, future_ts, metadata_hash);

    assert_eq!(result, Err(ContractError::InvalidAmount));
}

#[test]
fn test_register_collateral_expired() {
    let admin = addr("GADMIN");
    let owner = addr("GOWNER");
    // The ledger's clock stands at 1000 so that there is a moment before now.
    let env = env_for(1000, &[&owner]);
    let mut registry = CollateralRegistry::new();
    registry.initialize(&env, admin).unwrap();

    let past_ts = env.timestamp() - 1;
    let metadata_hash = [1u8; 32];

    let result = registry.register_collateral(&env, owner, 1000, past_ts, metadata_hash);

    assert_eq!(result, Err(ContractError::CollateralExpired));
}

#[test]
fn test_register_collateral_duplicate_metadata() {
    let admin = addr("GADMIN");
    let owner1 = addr("GOWNER1");
    let owner2 = addr("GOWNER2");
    let env = env_for(0, &[&owner1, &owner2]);
    let mut registry = CollateralRegistry::new();
    registry.initialize(&env, admin).unwrap();

    let future_ts = env.timestamp() + 86400;
    let metadata_hash = [1u8; 32];

    registry.register_collateral(&env, owner1, 1000, future_ts, metadata_hash).unwrap();

    let result = registry.register_collateral(&env, owner2, 2000, future_ts, metadata_hash);

    assert_eq!(result, Err(ContractError::DuplicateMetadata));
}

#[test]
fn test_lock_unlock_collateral() {
    let admin = addr("GADMIN");
    let escrow_manager = addr("CESCROWMGR");
    let owner = addr("GOWNER");
    let env = env_for(0, &[&admin, &escrow_manager, &owner]);
    let mut registry = CollateralRegistry::new();
    registry.initialize(&env, admin.clone()).unwrap();
    registry.set_escrow_manager(&env, escrow_manager.clone()).unwrap();

    let future_ts = env.timestamp() + 86400;
    let metadata_hash = [1u8; 32];
    let collateral_id =
        registry.register_collateral(&env, owner, 1000, future_ts, metadata_hash).unwrap();

    let lock_result = registry.lock_collateral(&env, collateral_id);
    assert!(lock_result.is_ok());
    assert!(registry.is_locked(collateral_id));

    let unlock_result = registry.unlock_collateral(&env, collateral_id);
    assert!(unlock_result.is_ok());
    assert!(!registry.is_locked(collateral_id));
}

#[test]
fn test_lock_collateral_not_found() {
    let admin = addr("GADMIN");
    let escrow_manager = addr("CESCROWMGR");
    let env = env_for(0, &[&admin, &escrow_manager]);
    let mut registry = CollateralRegistry::new();
    registry.initialize(&env, admin).unwrap();
    registry.set_escrow_manager(&env, escrow_manager).unwrap();

    let result = registry.lock_collateral(&env, 999);
    assert_eq!(result, Err(ContractError::CollateralNotFound));
}

#[test]
fn test_lock_collateral_unauthorized() {
    let admin = addr("GADMIN");
    let owner = addr("GOWNER");
    let env = env_for(0, &[&owner]);
    let mut registry = CollateralRegistry::new();
    registry.initialize(&env, admin).unwrap();

    let future_ts = env.timestamp() + 86400;
    let metadata_hash = [1u8; 32];
    let collateral_id =
        registry.register_collateral(&env, owner, 1000, future_ts, metadata_hash).unwrap();

    // No escrow manager is set.
    let result = registry.lock_collateral(&env, collateral_id);
    assert_eq!(result, Err(ContractError::Unauthorized));
}

#[test]
fn registry_initialize_twice_is_refused() {
    let env = Env::new(0);
    let mut registry = CollateralRegistry::new();
    registry.initialize(&env, addr("GADMIN")).unwrap();
    let before_events = registry.events.len();
    assert_eq!(
        registry.initialize(&env, addr("GOTHER")),
        Err(ContractError::AlreadyInitialized)
    );
    assert_eq!(registry.admin(), addr("GADMIN"));
    assert_eq!(registry.events.len(), before_events);
}

#[test]
fn register_without_authorization_is_refused_first() {
    let owner = addr("GOWNER");
    let env = Env::new(10);
    let mut registry = CollateralRegistry::new();
    // Every other check would fail too: the authorization is looked at first.
    assert_eq!(
        registry.register_collateral(&env, owner, 0, 0, [7u8; 32]),
        Err(ContractError::Unauthorized)
    );
    assert_eq!(registry.next_id, 1);
    assert!(registry.events.is_empty());
}

#[test]
fn register_checks_amount_before_expiry_before_hash() {
    let owner = addr("GOWNER");
    let env = env_for(100, &[&owner]);
    let mut registry = CollateralRegistry::new();
    registry.register_collateral(&env, owner.clone(), 5, 101, [9u8; 32]).unwrap();
    assert_eq!(
        registry.register_collateral(&env, owner.clone(), -1, 100, [9u8; 32]),
        Err(ContractError::InvalidAmount)
    );
    assert_eq!(
        registry.register_collateral(&env, owner.clone(), 1, 100, [9u8; 32]),
        Err(ContractError::CollateralExpired)
    );
    assert_eq!(
        registry.register_collateral(&env, owner, 1, 101, [9u8; 32]),
        Err(ContractError::DuplicateMetadata)
    );
}

#[test]
fn expiry_must_be_strictly_in_the_future() {
    let owner = addr("GOWNER");
    let env = env_for(500, &[&owner]);
    let mut registry = CollateralRegistry::new();
    assert_eq!(
        registry.register_collateral(&env, owner.clone(), 1, 500, [1u8; 32]),
        Err(ContractError::CollateralExpired)
    );
    assert_eq!(registry.register_collateral(&env, owner, 1, 501, [1u8; 32]), Ok(1));
}

#[test]
fn registration_records_everything() {
    let owner = addr("GOWNER");
    let env = env_for(42, &[&owner]);
    let mut registry = CollateralRegistry::new();
    let mut hash = [0u8; 32];
    hash[31] = 5;
    assert_eq!(registry.register_collateral(&env, owner.clone(), 77, 43, hash), Ok(1));
    assert_eq!(
        registry.get_collateral(1),
        Some(Collateral {
            id: 1,
            owner: owner.clone(),
            face_value: 77,
            expiry_ts: 43,
            metadata_hash: hash,
            registered_at: 42,
            locked: false,
        })
    );
    assert_eq!(registry.next_id, 2);
    assert_eq!(
        registry.metadata_index,
        vec![MetadataEntry { metadata_hash: hash, collateral_id: 1 }]
    );
    assert_eq!(
        registry.events,
        vec![RegistryEvent::Registered { id: 1, owner, face_value: 77, expiry_ts: 43 }]
    );
    assert!(registry.is_metadata_registered(&hash));
    assert!(!registry.is_metadata_registered(&[0u8; 32]));
    assert_eq!(registry.get_collateral(2), None);
}

#[test]
fn ids_are_sequential() {
    let owner = addr("GOWNER");
    let env = env_for(0, &[&owner]);
    let mut registry = CollateralRegistry::new();
    for i in 1u8..=5 {
        assert_eq!(
            registry.register_collateral(&env, owner.clone(), 10, 1, [i; 32]),
            Ok(i as u64)
        );
    }
}

#[test]
fn hashes_that_differ_in_one_byte_are_different() {
    let owner = addr("GOWNER");
    let env = env_for(0, &[&owner]);
    let mut registry = CollateralRegistry::new();
    let mut a = [3u8; 32];
    let mut b = [3u8; 32];
    a[0] = 1;
    b[31] = 1;
    assert_eq!(registry.register_collateral(&env, owner.clone(), 10, 1, a), Ok(1));
    assert_eq!(registry.register_collateral(&env, owner.clone(), 10, 1, b), Ok(2));
    assert_eq!(
        registry.register_collateral(&env, owner, 10, 1, a),
        Err(ContractError::DuplicateMetadata)
    );
}

#[test]
fn locking_twice_is_refused_and_unlocking_twice_is_not() {
    let admin = addr("GADMIN");
    let manager = addr("CMANAGER");
    let owner = addr("GOWNER");
    let env = env_for(0, &[&admin, &manager, &owner]);
    let mut registry = CollateralRegistry::new();
    registry.initialize(&env, admin).unwrap();
    registry.set_escrow_manager(&env, manager).unwrap();
    let id = registry.register_collateral(&env, owner, 10, 1, [1u8; 32]).unwrap();

    assert_eq!(registry.lock_collateral(&env, id), Ok(()));
    assert_eq!(registry.lock_collateral(&env, id), Err(ContractError::CollateralLocked));
    assert_eq!(registry.unlock_collateral(&env, id), Ok(()));
    let events = registry.events.len();
    assert_eq!(registry.unlock_collateral(&env, id), Ok(()));
    assert_eq!(registry.events.len(), events);
    assert!(!registry.is_locked(id));
    assert_eq!(registry.events.last(), Some(&RegistryEvent::Unlocked { id }));
}

#[test]
fn only_the_authorized_escrow_manager_locks() {
    let admin = addr("GADMIN");
    let manager = addr("CMANAGER");
    let owner = addr("GOWNER");
    let setup = env_for(0, &[&admin, &owner]);
    let mut registry = CollateralRegistry::new();
    registry.initialize(&setup, admin).unwrap();
    registry.set_escrow_manager(&setup, manager.clone()).unwrap();
    let id = registry.register_collateral(&setup, owner.clone(), 10, 1, [1u8; 32]).unwrap();

    // The owner has authorized the call, the manager has not.
    assert_eq!(registry.lock_collateral(&setup, id), Err(ContractError::Unauthorized));
    assert_eq!(registry.unlock_collateral(&setup, id), Err(ContractError::Unauthorized));
    assert!(!registry.is_locked(id));

    let by_manager = env_for(0, &[&manager]);
    assert_eq!(registry.lock_collateral(&by_manager, id), Ok(()));
    assert!(registry.is_locked(id));
    assert_eq!(registry.unlock_collateral(&by_manager, 999), Err(ContractError::CollateralNotFound));
}

#[test]
fn set_escrow_manager_needs_the_admin() {
    let admin = addr("GADMIN");
    let other = addr("GOTHER");
    let mut registry = CollateralRegistry::new();
    registry.initialize(&Env::new(0), admin.clone()).unwrap();
    assert_eq!(
        registry.set_escrow_manager(&env_for(0, &[&other]), other.clone()),
        Err(ContractError::Unauthorized)
    );
    assert_eq!(registry.escrow_manager, None);
    assert_eq!(registry.set_escrow_manager(&env_for(0, &[&admin]), other.clone()), Ok(()));
    assert_eq!(registry.escrow_manager, Some(other));
}

#[test]
fn is_locked_is_false_for_unknown_collateral() {
    let registry = CollateralRegistry::new();
    assert!(!registry.is_locked(1));
    assert_eq!(registry.get_collateral(1), None);
}

#[test]
fn registry_error_codes() {
    assert_eq!(ContractError::Unauthorized.code(), 1);
    assert_eq!(ContractError::AlreadyInitialized.code(), 2);
    assert_eq!(ContractError::InvalidAmount.code(), 3);
    assert_eq!(ContractError::CollateralExpired.code(), 4);
    assert_eq!(ContractError::CollateralNotFound.code(), 5);
    assert_eq!(ContractError::CollateralLocked.code(), 6);
    assert_eq!(ContractError::DuplicateMetadata.code(), 7);
}
