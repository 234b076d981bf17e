//! The collateral registry: the one record of every pledged collateral.
//!
//! The registry exists to prevent double financing. Each collateral is
//! registered with the hash of its off-chain metadata, and no hash is ever
//! registered twice, whoever asks. A registered collateral is locked while
//! an escrow holds it, and only the escrow manager locks and unlocks.

use crate::ledger::{digest_equal, Address, Env};
use crate::store::{
    absent, as_map, first_at, lemma_position_absent, lemma_position_found, lemma_push_fresh, Keyed,
};
use std::collections::HashMap;
use vstd::prelude::*;

verus! {

/// Why the registry refused an operation.
#[derive(Clone, Copy, Debug, PartialEq, Eq)]
pub enum ContractError {
    Unauthorized,
    AlreadyInitialized,
    InvalidAmount,
    CollateralExpired,
    CollateralNotFound,
    CollateralLocked,
    DuplicateMetadata,
}

impl ContractError {
    /// The number under which the ledger reports this error.
    pub open spec fn spec_code(self) -> u32 {
        match self {
            ContractError::Unauthorized => 1,
            ContractError::AlreadyInitialized => 2,
            ContractError::InvalidAmount => 3,
            ContractError::CollateralExpired => 4,
            ContractError::CollateralNotFound => 5,
            ContractError::CollateralLocked => 6,
            ContractError::DuplicateMetadata => 7,
        }
    }

    /// The number under which the ledger reports this error.
    pub fn code(self) -> (r: u32)
        ensures
            r == self.spec_code(),
            1 <= r <= 7,
    {
        match self {
            ContractError::Unauthorized => 1,
            ContractError::AlreadyInitialized => 2,
            ContractError::InvalidAmount => 3,
            ContractError::CollateralExpired => 4,
            ContractError::CollateralNotFound => 5,
            ContractError::CollateralLocked => 6,
            ContractError::DuplicateMetadata => 7,
        }
    }
}

/// A registered collateral.
#[derive(Debug, PartialEq, Eq)]
pub struct Collateral {
    pub id: u64,
    pub owner: Address,
    pub face_value: i128,
    /// When the collateral expires. The registry checks this at
    /// registration only; sweeping out expired collateral is somebody
    /// else's work.
    pub expiry_ts: u64,
    /// The SHA-256 hash of the off-chain metadata.
    pub metadata_hash: [u8; 32],
    pub registered_at: u64,
    pub locked: bool,
}

impl Clone for Collateral {
    fn clone(&self) -> (r: Self)
        ensures
            r == *self,
    {
        Collateral {
            id: self.id,
            owner: self.owner.clone(),
            face_value: self.face_value,
            expiry_ts: self.expiry_ts,
            metadata_hash: self.metadata_hash,
            registered_at: self.registered_at,
            locked: self.locked,
        }
    }
}

/// An entry of the metadata index: the collateral that was registered with
/// a metadata hash.
#[derive(Clone, Copy, Debug, PartialEq, Eq)]
pub struct MetadataEntry {
    pub metadata_hash: [u8; 32],
    pub collateral_id: u64,
}

impl Keyed for MetadataEntry {
    type Key = Seq<u8>;

    open spec fn key(&self) -> Seq<u8> {
        self.metadata_hash@
    }
}

/// What the registry tells the world, one event for each change of state.
#[derive(Debug, PartialEq, Eq)]
pub enum RegistryEvent {
    Initialized { admin: Address },
    Registered { id: u64, owner: Address, face_value: i128, expiry_ts: u64 },
    Locked { id: u64 },
    Unlocked { id: u64 },
}

/// The state of the collateral registry.
#[derive(Debug)]
pub struct CollateralRegistry {
    pub admin: Option<Address>,
    /// The one principal that may lock and unlock collateral.
    pub escrow_manager: Option<Address>,
    pub next_id: u64,
    pub collateral: HashMap<u64, Collateral>,
    /// Every metadata hash that was ever registered.
    pub metadata_index: Vec<MetadataEntry>,
    /// The events that the host still has to publish.
    pub events: Vec<RegistryEvent>,
}

/// The position of the entry of `metadata_hash` in the index, if it has one.
pub fn find_metadata(index: &Vec<MetadataEntry>, metadata_hash: &[u8; 32]) -> (r: Option<usize>)
    ensures
        match r {
            Some(i) => first_at(index@, metadata_hash@, i as int),
            None => absent(index@, metadata_hash@),
        },
{
    let mut i: usize = 0;
    while i < index.len()
        invariant
            i <= index.len(),
            forall|j: int| 0 <= j < i ==> (#[trigger] index@[j]).key() != metadata_hash@,
        decreases index.len() - i,
    {
        if digest_equal(&index[i].metadata_hash, metadata_hash) {
            return Some(i);
        }
        i += 1;
    }
    None
}

impl CollateralRegistry {
    /// Whether a collateral was ever registered with this metadata hash.
    pub open spec fn metadata_registered(&self, metadata_hash: Seq<u8>) -> bool {
        as_map(self.metadata_index@).contains_key(metadata_hash)
    }

    /// Every metadata hash that is registered in `pre` is registered in
    /// `post`.
    pub open spec fn keeps_hashes(pre: Self, post: Self) -> bool {
        forall|h: Seq<u8>| pre.metadata_registered(h) ==> #[trigger] post.metadata_registered(h)
    }

    /// What holds of every registry that was filled through its
    /// operations: the ids are below the next id, every collateral has a
    /// positive face value and an indexed metadata hash, and no two
    /// collaterals share a metadata hash.
    pub open spec fn consistent(&self) -> bool {
        &&& self.next_id >= 1
        &&& forall|id: u64| #[trigger]
            self.collateral@.contains_key(id) ==> {
                &&& 1 <= id < self.next_id
                &&& self.collateral@[id].id == id
                &&& self.collateral@[id].face_value > 0
                &&& self.metadata_registered(self.collateral@[id].metadata_hash@)
            }
        &&& forall|a: u64, b: u64|
            #![trigger self.collateral@.contains_key(a), self.collateral@.contains_key(b)]
            self.collateral@.contains_key(a) && self.collateral@.contains_key(b) && a != b
                ==> self.collateral@[a].metadata_hash@ != self.collateral@[b].metadata_hash@
    }

    /// A registry that nobody has initialized.
    pub fn new() -> (r: CollateralRegistry)
        ensures
            r.consistent(),
            r.admin is None,
            r.escrow_manager is None,
            r.next_id == 1,
            r.collateral@ == Map::<u64, Collateral>::empty(),
            r.metadata_index@.len() == 0,
            r.events@.len() == 0,
            forall|h: Seq<u8>| !r.metadata_registered(h),
    {
        let r = CollateralRegistry {
            admin: None,
            escrow_manager: None,
            next_id: 1,
            collateral: HashMap::new(),
            metadata_index: Vec::new(),
            events: Vec::new(),
        };
        proof {
            assert forall|h: Seq<u8>| !r.metadata_registered(h) by {
                lemma_position_absent(r.metadata_index@, h);
            }
        }
        r
    }

    /// Gives the registry its admin and starts the ids at 1. A registry is
    /// initialized once.
    pub fn initialize(&mut self, env: &Env, admin: Address) -> (r: Result<(), ContractError>)
        ensures
            r is Err <==> old(self).admin is Some,
            r is Err ==> r == Err::<(), ContractError>(ContractError::AlreadyInitialized)
                && *final(self) == *old(self),
            r is Ok ==> *final(self) == (CollateralRegistry {
                admin: Some(admin),
                next_id: 1,
                events: final(self).events,
                ..*old(self)
            }) && final(self).events@ == old(self).events@.push(
                RegistryEvent::Initialized { admin },
            ),
            old(self).consistent() && old(self).next_id == 1 ==> final(self).consistent(),
            Self::keeps_hashes(*old(self), *final(self)),
    {
        if self.admin.is_some() {
            return Err(ContractError::AlreadyInitialized);
        }
        self.events.push(RegistryEvent::Initialized { admin: admin.clone() });
        self.admin = Some(admin);
        self.next_id = 1;
        Ok(())
    }

    /// Why the registry refuses this registration, if it does. The checks
    /// come in this order: the owner's authorization, the face value, the
    /// expiry, the metadata hash.
    pub open spec fn register_error(
        &self,
        env: Env,
        owner: Seq<char>,
        face_value: i128,
        expiry_ts: u64,
        metadata_hash: Seq<u8>,
    ) -> Option<ContractError> {
        if !env.authorizes(owner) {
            Some(ContractError::Unauthorized)
        } else if face_value <= 0 {
            Some(ContractError::InvalidAmount)
        } else if expiry_ts <= env.timestamp {
            Some(ContractError::CollateralExpired)
        } else if self.metadata_registered(metadata_hash) {
            Some(ContractError::DuplicateMetadata)
        } else {
            None
        }
    }

    /// `post` is `pre` after the registration of a collateral under `id`.
    pub open spec fn registered(
        pre: Self,
        env: Env,
        owner: Address,
        face_value: i128,
        expiry_ts: u64,
        metadata_hash: [u8; 32],
        id: u64,
        post: Self,
    ) -> bool {
        &&& pre.register_error(env, owner@, face_value, expiry_ts, metadata_hash@) is None
        &&& id == pre.next_id
        &&& post == (CollateralRegistry {
            next_id: (id + 1) as u64,
            collateral: post.collateral,
            metadata_index: post.metadata_index,
            events: post.events,
            ..pre
        })
        &&& post.collateral@ == pre.collateral@.insert(
            id,
            Collateral {
                id,
                owner,
                face_value,
                expiry_ts,
                metadata_hash,
                registered_at: env.timestamp,
                locked: false,
            },
        )
        &&& post.metadata_index@ == pre.metadata_index@.push(
            MetadataEntry { metadata_hash, collateral_id: id },
        )
        &&& as_map(post.metadata_index@) == as_map(pre.metadata_index@).insert(
            metadata_hash@,
            MetadataEntry { metadata_hash, collateral_id: id },
        )
        &&& post.events@ == pre.events@.push(
            RegistryEvent::Registered { id, owner, face_value, expiry_ts },
        )
    }

    /// Registers a collateral for `owner` and returns its id, the next in
    /// sequence. The face value must be positive, the expiry strictly in
    /// the future, and the metadata hash one that was never registered.
    pub fn register_collateral(
        &mut self,
        env: &Env,
        owner: Address,
        face_value: i128,
        expiry_ts: u64,
        metadata_hash: [u8; 32],
    ) -> (r: Result<u64, ContractError>)
        requires
            old(self).next_id < u64::MAX,
        ensures
            match r {
                Ok(id) => Self::registered(
                    *old(self),
                    *env,
                    owner,
                    face_value,
                    expiry_ts,
                    metadata_hash,
                    id,
                    *final(self),
                ),
                Err(e) => {
                    &&& old(self).register_error(
                        *env,
                        owner@,
                        face_value,
                        expiry_ts,
                        metadata_hash@,
                    ) == Some(e)
                    &&& *final(self) == *old(self)
                },
            },
            old(self).consistent() ==> final(self).consistent(),
            Self::keeps_hashes(*old(self), *final(self)),
    {
        if !env.is_authorized(&owner) {
            return Err(ContractError::Unauthorized);
        }
        if face_value <= 0 {
            return Err(ContractError::InvalidAmount);
        }
        let current_ts = env.timestamp();
        if expiry_ts <= current_ts {
            return Err(ContractError::CollateralExpired);
        }
        match find_metadata(&self.metadata_index, &metadata_hash) {
            Some(i) => {
                proof {
                    lemma_position_found(self.metadata_index@, metadata_hash@, i as int);
                }
                return Err(ContractError::DuplicateMetadata);
            },
            None => {
                proof {
                    lemma_position_absent(self.metadata_index@, metadata_hash@);
                    lemma_push_fresh(
                        self.metadata_index@,
                        MetadataEntry { metadata_hash, collateral_id: self.next_id },
                    );
                }
            },
        }
        let collateral_id = self.next_id;
        self.events.push(
            RegistryEvent::Registered {
                id: collateral_id,
                owner: owner.clone(),
                face_value,
                expiry_ts,
            },
        );
        let collateral = Collateral {
            id: collateral_id,
            owner,
            face_value,
            expiry_ts,
            metadata_hash,
            registered_at: current_ts,
            locked: false,
        };
        self.collateral.insert(collateral_id, collateral);
        self.metadata_index.push(MetadataEntry { metadata_hash, collateral_id });
        self.next_id = collateral_id + 1;
        Ok(collateral_id)
    }

    /// Why the registry refuses to touch the lock of this collateral, if it
    /// does: only the escrow manager may, with its authorization, and the
    /// collateral must exist.
    pub open spec fn lock_access_error(&self, env: Env, id: u64) -> Option<ContractError> {
        if self.escrow_manager is None {
            Some(ContractError::Unauthorized)
        } else if !env.authorizes(self.escrow_manager.unwrap()@) {
            Some(ContractError::Unauthorized)
        } else if !self.collateral@.contains_key(id) {
            Some(ContractError::CollateralNotFound)
        } else {
            None
        }
    }

    /// Why the registry refuses to lock this collateral, if it does.
    pub open spec fn lock_error(&self, env: Env, id: u64) -> Option<ContractError> {
        if self.lock_access_error(env, id) is Some {
            self.lock_access_error(env, id)
        } else if self.collateral@[id].locked {
            Some(ContractError::CollateralLocked)
        } else {
            None
        }
    }

    /// The collateral `id` with its lock set to `locked`, for the escrow
    /// manager.
    fn lock_target(&self, env: &Env, id: u64) -> (r: Result<Collateral, ContractError>)
        ensures
            match r {
                Ok(c) => self.lock_access_error(*env, id) is None && c == self.collateral@[id],
                Err(e) => self.lock_access_error(*env, id) == Some(e),
            },
    {
        match &self.escrow_manager {
            None => {
                return Err(ContractError::Unauthorized);
            },
            Some(manager) => {
                if !env.is_authorized(manager) {
                    return Err(ContractError::Unauthorized);
                }
            },
        }
        match self.collateral.get(&id) {
            Some(c) => Ok(c.clone()),
            None => Err(ContractError::CollateralNotFound),
        }
    }

    /// Locks a collateral for an escrow. A locked collateral cannot be
    /// locked again.
    pub fn lock_collateral(&mut self, env: &Env, id: u64) -> (r: Result<(), ContractError>)
        ensures
            match r {
                Ok(_) => {
                    &&& old(self).lock_error(*env, id) is None
                    &&& *final(self) == (CollateralRegistry {
                        collateral: final(self).collateral,
                        events: final(self).events,
                        ..*old(self)
                    })
                    &&& final(self).collateral@ == old(self).collateral@.insert(
                        id,
                        Collateral { locked: true, ..old(self).collateral@[id] },
                    )
                    &&& final(self).events@ == old(self).events@.push(RegistryEvent::Locked { id })
                },
                Err(e) => old(self).lock_error(*env, id) == Some(e) && *final(self) == *old(self),
            },
            old(self).consistent() ==> final(self).consistent(),
            Self::keeps_hashes(*old(self), *final(self)),
    {
        let mut collateral = match self.lock_target(env, id) {
            Ok(c) => c,
            Err(e) => {
                return Err(e);
            },
        };
        if collateral.locked {
            return Err(ContractError::CollateralLocked);
        }
        collateral.locked = true;
        self.collateral.insert(id, collateral);
        self.events.push(RegistryEvent::Locked { id });
        Ok(())
    }

    /// Unlocks a collateral. Unlocking one that is not locked succeeds and
    /// changes nothing.
    pub fn unlock_collateral(&mut self, env: &Env, id: u64) -> (r: Result<(), ContractError>)
        ensures
            match r {
                Ok(_) => {
                    &&& old(self).lock_access_error(*env, id) is None
                    &&& !old(self).collateral@[id].locked ==> *final(self) == *old(self)
                    &&& old(self).collateral@[id].locked ==> {
                        &&& *final(self) == (CollateralRegistry {
                            collateral: final(self).collateral,
                            events: final(self).events,
                            ..*old(self)
                        })
                        &&& final(self).collateral@ == old(self).collateral@.insert(
                            id,
                            Collateral { locked: false, ..old(self).collateral@[id] },
                        )
                        &&& final(self).events@ == old(self).events@.push(
                            RegistryEvent::Unlocked { id },
                        )
                    }
                },
                Err(e) => {
                    &&& old(self).lock_access_error(*env, id) == Some(e)
                    &&& *final(self) == *old(self)
                },
            },
            old(self).consistent() ==> final(self).consistent(),
            Self::keeps_hashes(*old(self), *final(self)),
    {
        let mut collateral = match self.lock_target(env, id) {
            Ok(c) => c,
            Err(e) => {
                return Err(e);
            },
        };
        if !collateral.locked {
            return Ok(());
        }
        collateral.locked = false;
        self.collateral.insert(id, collateral);
        self.events.push(RegistryEvent::Unlocked { id });
        Ok(())
    }

    /// The collateral with this id, if there is one.
    pub fn get_collateral(&self, id: u64) -> (r: Option<Collateral>)
        ensures
            r == (if self.collateral@.contains_key(id) {
                Some(self.collateral@[id])
            } else {
                None
            }),
    {
        match self.collateral.get(&id) {
            Some(c) => Some(c.clone()),
            None => None,
        }
    }

    /// Whether the collateral is locked. A collateral that the registry
    /// does not know is not.
    pub fn is_locked(&self, id: u64) -> (r: bool)
        ensures
            r == (self.collateral@.contains_key(id) && self.collateral@[id].locked),
    {
        match self.collateral.get(&id) {
            Some(c) => c.locked,
            None => false,
        }
    }

    /// Whether a collateral was ever registered with this metadata hash.
    pub fn is_metadata_registered(&self, metadata_hash: &[u8; 32]) -> (r: bool)
        ensures
            r == self.metadata_registered(metadata_hash@),
    {
        match find_metadata(&self.metadata_index, metadata_hash) {
            Some(i) => {
                proof {
                    lemma_position_found(self.metadata_index@, metadata_hash@, i as int);
                }
                true
            },
            None => {
                proof {
                    lemma_position_absent(self.metadata_index@, metadata_hash@);
                }
                false
            },
        }
    }

    /// The registry's admin.
    pub fn admin(&self) -> (r: Address)
        requires
            self.admin is Some,
        ensures
            Some(r) == self.admin,
    {
        match &self.admin {
            Some(a) => a.clone(),
            None => vstd::pervasive::unreached(),
        }
    }

    /// Names the escrow manager, the one principal that may lock and unlock
    /// collateral. Only the admin may.
    pub fn set_escrow_manager(&mut self, env: &Env, escrow_manager: Address) -> (r: Result<
        (),
        ContractError,
    >)
        requires
            old(self).admin is Some,
        ensures
            r is Err <==> !env.authorizes(old(self).admin.unwrap()@),
            r is Err ==> r == Err::<(), ContractError>(ContractError::Unauthorized) && *final(self)
                == *old(self),
            r is Ok ==> *final(self) == (CollateralRegistry {
                escrow_manager: Some(escrow_manager),
                ..*old(self)
            }),
            old(self).consistent() ==> final(self).consistent(),
            Self::keeps_hashes(*old(self), *final(self)),
    {
        let authorized = match &self.admin {
            Some(admin) => env.is_authorized(admin),
            None => false,
        };
        if !authorized {
            return Err(ContractError::Unauthorized);
        }
        self.escrow_manager = Some(escrow_manager);
        Ok(())
    }
}

/// A metadata hash that is registered is refused: the registry fails every
/// registration with it, whoever the owner is and whatever the value and
/// the expiry are, and with `DuplicateMetadata` where the owner has
/// authorized the call, the face value is positive and the expiry lies in
/// the future.
pub proof fn lemma_registered_hash_is_refused(
    registry: CollateralRegistry,
    env: Env,
    owner: Seq<char>,
    face_value: i128,
    expiry_ts: u64,
    metadata_hash: Seq<u8>,
)
    requires
        registry.metadata_registered(metadata_hash),
    ensures
        registry.register_error(env, owner, face_value, expiry_ts, metadata_hash) is Some,
        env.authorizes(owner) && face_value > 0 && expiry_ts > env.timestamp
            ==> registry.register_error(env, owner, face_value, expiry_ts, metadata_hash) == Some(
            ContractError::DuplicateMetadata,
        ),
{
}

/// No metadata hash is registered twice: after a collateral has been
/// registered, a second registration with the same metadata hash fails,
/// whoever the owner is and whatever the value and the expiry are. It fails
/// with `DuplicateMetadata` where the owner has authorized the call, the
/// face value is positive and the expiry lies in the future.
pub proof fn lemma_no_double_registration(
    pre: CollateralRegistry,
    env: Env,
    owner: Address,
    face_value: i128,
    expiry_ts: u64,
    metadata_hash: [u8; 32],
    id: u64,
    post: CollateralRegistry,
    second_env: Env,
    second_owner: Seq<char>,
    second_face_value: i128,
    second_expiry_ts: u64,
)
    requires
        CollateralRegistry::registered(
            pre,
            env,
            owner,
            face_value,
            expiry_ts,
            metadata_hash,
            id,
            post,
        ),
    ensures
        post.register_error(
            second_env,
            second_owner,
            second_face_value,
            second_expiry_ts,
            metadata_hash@,
        ) is Some,
        second_env.authorizes(second_owner) && second_face_value > 0 && second_expiry_ts
            > second_env.timestamp ==> post.register_error(
            second_env,
            second_owner,
            second_face_value,
            second_expiry_ts,
            metadata_hash@,
        ) == Some(ContractError::DuplicateMetadata),
{
}

/// A metadata hash stays registered: a registration adds its hash to the
/// index and removes none.
pub proof fn lemma_registration_keeps_hashes(
    pre: CollateralRegistry,
    env: Env,
    owner: Address,
    face_value: i128,
    expiry_ts: u64,
    metadata_hash: [u8; 32],
    id: u64,
    post: CollateralRegistry,
    other: Seq<u8>,
)
    requires
        CollateralRegistry::registered(
            pre,
            env,
            owner,
            face_value,
            expiry_ts,
            metadata_hash,
            id,
            post,
        ),
    ensures
        post.metadata_registered(other) == (pre.metadata_registered(other) || other
            == metadata_hash@),
{
}

/// No id is handed out twice, and no collateral is financed twice: in a
/// consistent registry the next id names nothing yet, and two collaterals
/// with the same metadata hash are one and the same.
pub proof fn lemma_collateral_is_unique(registry: CollateralRegistry, a: u64, b: u64)
    requires
        registry.consistent(),
        registry.collateral@.contains_key(a),
        registry.collateral@.contains_key(b),
        registry.collateral@[a].metadata_hash@ == registry.collateral@[b].metadata_hash@,
    ensures
        a == b,
        !registry.collateral@.contains_key(registry.next_id),
{
}

/// Once registered, refused for good: whatever the registry goes through
/// after a metadata hash has been registered, as long as every step keeps
/// the registered hashes, as every operation of the registry does, it
/// fails every registration with that hash.
pub proof fn lemma_hash_is_refused_for_good(
    history: Seq<CollateralRegistry>,
    metadata_hash: Seq<u8>,
    env: Env,
    owner: Seq<char>,
    face_value: i128,
    expiry_ts: u64,
)
    requires
        history.len() >= 1,
        history[0].metadata_registered(metadata_hash),
        forall|i: int|
            0 <= i < history.len() - 1 ==> CollateralRegistry::keeps_hashes(
                #[trigger] history[i],
                history[i + 1],
            ),
    ensures
        history.last().metadata_registered(metadata_hash),
        history.last().register_error(env, owner, face_value, expiry_ts, metadata_hash) is Some,
        env.authorizes(owner) && face_value > 0 && expiry_ts > env.timestamp
            ==> history.last().register_error(env, owner, face_value, expiry_ts, metadata_hash)
            == Some(ContractError::DuplicateMetadata),
    decreases history.len(),
{
    if history.len() > 1 {
        let earlier = history.drop_last();
        assert forall|i: int| 0 <= i < earlier.len() - 1 implies CollateralRegistry::keeps_hashes(
            #[trigger] earlier[i],
            earlier[i + 1],
        ) by {
            assert(CollateralRegistry::keeps_hashes(history[i], history[i + 1]));
        }
        lemma_hash_is_refused_for_good(earlier, metadata_hash, env, owner, face_value, expiry_ts);
        let n = history.len() as int;
        assert(CollateralRegistry::keeps_hashes(history[n - 2], history[n - 1]));
        assert(earlier.last() == history[n - 2]);
    }
}

} // verus!
