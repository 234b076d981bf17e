//! The oracle adapter: the registry of trusted oracles and the ledger of
//! what they confirmed.
//!
//! An oracle confirms an event of an escrow at most once. The adapter keeps
//! each confirmation under the pair of escrow and oracle, and keeps for
//! each escrow the list of the oracles that confirmed. Before it accepts a
//! confirmation it consults both, so that a fault in one of the two does
//! not let a confirmation through twice. Consensus is a count: the
//! confirmations of an escrow that are verified and come from an oracle
//! that the caller accepts.
//!
//! An adapter that has not been initialized answers `EscrowNotFound` to
//! everything but its initialization.

use crate::crypto::{sha256, sha256_digest, MAX_MESSAGE_LEN};
use crate::ledger::{
    bytes_equal, contains_address, copy_bytes, lemma_push_listed, listed, Address, Env,
};
use crate::store::{
    absent, first_at, lemma_position_absent, lemma_position_found, lemma_position_some,
    lemma_push_positions, lemma_update_positions, position, Keyed,
};
use vstd::prelude::*;

verus! {

/// Why the adapter refused an operation.
#[derive(Clone, Copy, Debug, PartialEq, Eq)]
pub enum ContractError {
    Unauthorized,
    AlreadyInitialized,
    OracleNotRegistered,
    OracleAlreadyRegistered,
    InvalidSignature,
    ConfirmationAlreadyExists,
    EscrowNotFound,
    InvalidEventType,
    ConsensusNotMet,
}

impl ContractError {
    /// The number under which the ledger reports this error.
    pub open spec fn spec_code(self) -> u32 {
        match self {
            ContractError::Unauthorized => 1,
            ContractError::AlreadyInitialized => 2,
            ContractError::OracleNotRegistered => 3,
            ContractError::OracleAlreadyRegistered => 4,
            ContractError::InvalidSignature => 5,
            ContractError::ConfirmationAlreadyExists => 6,
            ContractError::EscrowNotFound => 7,
            ContractError::InvalidEventType => 8,
            ContractError::ConsensusNotMet => 9,
        }
    }

    /// The number under which the ledger reports this error.
    pub fn code(self) -> (r: u32)
        ensures
            r == self.spec_code(),
            1 <= r <= 9,
    {
        match self {
            ContractError::Unauthorized => 1,
            ContractError::AlreadyInitialized => 2,
            ContractError::OracleNotRegistered => 3,
            ContractError::OracleAlreadyRegistered => 4,
            ContractError::InvalidSignature => 5,
            ContractError::ConfirmationAlreadyExists => 6,
            ContractError::EscrowNotFound => 7,
            ContractError::InvalidEventType => 8,
            ContractError::ConsensusNotMet => 9,
        }
    }
}

/// The kinds of event that an oracle confirms.
#[derive(Clone, Copy, Debug, PartialEq, Eq)]
pub enum EventType {
    Shipment,
    Delivery,
    Quality,
    Custom,
    Valuation,
}

/// Whether `event_type` is the number of a kind of event: 1 to 5.
pub open spec fn valid_event_type(event_type: u32) -> bool {
    1 <= event_type <= 5
}

impl EventType {
    /// The number of this kind of event.
    pub open spec fn spec_code(self) -> u32 {
        match self {
            EventType::Shipment => 1,
            EventType::Delivery => 2,
            EventType::Quality => 3,
            EventType::Custom => 4,
            EventType::Valuation => 5,
        }
    }

    /// The number of this kind of event.
    pub fn code(self) -> (r: u32)
        ensures
            r == self.spec_code(),
            valid_event_type(r),
    {
        match self {
            EventType::Shipment => 1,
            EventType::Delivery => 2,
            EventType::Quality => 3,
            EventType::Custom => 4,
            EventType::Valuation => 5,
        }
    }

    /// The kind of event with this number, if there is one.
    pub fn from_code(event_type: u32) -> (r: Option<EventType>)
        ensures
            r is Some <==> valid_event_type(event_type),
            r is Some ==> r.unwrap().spec_code() == event_type,
    {
        if event_type == 1 {
            Some(EventType::Shipment)
        } else if event_type == 2 {
            Some(EventType::Delivery)
        } else if event_type == 3 {
            Some(EventType::Quality)
        } else if event_type == 4 {
            Some(EventType::Custom)
        } else if event_type == 5 {
            Some(EventType::Valuation)
        } else {
            None
        }
    }
}

/// What an oracle confirmed of an escrow.
#[derive(Debug, PartialEq, Eq)]
pub struct ConfirmationData {
    pub escrow_id: Vec<u8>,
    pub event_type: u32,
    pub result: Vec<u8>,
    pub oracle: Address,
    pub timestamp: u64,
    pub verified: bool,
}

/// A confirmation as a mathematical value.
pub struct ConfirmationView {
    pub escrow_id: Seq<u8>,
    pub event_type: u32,
    pub result: Seq<u8>,
    pub oracle: Seq<char>,
    pub timestamp: u64,
    pub verified: bool,
}

impl View for ConfirmationData {
    type V = ConfirmationView;

    open spec fn view(&self) -> ConfirmationView {
        ConfirmationView {
            escrow_id: self.escrow_id@,
            event_type: self.event_type,
            result: self.result@,
            oracle: self.oracle@,
            timestamp: self.timestamp,
            verified: self.verified,
        }
    }
}

impl Clone for ConfirmationData {
    fn clone(&self) -> (r: Self)
        ensures
            r@ == self@,
    {
        ConfirmationData {
            escrow_id: copy_bytes(&self.escrow_id),
            event_type: self.event_type,
            result: copy_bytes(&self.result),
            oracle: self.oracle.clone(),
            timestamp: self.timestamp,
            verified: self.verified,
        }
    }
}

impl Keyed for ConfirmationData {
    type Key = (Seq<u8>, Seq<char>);

    open spec fn key(&self) -> (Seq<u8>, Seq<char>) {
        (self.escrow_id@, self.oracle@)
    }
}

/// The admin of the adapter and the oracles it trusts.
#[derive(Debug, PartialEq, Eq)]
pub struct ContractData {
    pub admin: Address,
    pub initialized: bool,
    pub oracles: Vec<Address>,
}

/// The oracles that confirmed an event of one escrow, in the order in which
/// they did.
#[derive(Debug, PartialEq, Eq)]
pub struct ConfirmingOracles {
    pub escrow_id: Vec<u8>,
    pub oracles: Vec<Address>,
}

impl Keyed for ConfirmingOracles {
    type Key = Seq<u8>;

    open spec fn key(&self) -> Seq<u8> {
        self.escrow_id@
    }
}

/// What the adapter tells the world, one event for each change of state.
#[derive(Debug, PartialEq, Eq)]
pub enum OracleEvent {
    Initialized { admin: Address },
    OracleAdded { oracle: Address },
    OracleRemoved { oracle: Address },
    Confirmed { escrow_id: Vec<u8>, event_type: u32, result: Vec<u8>, oracle: Address },
}

/// An event of the adapter as a mathematical value.
pub enum OracleEventView {
    Initialized { admin: Seq<char> },
    OracleAdded { oracle: Seq<char> },
    OracleRemoved { oracle: Seq<char> },
    Confirmed { escrow_id: Seq<u8>, event_type: u32, result: Seq<u8>, oracle: Seq<char> },
}

impl View for OracleEvent {
    type V = OracleEventView;

    open spec fn view(&self) -> OracleEventView {
        match *self {
            OracleEvent::Initialized { admin } => OracleEventView::Initialized { admin: admin@ },
            OracleEvent::OracleAdded { oracle } => OracleEventView::OracleAdded { oracle: oracle@ },
            OracleEvent::OracleRemoved { oracle } => OracleEventView::OracleRemoved {
                oracle: oracle@,
            },
            OracleEvent::Confirmed { escrow_id, event_type, result, oracle } => {
                OracleEventView::Confirmed {
                    escrow_id: escrow_id@,
                    event_type,
                    result: result@,
                    oracle: oracle@,
                }
            },
        }
    }
}

/// The state of the oracle adapter.
#[derive(Debug)]
pub struct OracleAdapter {
    /// The admin and the registered oracles, once the adapter is
    /// initialized.
    pub data: Option<ContractData>,
    /// Every confirmation, under its pair of escrow and oracle.
    pub confirmations: Vec<ConfirmationData>,
    /// For each escrow, the oracles that confirmed.
    pub confirming: Vec<ConfirmingOracles>,
    /// The events that the host still has to publish.
    pub events: Vec<OracleEvent>,
}

/// The four bytes of `value`, the most significant first.
pub open spec fn be_bytes(value: u32) -> Seq<u8> {
    seq![
        (value / 0x100_0000) as u8,
        ((value / 0x1_0000) % 0x100) as u8,
        ((value / 0x100) % 0x100) as u8,
        (value % 0x100) as u8,
    ]
}

/// The message that an oracle vouches for: the escrow's id, then the kind
/// of event as four bytes, the most significant first, then the result.
pub open spec fn message_bytes(escrow_id: Seq<u8>, event_type: u32, result: Seq<u8>) -> Seq<u8> {
    escrow_id + be_bytes(event_type) + result
}

/// The confirmations as mathematical values.
pub open spec fn view_all(confirmations: Seq<ConfirmationData>) -> Seq<ConfirmationView> {
    Seq::new(confirmations.len(), |i: int| confirmations[i]@)
}

/// The confirmations of `escrow_id` by the oracles of `oracles`, in the
/// order of the list. An oracle without a confirmation is passed over.
pub open spec fn collect(
    confirmations: Seq<ConfirmationData>,
    escrow_id: Seq<u8>,
    oracles: Seq<Address>,
) -> Seq<ConfirmationView>
    decreases oracles.len(),
{
    if oracles.len() == 0 {
        Seq::empty()
    } else {
        let before = collect(confirmations, escrow_id, oracles.drop_last());
        match position(confirmations, (escrow_id, oracles.last()@)) {
            Some(i) => before.push(confirmations[i]@),
            None => before,
        }
    }
}

/// Whether a confirmation counts toward consensus: it is verified, and its
/// oracle is one of `oracle_set` or, where that set is empty, one of the
/// registered oracles.
pub open spec fn counts(
    confirmation: ConfirmationView,
    registered: Seq<Address>,
    oracle_set: Seq<Address>,
) -> bool {
    &&& confirmation.verified
    &&& if oracle_set.len() == 0 {
        listed(registered, confirmation.oracle)
    } else {
        listed(oracle_set, confirmation.oracle)
    }
}

/// How many of the confirmations count toward consensus.
pub open spec fn consensus_count(
    confirmations: Seq<ConfirmationView>,
    registered: Seq<Address>,
    oracle_set: Seq<Address>,
) -> nat
    decreases confirmations.len(),
{
    if confirmations.len() == 0 {
        0
    } else {
        consensus_count(confirmations.drop_last(), registered, oracle_set) + if counts(
            confirmations.last(),
            registered,
            oracle_set,
        ) {
            1nat
        } else {
            0nat
        }
    }
}

/// The oracles of `list` but `who`, in their order.
pub open spec fn without(list: Seq<Address>, who: Seq<char>) -> Seq<Address>
    decreases list.len(),
{
    if list.len() == 0 {
        Seq::empty()
    } else if list.last()@ == who {
        without(list.drop_last(), who)
    } else {
        without(list.drop_last(), who).push(list.last())
    }
}

/// `without` removes `who` and nobody else.
pub proof fn lemma_without_listed(list: Seq<Address>, who: Seq<char>, other: Seq<char>)
    ensures
        listed(without(list, who), other) == (listed(list, other) && other != who),
        without(list, who).len() <= list.len(),
        !listed(list, who) ==> without(list, who) == list,
    decreases list.len(),
{
    if list.len() > 0 {
        let front = list.drop_last();
        lemma_without_listed(front, who, other);
        let kept = without(front, who);
        let all = without(list, who);
        if listed(list, other) && other != who {
            let i = choose|i: int| 0 <= i < list.len() && (#[trigger] list[i])@ == other;
            if i < front.len() {
                assert(front[i]@ == other);
                let j = choose|j: int| 0 <= j < kept.len() && (#[trigger] kept[j])@ == other;
                assert(all[j]@ == other);
            } else {
                assert(all[all.len() - 1]@ == other);
            }
        }
        if listed(all, other) {
            let j = choose|j: int| 0 <= j < all.len() && (#[trigger] all[j])@ == other;
            if j < kept.len() {
                assert(kept[j]@ == other);
                let i = choose|i: int| 0 <= i < front.len() && (#[trigger] front[i])@ == other;
                assert(list[i]@ == other);
            } else {
                assert(list[list.len() - 1]@ == other);
            }
        }
        if !listed(list, who) {
            assert(list[list.len() - 1]@ != who);
            assert forall|i: int| 0 <= i < front.len() implies (#[trigger] front[i])@ != who by {
                assert(list[i]@ != who);
            }
            assert(all =~= list);
        }
    }
}

/// The position of the confirmation of `escrow_id` by `oracle`, if there is
/// one.
pub fn find_confirmation(list: &Vec<ConfirmationData>, escrow_id: &Vec<u8>, oracle: &Address) -> (r:
    Option<usize>)
    ensures
        match r {
            Some(i) => first_at(list@, (escrow_id@, oracle@), i as int),
            None => absent(list@, (escrow_id@, oracle@)),
        },
        position(list@, (escrow_id@, oracle@)) == (match r {
            Some(i) => Some(i as int),
            None => None,
        }),
{
    let mut i: usize = 0;
    while i < list.len()
        invariant
            i <= list.len(),
            forall|j: int| 0 <= j < i ==> (#[trigger] list@[j]).key() != (escrow_id@, oracle@),
        decreases list.len() - i,
    {
        if bytes_equal(&list[i].escrow_id, escrow_id) && list[i].oracle.same(oracle) {
            proof {
                lemma_position_found(list@, (escrow_id@, oracle@), i as int);
            }
            return Some(i);
        }
        i += 1;
    }
    proof {
        lemma_position_absent(list@, (escrow_id@, oracle@));
    }
    None
}

/// The position of the list of the oracles that confirmed for `escrow_id`,
/// if there is one.
pub fn find_confirming(list: &Vec<ConfirmingOracles>, escrow_id: &Vec<u8>) -> (r: Option<usize>)
    ensures
        match r {
            Some(i) => first_at(list@, escrow_id@, i as int),
            None => absent(list@, escrow_id@),
        },
        position(list@, escrow_id@) == (match r {
            Some(i) => Some(i as int),
            None => None,
        }),
{
    let mut i: usize = 0;
    while i < list.len()
        invariant
            i <= list.len(),
            forall|j: int| 0 <= j < i ==> (#[trigger] list@[j]).key() != escrow_id@,
        decreases list.len() - i,
    {
        if bytes_equal(&list[i].escrow_id, escrow_id) {
            proof {
                lemma_position_found(list@, escrow_id@, i as int);
            }
            return Some(i);
        }
        i += 1;
    }
    proof {
        lemma_position_absent(list@, escrow_id@);
    }
    None
}

/// The four bytes of `value`, the most significant first.
pub fn to_be_bytes(value: u32) -> (r: [u8; 4])
    ensures
        r@ == be_bytes(value),
{
    let r = [
        (value / 0x100_0000) as u8,
        ((value / 0x1_0000) % 0x100) as u8,
        ((value / 0x100) % 0x100) as u8,
        (value % 0x100) as u8,
    ];
    assert(r@ =~= be_bytes(value));
    r
}

/// Adds `src` to the end of `buf`.
fn append_bytes(buf: &mut Vec<u8>, src: &[u8])
    ensures
        final(buf)@ == old(buf)@ + src@,
{
    let mut i: usize = 0;
    while i < src.len()
        invariant
            i <= src.len(),
            buf@ == old(buf)@ + src@.take(i as int),
        decreases src.len() - i,
    {
        buf.push(src[i]);
        i += 1;
        assert(buf@ =~= old(buf)@ + src@.take(i as int));
    }
    assert(src@.take(src.len() as int) =~= src@);
}

impl OracleAdapter {
    /// The registered oracles; none before the adapter is initialized.
    pub open spec fn registered(&self) -> Seq<Address> {
        match self.data {
            Some(d) => d.oracles@,
            None => Seq::empty(),
        }
    }

    /// What `oracle` confirmed of `escrow_id`, if it confirmed.
    pub open spec fn confirmation_of(&self, escrow_id: Seq<u8>, oracle: Seq<char>) -> Option<
        ConfirmationView,
    > {
        match position(self.confirmations@, (escrow_id, oracle)) {
            Some(i) => Some(self.confirmations@[i]@),
            None => None,
        }
    }

    /// The list of the oracles that confirmed for `escrow_id`, if the
    /// adapter keeps one.
    pub open spec fn confirming_oracles(&self, escrow_id: Seq<u8>) -> Option<Seq<Address>> {
        match position(self.confirming@, escrow_id) {
            Some(i) => Some(self.confirming@[i].oracles@),
            None => None,
        }
    }

    /// The list of the oracles that confirmed for `escrow_id`, empty where
    /// the adapter keeps none.
    pub open spec fn confirming_or_empty(&self, escrow_id: Seq<u8>) -> Seq<Address> {
        match self.confirming_oracles(escrow_id) {
            Some(list) => list,
            None => Seq::empty(),
        }
    }

    /// The confirmations of `escrow_id`: those of the oracles on the
    /// escrow's list, in the order of the list. For an escrow without a
    /// list, those of the registered oracles.
    pub open spec fn confirmations_for(&self, escrow_id: Seq<u8>) -> Seq<ConfirmationView> {
        match self.confirming_oracles(escrow_id) {
            Some(list) => collect(self.confirmations@, escrow_id, list),
            None => collect(self.confirmations@, escrow_id, self.registered()),
        }
    }

    /// Every confirmation that `pre` keeps is in `post` as it was.
    pub open spec fn keeps_confirmations(pre: Self, post: Self) -> bool {
        forall|escrow_id: Seq<u8>, oracle: Seq<char>|
            pre.confirmation_of(escrow_id, oracle) is Some ==> #[trigger] post.confirmation_of(
                escrow_id,
                oracle,
            ) == pre.confirmation_of(escrow_id, oracle)
    }

    /// An adapter that nobody has initialized.
    pub fn new() -> (r: OracleAdapter)
        ensures
            r.well_tracked(),
            r.data is None,
            r.confirmations@.len() == 0,
            r.confirming@.len() == 0,
            r.events@.len() == 0,
    {
        OracleAdapter {
            data: None,
            confirmations: Vec::new(),
            confirming: Vec::new(),
            events: Vec::new(),
        }
    }

    /// Whether the adapter has been initialized.
    pub fn is_initialized(&self) -> (r: bool)
        ensures
            r == self.data is Some,
    {
        self.data.is_some()
    }

    /// Gives the adapter its admin, with no oracle registered yet. An
    /// adapter is initialized once.
    pub fn initialize(&mut self, env: &Env, admin: Address) -> (r: Result<(), ContractError>)
        ensures
            r is Err <==> old(self).data is Some,
            r is Err ==> r == Err::<(), ContractError>(ContractError::AlreadyInitialized)
                && *final(self) == *old(self),
            r is Ok ==> {
                &&& *final(self) == (OracleAdapter {
                    data: final(self).data,
                    events: final(self).events,
                    ..*old(self)
                })
                &&& final(self).data is Some
                &&& final(self).data.unwrap().admin == admin
                &&& final(self).data.unwrap().initialized
                &&& final(self).data.unwrap().oracles@ == Seq::<Address>::empty()
                &&& final(self).events@ == old(self).events@.push(
                    OracleEvent::Initialized { admin },
                )
            },
            Self::keeps_confirmations(*old(self), *final(self)),
            old(self).well_tracked() ==> final(self).well_tracked(),
    {
        if self.is_initialized() {
            return Err(ContractError::AlreadyInitialized);
        }
        self.events.push(OracleEvent::Initialized { admin: admin.clone() });
        self.data = Some(ContractData { admin, initialized: true, oracles: Vec::new() });
        proof {
            if old(self).well_tracked() {
                lemma_tracking_is_untouched(*old(self), *self);
            }
        }
        Ok(())
    }

    /// Why the adapter refuses an order of the admin, if it does.
    pub open spec fn admin_error(&self, env: Env) -> Option<ContractError> {
        if self.data is None {
            Some(ContractError::EscrowNotFound)
        } else if !env.authorizes(self.data.unwrap().admin@) {
            Some(ContractError::Unauthorized)
        } else {
            None
        }
    }

    /// Whether the admin has authorized the call.
    pub fn check_admin(&self, env: &Env) -> (r: Result<(), ContractError>)
        ensures
            r is Ok <==> self.admin_error(*env) is None,
            r is Err ==> Some(r->Err_0) == self.admin_error(*env),
    {
        match &self.data {
            None => Err(ContractError::EscrowNotFound),
            Some(data) => {
                if env.is_authorized(&data.admin) {
                    Ok(())
                } else {
                    Err(ContractError::Unauthorized)
                }
            },
        }
    }

    /// Why the adapter refuses to register this oracle, if it does.
    pub open spec fn add_oracle_error(&self, env: Env, oracle: Seq<char>) -> Option<ContractError> {
        if self.admin_error(env) is Some {
            self.admin_error(env)
        } else if listed(self.registered(), oracle) {
            Some(ContractError::OracleAlreadyRegistered)
        } else {
            None
        }
    }

    /// Registers an oracle, on the admin's order. An oracle is registered
    /// once.
    pub fn add_oracle(&mut self, env: &Env, oracle: Address) -> (r: Result<(), ContractError>)
        ensures
            match r {
                Ok(_) => {
                    &&& old(self).add_oracle_error(*env, oracle@) is None
                    &&& *final(self) == (OracleAdapter {
                        data: final(self).data,
                        events: final(self).events,
                        ..*old(self)
                    })
                    &&& final(self).data is Some
                    &&& final(self).data.unwrap().admin == old(self).data.unwrap().admin
                    &&& final(self).data.unwrap().initialized == old(
                        self,
                    ).data.unwrap().initialized
                    &&& final(self).registered() == old(self).registered().push(oracle)
                    &&& forall|other: Seq<char>|
                        listed(final(self).registered(), other) == (listed(
                            old(self).registered(),
                            other,
                        ) || other == oracle@)
                    &&& final(self).events@ == old(self).events@.push(
                        OracleEvent::OracleAdded { oracle },
                    )
                },
                Err(e) => {
                    &&& old(self).add_oracle_error(*env, oracle@) == Some(e)
                    &&& *final(self) == *old(self)
                },
            },
            Self::keeps_confirmations(*old(self), *final(self)),
            old(self).well_tracked() ==> final(self).well_tracked(),
    {
        match self.check_admin(env) {
            Ok(_) => {},
            Err(e) => {
                return Err(e);
            },
        }
        let mut data = match self.data.take() {
            Some(d) => d,
            None => {
                return Err(ContractError::EscrowNotFound);
            },
        };
        if contains_address(&data.oracles, &oracle) {
            self.data = Some(data);
            return Err(ContractError::OracleAlreadyRegistered);
        }
        let ghost before = data.oracles@;
        data.oracles.push(oracle.clone());
        proof {
            lemma_push_listed(before, oracle);
        }
        self.data = Some(data);
        self.events.push(OracleEvent::OracleAdded { oracle });
        proof {
            if old(self).well_tracked() {
                lemma_tracking_is_untouched(*old(self), *self);
            }
        }
        Ok(())
    }

    /// Why the adapter refuses to remove this oracle, if it does.
    pub open spec fn remove_oracle_error(&self, env: Env, oracle: Seq<char>) -> Option<
        ContractError,
    > {
        if self.admin_error(env) is Some {
            self.admin_error(env)
        } else if !listed(self.registered(), oracle) {
            Some(ContractError::OracleNotRegistered)
        } else {
            None
        }
    }

    /// Removes an oracle from the registry, on the admin's order. The
    /// other oracles keep their order.
    pub fn remove_oracle(&mut self, env: &Env, oracle: Address) -> (r: Result<(), ContractError>)
        ensures
            match r {
                Ok(_) => {
                    &&& old(self).remove_oracle_error(*env, oracle@) is None
                    &&& *final(self) == (OracleAdapter {
                        data: final(self).data,
                        events: final(self).events,
                        ..*old(self)
                    })
                    &&& final(self).data is Some
                    &&& final(self).data.unwrap().admin == old(self).data.unwrap().admin
                    &&& final(self).data.unwrap().initialized == old(
                        self,
                    ).data.unwrap().initialized
                    &&& final(self).registered() == without(old(self).registered(), oracle@)
                    &&& forall|other: Seq<char>|
                        listed(final(self).registered(), other) == (listed(
                            old(self).registered(),
                            other,
                        ) && other != oracle@)
                    &&& final(self).events@ == old(self).events@.push(
                        OracleEvent::OracleRemoved { oracle },
                    )
                },
                Err(e) => {
                    &&& old(self).remove_oracle_error(*env, oracle@) == Some(e)
                    &&& *final(self) == *old(self)
                },
            },
            Self::keeps_confirmations(*old(self), *final(self)),
            old(self).well_tracked() ==> final(self).well_tracked(),
    {
        match self.check_admin(env) {
            Ok(_) => {},
            Err(e) => {
                return Err(e);
            },
        }
        let new_oracles = match &self.data {
            Some(data) => {
                let mut found = false;
                let mut new_oracles: Vec<Address> = Vec::new();
                let mut i: usize = 0;
                while i < data.oracles.len()
                    invariant
                        i <= data.oracles.len(),
                        new_oracles@ == without(data.oracles@.take(i as int), oracle@),
                        found == listed(data.oracles@.take(i as int), oracle@),
                    decreases data.oracles.len() - i,
                {
                    let ghost before = data.oracles@.take(i as int);
                    let ghost after = data.oracles@.take(i + 1);
                    proof {
                        assert(after.drop_last() =~= before);
                        assert(after.last() == data.oracles@[i as int]);
                        if listed(before, oracle@) {
                            let j = choose|j: int|
                                0 <= j < before.len() && (#[trigger] before[j])@ == oracle@;
                            assert(after[j]@ == oracle@);
                        }
                        if listed(after, oracle@) && data.oracles@[i as int]@ != oracle@ {
                            let j = choose|j: int|
                                0 <= j < after.len() && (#[trigger] after[j])@ == oracle@;
                            assert(before[j]@ == oracle@);
                        }
                    }
                    if data.oracles[i].same(&oracle) {
                        found = true;
                        proof {
                            assert(after[i as int]@ == oracle@);
                        }
                    } else {
                        new_oracles.push(data.oracles[i].clone());
                    }
                    i += 1;
                }
                proof {
                    assert(data.oracles@.take(data.oracles.len() as int) =~= data.oracles@);
                    assert forall|other: Seq<char>|
                        listed(without(data.oracles@, oracle@), other) == (listed(
                            data.oracles@,
                            other,
                        ) && other != oracle@) by {
                        lemma_without_listed(data.oracles@, oracle@, other);
                    }
                }
                if !found {
                    return Err(ContractError::OracleNotRegistered);
                }
                new_oracles
            },
            None => {
                return Err(ContractError::EscrowNotFound);
            },
        };
        let data = match self.data.take() {
            Some(d) => d,
            None => {
                return Err(ContractError::EscrowNotFound);
            },
        };
        self.data = Some(
            ContractData { admin: data.admin, initialized: data.initialized, oracles: new_oracles },
        );
        self.events.push(OracleEvent::OracleRemoved { oracle });
        proof {
            if old(self).well_tracked() {
                lemma_tracking_is_untouched(*old(self), *self);
            }
        }
        Ok(())
    }

    /// The digest of the message that an oracle vouches for: the SHA-256
    /// hash of the escrow's id, the kind of event as four bytes with the
    /// most significant first, and the result, in this order.
    pub fn create_message(escrow_id: &Vec<u8>, event_type: u32, result: &Vec<u8>) -> (r: [u8; 32])
        requires
            escrow_id@.len() + 4 + result@.len() <= MAX_MESSAGE_LEN,
        ensures
            r@ == sha256_digest(message_bytes(escrow_id@, event_type, result@)),
    {
        let mut message: Vec<u8> = Vec::new();
        append_bytes(&mut message, escrow_id.as_slice());
        let kind = to_be_bytes(event_type);
        append_bytes(&mut message, kind.as_slice());
        append_bytes(&mut message, result.as_slice());
        assert(message@ =~= message_bytes(escrow_id@, event_type, result@));
        sha256(&message)
    }

    /// Whether the oracle stands behind the message with this digest. The
    /// ledger checks signatures when it takes a principal's authorization
    /// of a call, so the oracle stands behind the message exactly when it
    /// has authorized this call.
    pub fn verify_signature(
        env: &Env,
        message: &[u8; 32],
        signature: &Vec<u8>,
        oracle: &Address,
    ) -> (r: Result<(), ContractError>)
        ensures
            r is Ok <==> env.authorizes(oracle@),
            r is Err ==> r == Err::<(), ContractError>(ContractError::Unauthorized),
    {
        if env.is_authorized(oracle) {
            Ok(())
        } else {
            Err(ContractError::Unauthorized)
        }
    }

    /// Why the adapter refuses this confirmation before it even asks whether
    /// the oracle stands behind it, if it does. The checks come in this
    /// order: the adapter's initialization, the oracle's registration, the
    /// kind of event, a confirmation kept under the pair of escrow and
    /// oracle, the oracle's name on the escrow's list.
    pub open spec fn replay_error(&self, oracle: Seq<char>, escrow_id: Seq<u8>, event_type: u32)
        -> Option<ContractError> {
        if self.data is None {
            Some(ContractError::EscrowNotFound)
        } else if !listed(self.registered(), oracle) {
            Some(ContractError::OracleNotRegistered)
        } else if !valid_event_type(event_type) {
            Some(ContractError::InvalidEventType)
        } else if self.confirmation_of(escrow_id, oracle) is Some {
            Some(ContractError::ConfirmationAlreadyExists)
        } else if listed(self.confirming_or_empty(escrow_id), oracle) {
            Some(ContractError::ConfirmationAlreadyExists)
        } else {
            None
        }
    }

    /// Why the adapter refuses this confirmation, if it does: for one of
    /// the reasons of `replay_error` or, last, because the oracle has not
    /// authorized the call.
    pub open spec fn confirm_error(
        &self,
        env: Env,
        oracle: Seq<char>,
        escrow_id: Seq<u8>,
        event_type: u32,
    ) -> Option<ContractError> {
        if self.replay_error(oracle, escrow_id, event_type) is Some {
            self.replay_error(oracle, escrow_id, event_type)
        } else if !env.authorizes(oracle) {
            Some(ContractError::Unauthorized)
        } else {
            None
        }
    }

    /// Whether the adapter would take a confirmation of `escrow_id` by
    /// `oracle`, were the oracle to stand behind it: the oracle is
    /// registered, the kind of event is valid, and neither the confirmations
    /// nor the escrow's list know of an earlier confirmation. Both are
    /// consulted, the confirmations first.
    pub fn check_confirmation(&self, oracle: &Address, escrow_id: &Vec<u8>, event_type: u32) -> (r:
        Result<(), ContractError>)
        ensures
            r is Ok <==> self.replay_error(oracle@, escrow_id@, event_type) is None,
            r is Err ==> Some(r->Err_0) == self.replay_error(oracle@, escrow_id@, event_type),
    {
        match &self.data {
            None => {
                return Err(ContractError::EscrowNotFound);
            },
            Some(data) => {
                if !contains_address(&data.oracles, oracle) {
                    return Err(ContractError::OracleNotRegistered);
                }
            },
        }
        if event_type < 1 || event_type > 5 {
            return Err(ContractError::InvalidEventType);
        }
        if find_confirmation(&self.confirmations, escrow_id, oracle).is_some() {
            return Err(ContractError::ConfirmationAlreadyExists);
        }
        match find_confirming(&self.confirming, escrow_id) {
            Some(i) => {
                if contains_address(&self.confirming[i].oracles, oracle) {
                    return Err(ContractError::ConfirmationAlreadyExists);
                }
            },
            None => {},
        }
        Ok(())
    }

    /// `post` is `pre` after `oracle` has confirmed an event of
    /// `escrow_id`: the confirmation is kept, verified and stamped with the
    /// ledger's time, the oracle is at the end of the escrow's list, and
    /// one event tells of it.
    pub open spec fn confirmed(
        pre: Self,
        env: Env,
        oracle: Address,
        escrow_id: Vec<u8>,
        event_type: u32,
        result: Vec<u8>,
        post: Self,
    ) -> bool {
        &&& pre.confirm_error(env, oracle@, escrow_id@, event_type) is None
        &&& post.data == pre.data
        &&& post.confirmations@ == pre.confirmations@.push(
            ConfirmationData {
                escrow_id,
                event_type,
                result,
                oracle,
                timestamp: env.timestamp,
                verified: true,
            },
        )
        &&& post.confirming_oracles(escrow_id@) == Some(
            pre.confirming_or_empty(escrow_id@).push(oracle),
        )
        &&& forall|other: Seq<u8>|
            other != escrow_id@ ==> #[trigger] post.confirming_oracles(other)
                == pre.confirming_oracles(other)
        &&& post.events@.len() == pre.events@.len() + 1
        &&& post.events@.drop_last() == pre.events@
        &&& post.events@.last()@ == (OracleEventView::Confirmed {
            escrow_id: escrow_id@,
            event_type,
            result: result@,
            oracle: oracle@,
        })
    }

    /// Puts `oracle` at the end of the list of `escrow_id`, which is
    /// started if need be.
    fn track_confirming(&mut self, escrow_id: &Vec<u8>, oracle: Address)
        ensures
            *final(self) == (OracleAdapter { confirming: final(self).confirming, ..*old(self) }),
            final(self).confirming_oracles(escrow_id@) == Some(
                old(self).confirming_or_empty(escrow_id@).push(oracle),
            ),
            forall|other: Seq<u8>|
                other != escrow_id@ ==> #[trigger] final(self).confirming_oracles(other) == old(
                    self,
                ).confirming_oracles(other),
    {
        let ghost before = self.confirming@;
        match find_confirming(&self.confirming, escrow_id) {
            Some(i) => {
                self.confirming[i].oracles.push(oracle);
                proof {
                    let after = self.confirming@;
                    assert(after =~= before.update(i as int, after[i as int]));
                    assert forall|k: Seq<u8>| position(after, k) == position(before, k) by {
                        lemma_update_positions(before, i as int, after[i as int], k);
                    }
                }
            },
            None => {
                let mut oracles: Vec<Address> = Vec::new();
                oracles.push(oracle);
                let entry = ConfirmingOracles { escrow_id: copy_bytes(escrow_id), oracles };
                proof {
                    assert forall|k: Seq<u8>|
                        position(before.push(entry), k) == (if k == escrow_id@ {
                            Some(before.len() as int)
                        } else {
                            position(before, k)
                        }) by {
                        lemma_push_positions(before, entry, k);
                    }
                    assert(entry.oracles@ =~= Seq::<Address>::empty().push(oracle));
                }
                self.confirming.push(entry);
            },
        }
    }

    /// Takes the confirmation of an event of `escrow_id` by `oracle`. The
    /// oracle must be registered and must have authorized the call, and it
    /// confirms once for each escrow.
    pub fn confirm_event(
        &mut self,
        env: &Env,
        oracle: Address,
        escrow_id: Vec<u8>,
        event_type: u32,
        result: Vec<u8>,
        signature: Vec<u8>,
    ) -> (r: Result<(), ContractError>)
        requires
            escrow_id@.len() + 4 + result@.len() <= MAX_MESSAGE_LEN,
        ensures
            match r {
                Ok(_) => Self::confirmed(
                    *old(self),
                    *env,
                    oracle,
                    escrow_id,
                    event_type,
                    result,
                    *final(self),
                ),
                Err(e) => {
                    &&& old(self).confirm_error(*env, oracle@, escrow_id@, event_type) == Some(e)
                    &&& *final(self) == *old(self)
                },
            },
            Self::keeps_confirmations(*old(self), *final(self)),
            old(self).well_tracked() ==> final(self).well_tracked(),
    {
        match self.check_confirmation(&oracle, &escrow_id, event_type) {
            Ok(_) => {},
            Err(e) => {
                return Err(e);
            },
        }
        let message = Self::create_message(&escrow_id, event_type, &result);
        match Self::verify_signature(env, &message, &signature, &oracle) {
            Ok(_) => {},
            Err(e) => {
                return Err(e);
            },
        }
        self.track_confirming(&escrow_id, oracle.clone());
        let ghost listed_state = *self;
        self.events.push(
            OracleEvent::Confirmed {
                escrow_id: copy_bytes(&escrow_id),
                event_type,
                result: copy_bytes(&result),
                oracle: oracle.clone(),
            },
        );
        assert(self.events@.drop_last() =~= old(self).events@);
        self.confirmations.push(
            ConfirmationData {
                escrow_id,
                event_type,
                result,
                oracle,
                timestamp: env.timestamp(),
                verified: true,
            },
        );
        proof {
            assert forall|other: Seq<u8>| other != escrow_id@ implies #[trigger]
                self.confirming_oracles(other) == old(self).confirming_oracles(other) by {
                assert(listed_state.confirming_oracles(other) == old(self).confirming_oracles(other));
            }
            let added = self.confirmations@.last();
            if old(self).well_tracked() {
                lemma_tracking_is_kept(
                    *old(self),
                    *env,
                    oracle,
                    escrow_id,
                    event_type,
                    result,
                    *self,
                );
            }
            lemma_position_some(old(self).confirmations@, added.key());
            assert forall|e: Seq<u8>, o: Seq<char>|
                old(self).confirmation_of(e, o) is Some implies #[trigger] self.confirmation_of(e, o)
                == old(self).confirmation_of(e, o) by {
                lemma_push_positions(old(self).confirmations@, added, (e, o));
            }
        }
        Ok(())
    }
}

impl OracleAdapter {
    /// The admin and the registered oracles, or `EscrowNotFound` before the
    /// adapter is initialized.
    pub fn get_contract_data(&self) -> (r: Result<&ContractData, ContractError>)
        ensures
            match r {
                Ok(data) => self.data == Some(*data),
                Err(e) => self.data is None && e == ContractError::EscrowNotFound,
            },
    {
        match &self.data {
            Some(data) => Ok(data),
            None => Err(ContractError::EscrowNotFound),
        }
    }

    /// Whether `oracle` is among the oracles of `contract_data`.
    pub fn is_oracle_registered(contract_data: &ContractData, oracle: &Address) -> (r: bool)
        ensures
            r == listed(contract_data.oracles@, oracle@),
    {
        contains_address(&contract_data.oracles, oracle)
    }

    /// Whether `oracle` is registered.
    pub fn is_oracle_registered_query(&self, oracle: &Address) -> (r: Result<bool, ContractError>)
        ensures
            match r {
                Ok(b) => self.data is Some && b == listed(self.registered(), oracle@),
                Err(e) => self.data is None && e == ContractError::EscrowNotFound,
            },
    {
        match self.get_contract_data() {
            Ok(data) => Ok(Self::is_oracle_registered(data, oracle)),
            Err(e) => Err(e),
        }
    }

    /// How many oracles are registered.
    pub fn get_oracle_count(&self) -> (r: Result<usize, ContractError>)
        ensures
            match r {
                Ok(n) => self.data is Some && n == self.registered().len(),
                Err(e) => self.data is None && e == ContractError::EscrowNotFound,
            },
    {
        match self.get_contract_data() {
            Ok(data) => Ok(data.oracles.len()),
            Err(e) => Err(e),
        }
    }

    /// The oracle at this place of the registry, in the order of
    /// registration.
    pub fn get_oracle_at(&self, index: u32) -> (r: Option<Address>)
        ensures
            r == (if index < self.registered().len() {
                Some(self.registered()[index as int])
            } else {
                None
            }),
    {
        match self.get_contract_data() {
            Ok(data) => {
                if (index as usize) < data.oracles.len() {
                    Some(data.oracles[index as usize].clone())
                } else {
                    None
                }
            },
            Err(_) => None,
        }
    }

    /// The adapter's admin.
    pub fn get_admin(&self) -> (r: Result<Address, ContractError>)
        ensures
            match r {
                Ok(admin) => self.data is Some && admin == self.data.unwrap().admin,
                Err(e) => self.data is None && e == ContractError::EscrowNotFound,
            },
    {
        match self.get_contract_data() {
            Ok(data) => Ok(data.admin.clone()),
            Err(e) => Err(e),
        }
    }

    /// The oracles that confirmed for `escrow_id`, in the order in which
    /// they did; none where the adapter keeps no list for the escrow.
    pub fn get_confirming_oracles(&self, escrow_id: &Vec<u8>) -> (r: Vec<Address>)
        ensures
            r@ == self.confirming_or_empty(escrow_id@),
    {
        let mut out: Vec<Address> = Vec::new();
        match find_confirming(&self.confirming, escrow_id) {
            Some(i) => {
                let list = &self.confirming[i].oracles;
                let mut j: usize = 0;
                while j < list.len()
                    invariant
                        j <= list.len(),
                        out@ == list@.take(j as int),
                    decreases list.len() - j,
                {
                    out.push(list[j].clone());
                    j += 1;
                    assert(out@ =~= list@.take(j as int));
                }
                assert(list@.take(list.len() as int) =~= list@);
            },
            None => {},
        }
        out
    }

    /// The confirmations of `escrow_id` by the oracles of `oracles`, in the
    /// order of the list.
    fn collect_confirmations(&self, escrow_id: &Vec<u8>, oracles: &Vec<Address>) -> (r: Vec<
        ConfirmationData,
    >)
        ensures
            view_all(r@) == collect(self.confirmations@, escrow_id@, oracles@),
    {
        let mut out: Vec<ConfirmationData> = Vec::new();
        let mut i: usize = 0;
        assert(view_all(out@) =~= collect(self.confirmations@, escrow_id@, oracles@.take(0)));
        while i < oracles.len()
            invariant
                i <= oracles.len(),
                view_all(out@) == collect(self.confirmations@, escrow_id@, oracles@.take(i as int)),
            decreases oracles.len() - i,
        {
            proof {
                let upto = oracles@.take(i + 1);
                assert(upto.drop_last() =~= oracles@.take(i as int));
                assert(upto.last() == oracles@[i as int]);
            }
            match find_confirmation(&self.confirmations, escrow_id, &oracles[i]) {
                Some(at) => {
                    let ghost before = out@;
                    let found = self.confirmations[at].clone();
                    out.push(found);
                    assert(view_all(out@) =~= view_all(before).push(self.confirmations@[at as int]@));
                },
                None => {},
            }
            i += 1;
        }
        assert(oracles@.take(oracles.len() as int) =~= oracles@);
        out
    }

    /// The confirmations of `escrow_id`: those of the oracles on the
    /// escrow's list or, for an escrow without a list, those of the
    /// registered oracles.
    pub fn get_confirmations_for_escrow(&self, escrow_id: &Vec<u8>) -> (r: Result<
        Vec<ConfirmationData>,
        ContractError,
    >)
        ensures
            match r {
                Ok(found) => self.data is Some && view_all(found@) == self.confirmations_for(
                    escrow_id@,
                ),
                Err(e) => self.data is None && e == ContractError::EscrowNotFound,
            },
    {
        let data = match self.get_contract_data() {
            Ok(d) => d,
            Err(e) => {
                return Err(e);
            },
        };
        match find_confirming(&self.confirming, escrow_id) {
            Some(i) => Ok(self.collect_confirmations(escrow_id, &self.confirming[i].oracles)),
            None => Ok(self.collect_confirmations(escrow_id, &data.oracles)),
        }
    }

    /// The confirmations of `escrow_id`, if there are any.
    pub fn get_confirmation(&self, escrow_id: &Vec<u8>) -> (r: Option<Vec<ConfirmationData>>)
        ensures
            r is Some <==> self.data is Some && self.confirmations_for(escrow_id@).len() > 0,
            r is Some ==> view_all(r.unwrap()@) == self.confirmations_for(escrow_id@),
    {
        match self.get_confirmations_for_escrow(escrow_id) {
            Ok(found) => {
                if found.len() == 0 {
                    None
                } else {
                    Some(found)
                }
            },
            Err(_) => None,
        }
    }

    /// Whether the confirmations of `escrow_id` that count reach
    /// `threshold`. A confirmation counts if it is verified and its oracle
    /// is in `oracle_set` or, where `oracle_set` is empty, registered.
    pub fn check_consensus(&self, escrow_id: &Vec<u8>, threshold: u32, oracle_set: &Vec<Address>)
        -> (r: Result<bool, ContractError>)
        ensures
            match r {
                Ok(met) => self.data is Some && met == (consensus_count(
                    self.confirmations_for(escrow_id@),
                    self.registered(),
                    oracle_set@,
                ) >= threshold),
                Err(e) => self.data is None && e == ContractError::EscrowNotFound,
            },
    {
        let data = match self.get_contract_data() {
            Ok(d) => d,
            Err(e) => {
                return Err(e);
            },
        };
        let confirmations = match self.get_confirmations_for_escrow(escrow_id) {
            Ok(found) => found,
            Err(e) => {
                return Err(e);
            },
        };
        let ghost views = view_all(confirmations@);
        let mut count: usize = 0;
        let mut i: usize = 0;
        while i < confirmations.len()
            invariant
                i <= confirmations.len(),
                views == view_all(confirmations@),
                count <= i,
                count == consensus_count(views.take(i as int), data.oracles@, oracle_set@),
            decreases confirmations.len() - i,
        {
            proof {
                let upto = views.take(i + 1);
                assert(upto.drop_last() =~= views.take(i as int));
                assert(upto.last() == confirmations@[i as int]@);
            }
            let confirmation = &confirmations[i];
            let is_authorized = if oracle_set.len() == 0 {
                Self::is_oracle_registered(data, &confirmation.oracle)
            } else {
                contains_address(oracle_set, &confirmation.oracle)
            };
            if is_authorized && confirmation.verified {
                count += 1;
            }
            i += 1;
        }
        assert(views.take(confirmations.len() as int) =~= views);
        Ok(count >= threshold as usize)
    }

    /// Whether the adapter can account for every confirmation of
    /// `escrow_id`: it keeps the escrow's list, or it keeps no confirmation
    /// of the escrow at all.
    pub open spec fn tracks(&self, escrow_id: Seq<u8>) -> bool {
        self.confirming_oracles(escrow_id) is Some || forall|oracle: Seq<char>|
            position(self.confirmations@, (escrow_id, oracle)) is None
    }

    /// Whether the adapter can account for every confirmation that it
    /// keeps. This holds of every adapter that was filled through its
    /// operations.
    pub open spec fn well_tracked(&self) -> bool {
        forall|escrow_id: Seq<u8>| #[trigger] self.tracks(escrow_id)
    }
}

/// A confirmation under a new pair of escrow and oracle changes nothing for
/// a list of oracles that the pair is not about.
pub proof fn lemma_collect_unaffected(
    confirmations: Seq<ConfirmationData>,
    added: ConfirmationData,
    escrow_id: Seq<u8>,
    oracles: Seq<Address>,
)
    requires
        absent(confirmations, added.key()),
        added.escrow_id@ != escrow_id || !listed(oracles, added.oracle@),
    ensures
        collect(confirmations.push(added), escrow_id, oracles) == collect(
            confirmations,
            escrow_id,
            oracles,
        ),
    decreases oracles.len(),
{
    if oracles.len() > 0 {
        let front = oracles.drop_last();
        if added.escrow_id@ == escrow_id {
            assert(oracles[oracles.len() - 1]@ != added.oracle@);
            assert forall|j: int| 0 <= j < front.len() implies (#[trigger] front[j])@
                != added.oracle@ by {
                assert(oracles[j]@ != added.oracle@);
            }
        }
        lemma_collect_unaffected(confirmations, added, escrow_id, front);
        lemma_push_positions(confirmations, added, (escrow_id, oracles.last()@));
    }
}

/// Where no oracle has a confirmation of an escrow, there is nothing to
/// collect for it.
pub proof fn lemma_collect_nothing(
    confirmations: Seq<ConfirmationData>,
    escrow_id: Seq<u8>,
    oracles: Seq<Address>,
)
    requires
        forall|oracle: Seq<char>| position(confirmations, (escrow_id, oracle)) is None,
    ensures
        collect(confirmations, escrow_id, oracles) == Seq::<ConfirmationView>::empty(),
    decreases oracles.len(),
{
    if oracles.len() > 0 {
        lemma_collect_nothing(confirmations, escrow_id, oracles.drop_last());
    }
}

/// An oracle confirms once: after an oracle has confirmed an event of an
/// escrow, the adapter refuses every further confirmation of that escrow by
/// that oracle, and with `ConfirmationAlreadyExists` where the kind of
/// event is a valid one. What was confirmed before stays as it was.
pub proof fn lemma_no_second_confirmation(
    pre: OracleAdapter,
    env: Env,
    oracle: Address,
    escrow_id: Vec<u8>,
    event_type: u32,
    result: Vec<u8>,
    post: OracleAdapter,
    second_env: Env,
    second_event_type: u32,
)
    requires
        OracleAdapter::confirmed(pre, env, oracle, escrow_id, event_type, result, post),
    ensures
        post.confirm_error(second_env, oracle@, escrow_id@, second_event_type) is Some,
        valid_event_type(second_event_type) ==> post.confirm_error(
            second_env,
            oracle@,
            escrow_id@,
            second_event_type,
        ) == Some(ContractError::ConfirmationAlreadyExists),
        post.confirmation_of(escrow_id@, oracle@) is Some,
        listed(post.confirming_or_empty(escrow_id@), oracle@),
        forall|e: Seq<u8>, o: Seq<char>|
            (e, o) != (escrow_id@, oracle@) ==> #[trigger] post.confirmation_of(e, o)
                == pre.confirmation_of(e, o),
{
    let added = ConfirmationData {
        escrow_id,
        event_type,
        result,
        oracle,
        timestamp: env.timestamp,
        verified: true,
    };
    lemma_position_some(pre.confirmations@, added.key());
    lemma_push_positions(pre.confirmations@, added, added.key());
    let list = post.confirming_or_empty(escrow_id@);
    assert(list[list.len() - 1]@ == oracle@);
    assert forall|e: Seq<u8>, o: Seq<char>| (e, o) != (escrow_id@, oracle@) implies #[trigger]
        post.confirmation_of(e, o) == pre.confirmation_of(e, o) by {
        lemma_push_positions(pre.confirmations@, added, (e, o));
    }
}

/// Consensus only grows: when an oracle confirms an event of an escrow
/// that the adapter tracks, the count of the confirmations that count
/// toward consensus does not fall, for that escrow or any other and for
/// every set of oracles. For the escrow that was confirmed it rises by one
/// if the new confirmation counts, and stays as it was if not; for every
/// other escrow nothing changes.
pub proof fn lemma_consensus_grows(
    pre: OracleAdapter,
    env: Env,
    oracle: Address,
    escrow_id: Vec<u8>,
    event_type: u32,
    result: Vec<u8>,
    post: OracleAdapter,
    about: Seq<u8>,
    oracle_set: Seq<Address>,
)
    requires
        OracleAdapter::confirmed(pre, env, oracle, escrow_id, event_type, result, post),
        pre.tracks(escrow_id@),
    ensures
        consensus_count(post.confirmations_for(about), post.registered(), oracle_set)
            >= consensus_count(pre.confirmations_for(about), pre.registered(), oracle_set),
        about != escrow_id@ ==> post.confirmations_for(about) == pre.confirmations_for(about),
        about == escrow_id@ ==> post.confirmations_for(about) == pre.confirmations_for(about).push(
            post.confirmation_of(escrow_id@, oracle@).unwrap(),
        ),
        about == escrow_id@ ==> consensus_count(
            post.confirmations_for(about),
            post.registered(),
            oracle_set,
        ) == consensus_count(pre.confirmations_for(about), pre.registered(), oracle_set) + (if counts(
            post.confirmation_of(escrow_id@, oracle@).unwrap(),
            post.registered(),
            oracle_set,
        ) {
            1nat
        } else {
            0nat
        }),
        post.tracks(about) || !pre.tracks(about),
{
    let added = ConfirmationData {
        escrow_id,
        event_type,
        result,
        oracle,
        timestamp: env.timestamp,
        verified: true,
    };
    let before = pre.confirmations@;
    let after = post.confirmations@;
    lemma_position_some(before, added.key());
    lemma_push_positions(before, added, added.key());
    if about == escrow_id@ {
        let list = pre.confirming_or_empty(about);
        let longer = list.push(oracle);
        assert(longer.drop_last() =~= list);
        lemma_collect_unaffected(before, added, about, list);
        if pre.confirming_oracles(about) is None {
            lemma_collect_nothing(before, about, pre.registered());
            assert(list =~= Seq::<Address>::empty());
        }
        let grown = pre.confirmations_for(about).push(added@);
        assert(post.confirmations_for(about) == grown);
        assert(grown.drop_last() =~= pre.confirmations_for(about));
    } else {
        assert(post.confirming_oracles(about) == pre.confirming_oracles(about));
        match pre.confirming_oracles(about) {
            Some(list) => {
                lemma_collect_unaffected(before, added, about, list);
            },
            None => {
                lemma_collect_unaffected(before, added, about, pre.registered());
            },
        }
        if pre.tracks(about) && pre.confirming_oracles(about) is None {
            assert forall|other: Seq<char>| position(after, (about, other)) is None by {
                lemma_push_positions(before, added, (about, other));
            }
        }
    }
}

/// An adapter that accounts for every confirmation goes on doing so as
/// long as its confirmations and its lists are left alone.
pub proof fn lemma_tracking_is_untouched(pre: OracleAdapter, post: OracleAdapter)
    requires
        pre.well_tracked(),
        post.confirmations == pre.confirmations,
        post.confirming == pre.confirming,
    ensures
        post.well_tracked(),
{
    assert forall|about: Seq<u8>| #[trigger] post.tracks(about) by {
        assert(pre.tracks(about));
    }
}

/// An adapter that accounts for every confirmation goes on doing so when
/// an oracle confirms.
pub proof fn lemma_tracking_is_kept(
    pre: OracleAdapter,
    env: Env,
    oracle: Address,
    escrow_id: Vec<u8>,
    event_type: u32,
    result: Vec<u8>,
    post: OracleAdapter,
)
    requires
        OracleAdapter::confirmed(pre, env, oracle, escrow_id, event_type, result, post),
        pre.well_tracked(),
    ensures
        post.well_tracked(),
{
    assert forall|about: Seq<u8>| #[trigger] post.tracks(about) by {
        assert(pre.tracks(about));
        assert(pre.tracks(escrow_id@));
        lemma_consensus_grows(
            pre,
            env,
            oracle,
            escrow_id,
            event_type,
            result,
            post,
            about,
            Seq::empty(),
        );
    }
}

/// Once confirmed, refused for good: whatever the adapter goes through
/// after an oracle has confirmed an event of an escrow, as long as every
/// step keeps the confirmations, as every operation of the adapter does, it
/// refuses every further confirmation of that escrow by that oracle.
pub proof fn lemma_confirmation_is_refused_for_good(
    history: Seq<OracleAdapter>,
    escrow_id: Seq<u8>,
    oracle: Seq<char>,
    env: Env,
    event_type: u32,
)
    requires
        history.len() >= 1,
        history[0].confirmation_of(escrow_id, oracle) is Some,
        forall|i: int|
            0 <= i < history.len() - 1 ==> OracleAdapter::keeps_confirmations(
                #[trigger] history[i],
                history[i + 1],
            ),
    ensures
        history.last().confirmation_of(escrow_id, oracle) == history[0].confirmation_of(
            escrow_id,
            oracle,
        ),
        history.last().confirm_error(env, oracle, escrow_id, event_type) is Some,
        history.last().data is Some && listed(history.last().registered(), oracle)
            && valid_event_type(event_type) ==> history.last().confirm_error(
            env,
            oracle,
            escrow_id,
            event_type,
        ) == Some(ContractError::ConfirmationAlreadyExists),
    decreases history.len(),
{
    if history.len() > 1 {
        let earlier = history.drop_last();
        assert forall|i: int| 0 <= i < earlier.len() - 1 implies OracleAdapter::keeps_confirmations(
            #[trigger] earlier[i],
            earlier[i + 1],
        ) by {
            assert(OracleAdapter::keeps_confirmations(history[i], history[i + 1]));
        }
        lemma_confirmation_is_refused_for_good(earlier, escrow_id, oracle, env, event_type);
        let n = history.len() as int;
        assert(OracleAdapter::keeps_confirmations(history[n - 2], history[n - 1]));
        assert(earlier.last() == history[n - 2]);
        assert(earlier[0] == history[0]);
    }
}

/// Consensus never falls as more oracles confirm: through any run of
/// confirmations, of whatever escrows and by whatever oracles, the count of
/// the confirmations of an escrow that count toward consensus ends at
/// least where it began, for every set of oracles, and an adapter that
/// accounted for its confirmations at the beginning does so at the end.
pub proof fn lemma_consensus_never_falls(
    history: Seq<OracleAdapter>,
    envs: Seq<Env>,
    oracles: Seq<Address>,
    escrow_ids: Seq<Vec<u8>>,
    event_types: Seq<u32>,
    results: Seq<Vec<u8>>,
    about: Seq<u8>,
    oracle_set: Seq<Address>,
)
    requires
        history.len() == oracles.len() + 1,
        envs.len() == oracles.len(),
        escrow_ids.len() == oracles.len(),
        event_types.len() == oracles.len(),
        results.len() == oracles.len(),
        history[0].well_tracked(),
        forall|i: int|
            0 <= i < oracles.len() ==> OracleAdapter::confirmed(
                #[trigger] history[i],
                envs[i],
                oracles[i],
                escrow_ids[i],
                event_types[i],
                results[i],
                history[i + 1],
            ),
    ensures
        history.last().well_tracked(),
        consensus_count(
            history.last().confirmations_for(about),
            history.last().registered(),
            oracle_set,
        ) >= consensus_count(history[0].confirmations_for(about), history[0].registered(), oracle_set),
    decreases oracles.len(),
{
    if oracles.len() > 0 {
        let n = oracles.len() as int;
        let earlier = history.drop_last();
        assert forall|i: int| 0 <= i < n - 1 implies OracleAdapter::confirmed(
            #[trigger] earlier[i],
            envs.drop_last()[i],
            oracles.drop_last()[i],
            escrow_ids.drop_last()[i],
            event_types.drop_last()[i],
            results.drop_last()[i],
            earlier[i + 1],
        ) by {
            assert(OracleAdapter::confirmed(
                history[i],
                envs[i],
                oracles[i],
                escrow_ids[i],
                event_types[i],
                results[i],
                history[i + 1],
            ));
        }
        lemma_consensus_never_falls(
            earlier,
            envs.drop_last(),
            oracles.drop_last(),
            escrow_ids.drop_last(),
            event_types.drop_last(),
            results.drop_last(),
            about,
            oracle_set,
        );
        assert(earlier.last() == history[n - 1]);
        assert(earlier[0] == history[0]);
        assert(OracleAdapter::confirmed(
            history[n - 1],
            envs[n - 1],
            oracles[n - 1],
            escrow_ids[n - 1],
            event_types[n - 1],
            results[n - 1],
            history[n],
        ));
        assert(history[n - 1].tracks(escrow_ids[n - 1]@));
        lemma_consensus_grows(
            history[n - 1],
            envs[n - 1],
            oracles[n - 1],
            escrow_ids[n - 1],
            event_types[n - 1],
            results[n - 1],
            history[n],
            about,
            oracle_set,
        );
        lemma_tracking_is_kept(
            history[n - 1],
            envs[n - 1],
            oracles[n - 1],
            escrow_ids[n - 1],
            event_types[n - 1],
            results[n - 1],
            history[n],
        );
    }
}

} // verus!
