//! The ledger context of a call: who is calling, and when.
//!
//! The registries never reach for a clock or a signature themselves. The
//! host hands each operation an [`Env`] that carries the ledger time and the
//! principals that have authorized this very call.

use vstd::prelude::*;

verus! {

/// A principal on the ledger, named by its address string.
///
/// Two addresses name the same principal when their strings are equal, so
/// contracts speak of an address through its view, the sequence of
/// characters.
#[derive(Debug, PartialEq, Eq)]
pub struct Address {
    pub strkey: String,
}

impl View for Address {
    type V = Seq<char>;

    open spec fn view(&self) -> Seq<char> {
        self.strkey@
    }
}

impl Clone for Address {
    fn clone(&self) -> (r: Self)
        ensures
            r == *self,
    {
        Address { strkey: self.strkey.clone() }
    }
}

impl Address {
    /// The address with the given string.
    pub fn new(strkey: String) -> (r: Address)
        ensures
            r.strkey == strkey,
    {
        Address { strkey }
    }

    /// The address with the given string.
    pub fn from_str(strkey: &str) -> (r: Address)
        ensures
            r@ == strkey@,
    {
        Address { strkey: strkey.to_owned() }
    }

    /// Whether the two addresses name the same principal.
    pub fn same(&self, other: &Address) -> (r: bool)
        ensures
            r == (self@ == other@),
    {
        self.strkey == other.strkey
    }
}

/// Whether the principal `who` is among `list`.
pub open spec fn listed(list: Seq<Address>, who: Seq<char>) -> bool {
    exists|i: int| 0 <= i < list.len() && (#[trigger] list[i])@ == who
}

/// Adding a principal to a list lists that principal and no other new one.
pub proof fn lemma_push_listed(list: Seq<Address>, who: Address)
    ensures
        forall|other: Seq<char>|
            listed(list.push(who), other) == (listed(list, other) || other == who@),
{
    let longer = list.push(who);
    assert forall|other: Seq<char>|
        listed(longer, other) == (listed(list, other) || other == who@) by {
        if listed(list, other) {
            let i = choose|i: int| 0 <= i < list.len() && (#[trigger] list[i])@ == other;
            assert(longer[i]@ == other);
        }
        if other == who@ {
            assert(longer[list.len() as int]@ == other);
        }
        if listed(longer, other) {
            let i = choose|i: int| 0 <= i < longer.len() && (#[trigger] longer[i])@ == other;
            if i < list.len() {
                assert(list[i]@ == other);
            }
        }
    }
}

/// Whether `who` is among `list`.
pub fn contains_address(list: &Vec<Address>, who: &Address) -> (r: bool)
    ensures
        r == listed(list@, who@),
{
    let mut i: usize = 0;
    while i < list.len()
        invariant
            i <= list.len(),
            forall|j: int| 0 <= j < i ==> (#[trigger] list@[j])@ != who@,
        decreases list.len() - i,
    {
        if list[i].same(who) {
            return true;
        }
        i += 1;
    }
    false
}

/// The ledger context of one call.
#[derive(Debug)]
pub struct Env {
    /// The ledger's time, in seconds.
    pub timestamp: u64,
    /// The principals that have authorized this call.
    pub authorized: Vec<Address>,
}

impl Env {
    /// Whether the principal `who` has authorized this call.
    pub open spec fn authorizes(&self, who: Seq<char>) -> bool {
        listed(self.authorized@, who)
    }

    /// The context of a call at ledger time `timestamp` that nobody has
    /// authorized yet.
    pub fn new(timestamp: u64) -> (r: Env)
        ensures
            r.timestamp == timestamp,
            r.authorized@ == Seq::<Address>::empty(),
            forall|who: Seq<char>| !r.authorizes(who),
    {
        Env { timestamp, authorized: Vec::new() }
    }

    /// The ledger's time.
    pub fn timestamp(&self) -> (r: u64)
        ensures
            r == self.timestamp,
    {
        self.timestamp
    }

    /// Moves the ledger's time to `timestamp`.
    pub fn set_timestamp(&mut self, timestamp: u64)
        ensures
            final(self).timestamp == timestamp,
            final(self).authorized == old(self).authorized,
    {
        self.timestamp = timestamp;
    }

    /// Records that `who` has authorized this call.
    pub fn authorize(&mut self, who: Address)
        ensures
            final(self).timestamp == old(self).timestamp,
            final(self).authorized@ == old(self).authorized@.push(who),
            forall|other: Seq<char>|
                final(self).authorizes(other) == (old(self).authorizes(other) || other == who@),
    {
        proof {
            lemma_push_listed(self.authorized@, who);
        }
        self.authorized.push(who);
    }

    /// Whether `who` has authorized this call.
    pub fn is_authorized(&self, who: &Address) -> (r: bool)
        ensures
            r == self.authorizes(who@),
    {
        contains_address(&self.authorized, who)
    }
}

/// Whether the two byte strings are equal.
pub fn bytes_equal(a: &Vec<u8>, b: &Vec<u8>) -> (r: bool)
    ensures
        r == (a@ == b@),
{
    if a.len() != b.len() {
        return false;
    }
    let mut i: usize = 0;
    while i < a.len()
        invariant
            i <= a.len(),
            a.len() == b.len(),
            forall|j: int| 0 <= j < i ==> a@[j] == b@[j],
        decreases a.len() - i,
    {
        if a[i] != b[i] {
            return false;
        }
        i += 1;
    }
    assert(a@ =~= b@);
    true
}

/// Whether the two 32-byte digests are equal.
pub fn digest_equal(a: &[u8; 32], b: &[u8; 32]) -> (r: bool)
    ensures
        r == (*a == *b),
        r == (a@ == b@),
{
    let mut i: usize = 0;
    while i < 32
        invariant
            i <= 32,
            forall|j: int| 0 <= j < i ==> a@[j] == b@[j],
        decreases 32 - i,
    {
        if a[i] != b[i] {
            return false;
        }
        i += 1;
    }
    assert(*a =~= *b);
    true
}

/// A copy of the byte string.
pub fn copy_bytes(a: &Vec<u8>) -> (r: Vec<u8>)
    ensures
        r@ == a@,
{
    let r = a.clone();
    assert(r@ =~= a@);
    r
}

} // verus!
