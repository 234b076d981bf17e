//! The rules of the off-chain mirror of the collateral registry.
//!
//! The mirror keeps a copy of the registry in a relational database and
//! answers queries over it. What it reads and writes is the host's
//! business; what it decides is here: when a collateral may be mirrored,
//! which state a lock puts it in, when it has expired, how long a page may
//! be, and whether a webhook call is let in.

use crate::models::CollateralStatus;
use vstd::prelude::*;

verus! {

/// The page length where the caller names none.
pub const DEFAULT_PAGE_LIMIT: i64 = 50;

/// The longest page.
pub const MAX_PAGE_LIMIT: i64 = 100;

/// Why the mirror refused an operation.
#[derive(Debug, PartialEq, Eq)]
pub enum CollateralError {
    /// The database failed, with its message.
    Database(String),
    NotFound,
    DuplicateMetadata,
    InvalidData,
    Unauthorized,
}

/// Why the mirror refuses a new collateral, if it does: its metadata hash
/// is in the mirror already, `existing` times, or its expiry is not in the
/// future. The hash is looked at first.
pub open spec fn new_collateral_error(existing: i64, expiry_ts: i64, now: i64) -> Option<
    CollateralError,
> {
    if existing > 0 {
        Some(CollateralError::DuplicateMetadata)
    } else if expiry_ts <= now {
        Some(CollateralError::InvalidData)
    } else {
        None
    }
}

/// Whether a collateral may be mirrored: no record in the mirror has its
/// metadata hash, and it expires after `now`.
pub fn check_new_collateral(existing: i64, expiry_ts: i64, now: i64) -> (r: Result<
    (),
    CollateralError,
>)
    ensures
        r is Ok <==> new_collateral_error(existing, expiry_ts, now) is None,
        r is Err ==> Some(r->Err_0) == new_collateral_error(existing, expiry_ts, now),
{
    if existing > 0 {
        return Err(CollateralError::DuplicateMetadata);
    }
    if expiry_ts <= now {
        return Err(CollateralError::InvalidData);
    }
    Ok(())
}

/// Whether a metadata hash that the mirror holds `existing` times is
/// registered.
pub fn metadata_is_registered(existing: i64) -> (r: bool)
    ensures
        r == (existing > 0),
{
    existing > 0
}

/// The state that a change of the lock puts a collateral in.
pub fn status_for_lock(locked: bool) -> (r: CollateralStatus)
    ensures
        r == (if locked {
            CollateralStatus::Locked
        } else {
            CollateralStatus::Active
        }),
{
    if locked {
        CollateralStatus::Locked
    } else {
        CollateralStatus::Active
    }
}

/// Whether the sweep takes a collateral for expired at `current_ts`: its
/// expiry has come and it is still active.
pub fn has_expired(expiry_ts: i64, status: CollateralStatus, current_ts: i64) -> (r: bool)
    ensures
        r == (expiry_ts <= current_ts && status == CollateralStatus::Active),
{
    match status {
        CollateralStatus::Active => expiry_ts <= current_ts,
        _ => false,
    }
}

/// The length of a page: what the caller asks for, `DEFAULT_PAGE_LIMIT`
/// where it asks for nothing, and never more than `MAX_PAGE_LIMIT`.
pub fn page_limit(limit: Option<i64>) -> (r: i64)
    ensures
        r == (match limit {
            Some(l) => if l < MAX_PAGE_LIMIT {
                l
            } else {
                MAX_PAGE_LIMIT
            },
            None => DEFAULT_PAGE_LIMIT,
        }),
        r <= MAX_PAGE_LIMIT,
{
    match limit {
        Some(l) => if l < MAX_PAGE_LIMIT {
            l
        } else {
            MAX_PAGE_LIMIT
        },
        None => DEFAULT_PAGE_LIMIT,
    }
}

/// Where a page starts: where the caller says, at the beginning where it
/// says nothing.
pub fn page_offset(offset: Option<i64>) -> (r: i64)
    ensures
        r == (match offset {
            Some(o) => o,
            None => 0,
        }),
{
    match offset {
        Some(o) => o,
        None => 0,
    }
}

/// What the mirror does with a webhook call.
#[derive(Clone, Copy, Debug, PartialEq, Eq)]
pub enum WebhookGate {
    /// The call carries the secret: it is processed.
    Accepted,
    /// The call carries another secret, or none.
    Unauthorized,
    /// No secret is configured: every call is turned away.
    NotConfigured,
}

/// What the mirror does with a webhook call that carries `presented` as
/// its secret. Without a configured secret, or with an empty one, the
/// mirror fails closed.
pub fn webhook_gate(configured: &Option<String>, presented: &String) -> (r: WebhookGate)
    ensures
        r == (match *configured {
            Some(secret) => if secret@.len() == 0 {
                WebhookGate::NotConfigured
            } else if secret@ == presented@ {
                WebhookGate::Accepted
            } else {
                WebhookGate::Unauthorized
            },
            None => WebhookGate::NotConfigured,
        }),
{
    match configured {
        Some(secret) => {
            if secret.as_str().unicode_len() == 0 {
                WebhookGate::NotConfigured
            } else if *secret == *presented {
                WebhookGate::Accepted
            } else {
                WebhookGate::Unauthorized
            }
        },
        None => WebhookGate::NotConfigured,
    }
}

} // verus!
