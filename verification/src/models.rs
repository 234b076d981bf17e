//! The records of the off-chain mirror, as far as they are plain values:
//! the states that a mirrored record can be in, and the envelope in which
//! the mirror answers.

use vstd::prelude::*;

verus! {

/// What a user of the platform is.
#[derive(Clone, Copy, Debug, PartialEq, Eq)]
pub enum UserRole {
    Buyer,
    Seller,
    Oracle,
    Admin,
}

/// Where a mirrored escrow stands.
#[derive(Clone, Copy, Debug, PartialEq, Eq)]
pub enum EscrowStatus {
    Pending,
    Active,
    Released,
    Cancelled,
}

/// The kinds of asset that back collateral.
#[derive(Clone, Copy, Debug, PartialEq, Eq)]
pub enum AssetType {
    Invoice,
    Commodity,
    Receivable,
}

/// Where a mirrored collateral token stands.
#[derive(Clone, Copy, Debug, PartialEq, Eq)]
pub enum TokenStatus {
    Active,
    /// Locked in an escrow.
    Locked,
    Burned,
}

/// Where a mirrored collateral stands.
#[derive(Clone, Copy, Debug, PartialEq, Eq)]
pub enum CollateralStatus {
    Active,
    Locked,
    Expired,
    Burned,
}

/// The kinds of transaction that the mirror records.
#[derive(Clone, Copy, Debug, PartialEq, Eq)]
pub enum TransactionType {
    Tokenize,
    EscrowCreate,
    EscrowRelease,
    Transfer,
}

/// Where a recorded transaction stands.
#[derive(Clone, Copy, Debug, PartialEq, Eq)]
pub enum TransactionStatus {
    Pending,
    Confirmed,
    Failed,
}

/// The envelope of every answer of the mirror: either the data, or the
/// reason why there is none.
#[derive(Debug, PartialEq, Eq)]
pub struct ApiResponse<T> {
    pub success: bool,
    pub data: Option<T>,
    pub error: Option<String>,
}

impl<T> ApiResponse<T> {
    /// Whether the envelope holds exactly one of the two: data with
    /// `success`, or an error without.
    pub open spec fn well_formed(&self) -> bool {
        if self.success {
            self.data is Some && self.error is None
        } else {
            self.data is None && self.error is Some
        }
    }

    /// The answer that carries `data`.
    pub fn ok(data: T) -> (r: ApiResponse<T>)
        ensures
            r.success,
            r.data == Some(data),
            r.error is None,
            r.well_formed(),
    {
        ApiResponse { success: true, data: Some(data), error: None }
    }

    /// The answer that carries the reason of a failure.
    pub fn failure(error: String) -> (r: ApiResponse<T>)
        ensures
            !r.success,
            r.data is None,
            r.error == Some(error),
            r.well_formed(),
    {
        ApiResponse { success: false, data: None, error: Some(error) }
    }
}

/// The page that a caller asks for.
#[derive(Clone, Copy, Debug, PartialEq, Eq)]
pub struct PaginationParams {
    pub page: Option<i32>,
    pub limit: Option<i32>,
}

/// One page of an answer.
#[derive(Debug, PartialEq, Eq)]
pub struct PaginatedResponse<T> {
    pub data: Vec<T>,
    pub total: i64,
    pub page: i32,
    pub limit: i32,
}

} // verus!
