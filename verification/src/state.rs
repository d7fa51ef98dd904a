//! The states of a session and the transaction status that the server reports.

use vstd::prelude::*;

verus! {

/// Where a session stands. It moves forward only, but between
/// [`SessionState::Ready`] and [`SessionState::AwaitingQueryResponse`], which
/// alternate with each query.
#[derive(Clone, Copy, Debug, PartialEq, Eq, Structural)]
pub enum SessionState {
    /// Nothing has been sent yet.
    Connecting,
    /// The startup message is out; the authentication outcome is due.
    AwaitingAuth,
    /// Authenticated; parameter reports arrive until the key data does.
    AwaitingParameters,
    /// The key data is in; the first ready-for-query is due.
    AwaitingReady,
    /// The server waits for a query.
    Ready,
    /// A query is out and its response is not complete.
    AwaitingQueryResponse,
    /// The session has ended and accepts nothing more.
    Closed,
}

/// The transaction status that a ready-for-query message carries.
#[derive(Clone, Copy, Debug, PartialEq, Eq, Structural)]
pub enum PgSessionStatus {
    /// `I`: not in a transaction.
    Idle,
    /// `T`: in a transaction block.
    DoingTransaction,
    /// `E`: in a failed transaction block.
    ErrorInTransaction,
}

} // verus!
