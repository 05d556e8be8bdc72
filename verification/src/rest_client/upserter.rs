//! The decisions of the transactional upsert over REST.

use vstd::prelude::*;

verus! {

/// An error of a transactional upsert over REST.
#[derive(Debug, PartialEq)]
pub enum RestKeyValueUpsertTxError {
    /// The response body could not be read.
    ResponseReadError(String),
    /// The server answered with another status than 200: the status and the
    /// response body.
    UnexpectedStatus(u16, String),
    /// The task that sent the rows stopped.
    SendingInterrupted(String),
    /// The rows could not be sent.
    SendingError(String),
}

/// The outcome of a transactional upsert whose rows were all sent, by the
/// server's answer: success on status 200 only, otherwise the status with the
/// response body.
pub fn upsert_outcome(status: u16, body: String) -> (r: Result<(), RestKeyValueUpsertTxError>)
    ensures
        match r {
            Ok(()) => status == 200,
            Err(RestKeyValueUpsertTxError::UnexpectedStatus(s, b)) => status != 200 && s == status && b == body,
            Err(_) => false,
        },
{
    if status == 200 {
        Ok(())
    } else {
        Err(RestKeyValueUpsertTxError::UnexpectedStatus(status, body))
    }
}

} // verus!
