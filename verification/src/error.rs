//! The kinds of failure a request can end in, and how the boundary reports them.

use vstd::prelude::*;

verus! {

/// A node call that did not produce an answer.
#[derive(Clone, Copy, Debug, PartialEq, Eq, Structural)]
pub struct CallFailed;

/// How a request failed. The kinds are kept apart so that the boundary can
/// signal each in its own way.
#[derive(Clone, Copy, Debug, PartialEq, Eq, Structural)]
pub enum ErrorKind {
    /// The caller's input was rejected before any node call.
    InvalidInput,
    /// There is no connection to the node, or the node lacks what the request needs.
    ServiceUnavailable,
    /// A node call failed where no retry is defined.
    UpstreamError,
}

impl ErrorKind {
    /// The HTTP status that stands for each kind.
    pub open spec fn status(self) -> u16 {
        match self {
            ErrorKind::InvalidInput => 400,
            ErrorKind::ServiceUnavailable => 503,
            ErrorKind::UpstreamError => 500,
        }
    }

    /// The HTTP status to answer with.
    pub fn http_status(&self) -> (code: u16)
        ensures
            code == self.status(),
    {
        match self {
            ErrorKind::InvalidInput => 400,
            ErrorKind::ServiceUnavailable => 503,
            ErrorKind::UpstreamError => 500,
        }
    }
}

/// Refuses a request when the process holds no node connection.
pub fn require_connection(connected: bool) -> (r: Result<(), ErrorKind>)
    ensures
        r == if connected {
            Ok::<(), ErrorKind>(())
        } else {
            Err::<(), ErrorKind>(ErrorKind::ServiceUnavailable)
        },
{
    if connected {
        Ok(())
    } else {
        Err(ErrorKind::ServiceUnavailable)
    }
}

/// Distinct kinds never share a status.
pub proof fn statuses_are_distinct(a: ErrorKind, b: ErrorKind)
    ensures
        a.status() == b.status() <==> a == b,
{
}

} // verus!
