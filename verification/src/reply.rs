//! The outcome of a request, as the HTTP status that answers it.

use vstd::prelude::*;

verus! {

/// The status with which a request is answered.
#[derive(Clone, Copy, Debug, PartialEq, Eq, Structural)]
pub enum Reply {
    /// 200: done.
    Success,
    /// 400: the request names nothing that exists, or is malformed.
    BadRequest,
    /// 401: the caller is not logged in, or the credentials are wrong.
    Unauthorized,
    /// 409: what the request would create exists already.
    Conflict,
}

} // verus!
