//! The HTTP status codes the service answers with.

use vstd::prelude::*;

verus! {

/// Status of a reply.
#[derive(Clone, Copy, Debug, PartialEq, Eq, Structural)]
pub enum Status {
    /// 200: a stored file is returned.
    Success,
    /// 202: an upload was stored.
    Accepted,
    /// 400: the upload held no file part.
    BadRequest,
    /// 401: the request did not carry a configured token.
    Unauthorized,
    /// 404: nothing is stored under the requested path.
    NotFound,
    /// 500: reading the upload or writing it to storage failed.
    InternalServerError,
}

impl Status {
    /// The numeric code of each status.
    pub open spec fn spec_code(self) -> u16 {
        match self {
            Status::Success => 200,
            Status::Accepted => 202,
            Status::BadRequest => 400,
            Status::Unauthorized => 401,
            Status::NotFound => 404,
            Status::InternalServerError => 500,
        }
    }

    /// The numeric code to put on the wire.
    #[verifier::when_used_as_spec(spec_code)]
    pub fn code(self) -> (r: u16)
        ensures
            r == self.spec_code(),
    {
        match self {
            Status::Success => 200,
            Status::Accepted => 202,
            Status::BadRequest => 400,
            Status::Unauthorized => 401,
            Status::NotFound => 404,
            Status::InternalServerError => 500,
        }
    }
}

} // verus!
