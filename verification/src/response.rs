//! The service boundary's view of one finished generation request:
//! the identifier or the error kind, and the status it maps to over a
//! request/response protocol.

use vstd::prelude::*;

use crate::node::NodeError;
use crate::snowflake::Snowflake;

verus! {

/// What the service hands back for one generation request: the packed
/// identifier, or the error kind that ended it, distinguishable by
/// tag. Every failure reaches the caller this way; none is swallowed
/// or turned into a default identifier.
#[derive(Clone, Copy, Debug)]
pub enum SnowflakeResponse {
    Snowflake(Snowflake),
    Error(NodeError),
}

impl SnowflakeResponse {
    /// The status such a response maps to over a request/response
    /// protocol: a success status exactly for a generated identifier,
    /// a server-side failure status for every error kind.
    pub fn status_code(&self) -> (r: u16)
        ensures
            r == 200 <==> self is Snowflake,
            self is Error ==> r == 500,
    {
        match self {
            SnowflakeResponse::Snowflake(_) => 200,
            SnowflakeResponse::Error(_) => 500,
        }
    }
}

} // verus!
