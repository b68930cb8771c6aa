//! The failure taxonomy every operation reports.

use vstd::prelude::*;

verus! {

/// Why a call failed.
///
/// An `Exchange` error carries the service's own `{code, msg}` envelope
/// unaltered; `Transport` carries the raw status and body when no such
/// envelope could be read; `Decode` marks a success body that does not
/// match the expected shape; `Authentication` marks a signed call issued
/// without a secret key, detected before any request is built;
/// `NotFound` marks a derived lookup that matched nothing.
#[derive(Debug, PartialEq, Eq)]
pub enum ClientError {
    Authentication,
    Transport { status: u16, body: Vec<u8> },
    Exchange { code: i64, message: Vec<u8> },
    Decode,
    NotFound,
}

/// The mathematical shape of a failure.
pub enum ClientErrorVal {
    Authentication,
    Transport { status: u16, body: Seq<u8> },
    Exchange { code: i64, message: Seq<u8> },
    Decode,
    NotFound,
}

impl ClientError {
    /// The mathematical value this failure represents.
    pub open spec fn deep(self) -> ClientErrorVal {
        match self {
            ClientError::Authentication => ClientErrorVal::Authentication,
            ClientError::Transport { status, body } => ClientErrorVal::Transport {
                status,
                body: body@,
            },
            ClientError::Exchange { code, message } => ClientErrorVal::Exchange {
                code,
                message: message@,
            },
            ClientError::Decode => ClientErrorVal::Decode,
            ClientError::NotFound => ClientErrorVal::NotFound,
        }
    }
}

} // verus!
