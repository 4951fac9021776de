//! End-to-end encryption at rest: per-file chunked AEAD framing and the
//! encrypted, versioned MLS state blob.

pub mod crypto;
pub mod fingerprint;
pub mod group_list;
pub mod plain_hash;
pub mod file;
pub mod state;
pub mod trust;

use vstd::prelude::*;
use crate::text::concat_str;

verus! {

#[derive(Clone, PartialEq, Eq, Debug)]
pub enum MlsError {
    Mls(String),
    UnknownGroup(String),
    Evicted,
    Malformed(String),
    GroupExists(String),
    Untrusted(String),
    State(String),
    File(String),
    Io(String),
}

/// The message that describes an error.
pub open spec fn mls_error_message(e: MlsError) -> Seq<char> {
    match e {
        MlsError::Mls(s) => "openmls: "@ + s@,
        MlsError::UnknownGroup(s) => "no MLS group "@ + s@,
        MlsError::Evicted => "this device was removed from the group"@,
        MlsError::Malformed(s) => "malformed MLS payload: "@ + s@,
        MlsError::GroupExists(s) => "this device is already in MLS group "@ + s@,
        MlsError::Untrusted(s) => "refused, the server cannot be trusted for this: "@ + s@,
        MlsError::State(s) => "stored MLS state is unreadable: "@ + s@,
        MlsError::File(s) => "file crypto: "@ + s@,
        MlsError::Io(s) => "io: "@ + s@,
    }
}

impl MlsError {
    /// The human-readable description of the error.
    pub fn message(&self) -> (r: String)
        ensures
            r@ == mls_error_message(*self),
    {
        match self {
            MlsError::Mls(s) => concat_str("openmls: ", s.as_str()),
            MlsError::UnknownGroup(s) => concat_str("no MLS group ", s.as_str()),
            MlsError::Evicted => "this device was removed from the group".to_owned(),
            MlsError::Malformed(s) => concat_str("malformed MLS payload: ", s.as_str()),
            MlsError::GroupExists(s) => concat_str("this device is already in MLS group ", s.as_str()),
            MlsError::Untrusted(s) => concat_str(
                "refused, the server cannot be trusted for this: ",
                s.as_str(),
            ),
            MlsError::State(s) => concat_str("stored MLS state is unreadable: ", s.as_str()),
            MlsError::File(s) => concat_str("file crypto: ", s.as_str()),
            MlsError::Io(s) => concat_str("io: ", s.as_str()),
        }
    }
}

} // verus!
