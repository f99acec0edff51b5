//! `Package`: one frame of the protocol.
use vstd::prelude::*;
use crate::auth::{UsernamePassword, CredentialsModel};
use crate::raw::{RawMessage, RawMessageModel};

verus! {

/// Frame in the protocol. On the wire, packets are embedded in frames with a length
/// prefix.
#[derive(Debug, Clone, PartialEq)]
pub struct Package {
    /// Possible authentication data included in the packet. `Some` and `None` values of this
    /// give the first bit of the frame's flags.
    pub authentication: Option<UsernamePassword>,
    /// The 16 bytes of the UUID that correlates a request with its response: the server
    /// responds using the same `correlation_id`.
    pub correlation_id: [u8; 16],
    /// The message carried.
    pub message: RawMessage,
}

/// The contents of a `Package`.
pub struct PackageModel {
    pub authentication: Option<CredentialsModel>,
    pub correlation_id: Seq<u8>,
    pub message: RawMessageModel,
}

/// The view of optional credentials.
pub open spec fn opt_credentials_view(a: Option<UsernamePassword>) -> Option<CredentialsModel> {
    match a {
        Some(c) => Some(c@),
        None => None,
    }
}

impl View for Package {
    type V = PackageModel;

    open spec fn view(&self) -> PackageModel {
        PackageModel {
            authentication: opt_credentials_view(self.authentication),
            correlation_id: self.correlation_id@,
            message: self.message@,
        }
    }
}

} // verus!
