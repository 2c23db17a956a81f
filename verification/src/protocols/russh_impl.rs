//! SSH connector whose transport is still to come.

use vstd::prelude::*;

use crate::model::profile::ConnectionProfile;
use crate::protocols::error::ProtocolError;
use crate::protocols::mock::{MockSession, MockSftp};
use crate::protocols::traits::{Connector, ResolvedCredentials};

verus! {

/// SSH connector (work in progress).
#[derive(Debug, Clone, Copy, Default)]
pub struct RusshConnector;

impl Connector for RusshConnector {
    // None is ever opened: the types stand in until there is a transport.
    type Session = MockSession;

    type Sftp = MockSftp;

    /// Reports that the transport is not there yet.
    fn connect_shell(&self, profile: &ConnectionProfile, creds: &ResolvedCredentials) -> (r: Result<
        MockSession,
        ProtocolError,
    >)
        ensures
            r == Err::<MockSession, ProtocolError>(
                ProtocolError::NotImplemented(
                    "russh SSH transport — see crates/protocols/src/ssh/russh_impl.rs",
                ),
            ),
    {
        Err(
            ProtocolError::NotImplemented(
                "russh SSH transport — see crates/protocols/src/ssh/russh_impl.rs",
            ),
        )
    }
}

} // verus!
