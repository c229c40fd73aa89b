//! What a server is configured with, and how a configuration can be wrong.

use vstd::prelude::*;
use vstd::string::StringExecFns;
use crate::api::decimal;
use crate::api::decimal_string;
use crate::api::ApiEndpoint;
use crate::types::ModuleInstanceId;
use crate::types::ModuleKind;
use crate::types::PeerId;

verus! {

/// A configured module instance.
#[derive(Debug, Clone, PartialEq, Eq)]
pub struct ModuleConfig {
    pub id: ModuleInstanceId,
    pub kind: ModuleKind,
}

/// The part of a server's configuration that the consensus core reads.
pub struct ServerConfig {
    /// This server's own peer id.
    pub identity: PeerId,
    /// Number of federation members.
    pub num_peers: u16,
    /// Compressed encoding of the key that epoch signatures are checked against.
    pub epoch_pk: [u8; 48],
    /// The module instances to run.
    pub modules: Vec<ModuleConfig>,
}

/// What the server knows about one kind of module: how to start it and
/// which API endpoints its instances serve.
pub struct ServerModuleInit {
    pub kind: ModuleKind,
    /// Schema version that instances of this kind expect of their database.
    pub database_version: u64,
    /// The endpoints that an instance serves.
    pub endpoints: Vec<ApiEndpoint>,
}

/// A fault in the configuration. It is found while the server starts, and
/// the server then does not start.
#[derive(Debug, PartialEq, Eq)]
pub enum ConfigError {
    /// A module instance is configured with a kind that this server cannot run.
    UnsupportedModule { id: ModuleInstanceId },
    /// Two module instances are configured under one id.
    DuplicateModule { id: ModuleInstanceId },
    /// An endpoint's path is empty or holds a character other than `0-9`, `a-z`, `_`.
    BadEndpointPath { path: String },
    /// Two endpoints would be served under one path.
    DuplicateEndpoint { path: String },
}

impl ConfigError {
    /// What [`ConfigError::message`] says.
    pub open spec fn spec_message(self) -> Seq<char> {
        match self {
            ConfigError::UnsupportedModule { id } => {
                "Detected configuration for unsupported module id: "@ + decimal(id as nat)
            },
            ConfigError::DuplicateModule { id } => {
                "Detected configuration for repeated module id: "@ + decimal(id as nat)
            },
            ConfigError::BadEndpointPath { path } => "Constructing bad path name "@ + path@,
            ConfigError::DuplicateEndpoint { path } => "Failed to register method "@ + path@,
        }
    }

    /// The fault in words, for the operator.
    pub fn message(&self) -> (text: String)
        ensures
            text@ == self.spec_message(),
    {
        match self {
            ConfigError::UnsupportedModule { id } => {
                let mut text = String::from_str("Detected configuration for unsupported module id: ");
                text.append(decimal_string(*id).as_str());
                text
            },
            ConfigError::DuplicateModule { id } => {
                let mut text = String::from_str("Detected configuration for repeated module id: ");
                text.append(decimal_string(*id).as_str());
                text
            },
            ConfigError::BadEndpointPath { path } => {
                let mut text = String::from_str("Constructing bad path name ");
                text.append(path.as_str());
                text
            },
            ConfigError::DuplicateEndpoint { path } => {
                let mut text = String::from_str("Failed to register method ");
                text.append(path.as_str());
                text
            },
        }
    }
}

} // verus!
