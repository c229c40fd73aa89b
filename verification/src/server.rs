//! The server program's first decisions: what the command line asks for,
//! where the configuration comes from, which migrations a database needs.

use vstd::prelude::*;
use vstd::string::StringExecFns;
use crate::api::rejects;
use crate::api::triples_of;
use crate::api::ApiEndpoint;
use crate::api::RpcModule;
use crate::config::ConfigError;
use crate::config::ServerModuleInit;
use crate::registry::ModuleRegistry;
use crate::startup::attach_upto;
use crate::startup::start_consensus_api;
use crate::types::ModuleInstanceId;

verus! {

/// What the command line asks the server to do.
#[derive(Clone, Copy, Debug, PartialEq, Eq)]
pub enum Command {
    /// Print the hash of the source that the program was built from, and
    /// exit with success.
    VersionHash,
    /// Run the server; the arguments go to the configuration parser.
    Serve,
}

/// The characters of `version-hash`.
pub open spec fn version_hash_word() -> Seq<char> {
    seq!['v', 'e', 'r', 's', 'i', 'o', 'n', '-', 'h', 'a', 's', 'h']
}

/// What `args` ask for, `args[0]` being the program's name: the version
/// hash where the first argument proper is `version-hash`, else a run.
pub open spec fn spec_command(args: Seq<String>) -> Command {
    if args.len() >= 2 && args[1]@ == version_hash_word() {
        Command::VersionHash
    } else {
        Command::Serve
    }
}

/// What the command line `args` asks for; see [`spec_command`].
pub fn parse_command(args: &Vec<String>) -> (command: Command)
    ensures
        command == spec_command(args@),
{
    proof {
        reveal_strlit("version-hash");
        assert("version-hash"@ =~= version_hash_word());
    }
    if args.len() >= 2 {
        let word = String::from_str("version-hash");
        if args[1] == word {
            return Command::VersionHash;
        }
    }
    Command::Serve
}

/// Where the server's configuration comes from.
#[derive(Clone, Debug, PartialEq, Eq)]
pub enum ConfigSource {
    /// The sealed configuration in the data directory, opened with this password.
    Stored { password: String },
    /// There is no configuration yet: run the configuration generation.
    Generate,
}

/// Main server of a federation member.
#[derive(Debug)]
pub struct FedimintServer {
    /// Directory in which the configuration is kept.
    pub data_dir: String,
    /// Hash of the source that the program was built from.
    pub version_hash: String,
}

impl FedimintServer {
    pub fn new(data_dir: String, version_hash: String) -> (server: Self)
        ensures
            server.data_dir == data_dir,
            server.version_hash == version_hash,
    {
        FedimintServer { data_dir, version_hash }
    }

    /// The endpoints that are served while consensus is running: the
    /// server's own, then those of each module instance; see
    /// [`start_consensus_api`].
    pub fn spawn_consensus_api(
        server_endpoints: &Vec<ApiEndpoint>,
        modules: &ModuleRegistry,
        inits: &Vec<ServerModuleInit>,
    ) -> (res: Result<RpcModule, ConfigError>)
        ensures
            match res {
                Ok(rpc_module) => rpc_module.wf() && attach_upto(
                    server_endpoints@,
                    modules.entries(),
                    inits@,
                    modules.entries().len() as int,
                ) == Ok::<Seq<(Seq<char>, Option<ModuleInstanceId>, Seq<char>)>, Seq<char>>(
                    triples_of(rpc_module.methods()),
                ),
                Err(e) => attach_upto(
                    server_endpoints@,
                    modules.entries(),
                    inits@,
                    modules.entries().len() as int,
                ) matches Err(path) && rejects(e, path),
            },
    {
        start_consensus_api(server_endpoints, modules, inits)
    }

    /// Where to get the configuration from, given the content of the
    /// password file if there is one: with a password the stored
    /// configuration is opened, without one it is generated first.
    pub fn get_config(password_file: Option<String>) -> (source: ConfigSource)
        ensures
            source == (match password_file {
                Some(password) => ConfigSource::Stored { password },
                None => ConfigSource::Generate,
            }),
    {
        match password_file {
            Some(password) => ConfigSource::Stored { password },
            None => ConfigSource::Generate,
        }
    }
}

/// A database that cannot be brought to the schema that the code expects.
#[derive(Clone, Copy, Debug, PartialEq, Eq)]
pub enum MigrationError {
    /// The database was written by newer code.
    DatabaseTooNew { recorded: u64, current: u64 },
}

/// The migrations that bring a database from the version recorded in it to
/// the version `current`: the migration from `v` to `v + 1` for each `v`
/// of the result `(from, to)` with `from <= v < to`, in increasing order.
///
/// A database without a recorded version is new and needs none.
pub open spec fn spec_pending_migrations(recorded: Option<u64>, current: u64) -> Result<
    (u64, u64),
    MigrationError,
> {
    match recorded {
        None => Ok((current, current)),
        Some(v) => if v > current {
            Err(MigrationError::DatabaseTooNew { recorded: v, current })
        } else {
            Ok((v, current))
        },
    }
}

/// The migrations that a database needs; see [`spec_pending_migrations`].
pub fn pending_migrations(recorded: Option<u64>, current: u64) -> (res: Result<(u64, u64), MigrationError>)
    ensures
        res == spec_pending_migrations(recorded, current),
{
    match recorded {
        None => Ok((current, current)),
        Some(v) => {
            if v > current {
                Err(MigrationError::DatabaseTooNew { recorded: v, current })
            } else {
                Ok((v, current))
            }
        },
    }
}

/// Migrating is idempotent: a database that stands at the current version
/// needs no migration.
pub proof fn lemma_migrated_database_needs_nothing(current: u64)
    ensures
        spec_pending_migrations(Some(current), current) == Ok::<(u64, u64), MigrationError>(
            (current, current),
        ),
{
}

} // verus!
