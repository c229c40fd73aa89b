//! Names and plain records of the lightning gateway.

use vstd::prelude::*;
use vstd::string::StringExecFns;

verus! {

/// Request to connect the gateway to the federation that `invite_code` names.
#[derive(Clone, Debug, PartialEq, Eq)]
pub struct ConnectFedPayload {
    pub invite_code: String,
}

/// Request for the gateway's description of itself.
#[derive(Clone, Copy, Debug, PartialEq, Eq)]
pub struct InfoPayload;

/// Makes databases that live in memory.
#[derive(Default, Debug, Clone)]
pub struct MemDbFactory {}

/// Makes databases that live on disk, one file per federation.
#[derive(Default, Debug, Clone)]
pub struct RocksDbFactory {}

/// A way of making the database of a federation client.
#[derive(Debug, Clone)]
pub enum DbFactory {
    Mem(MemDbFactory),
    Rocks(RocksDbFactory),
}

/// An error of the Zebedee gateway extension; the text says what went wrong.
#[derive(Clone, Debug, PartialEq, Eq)]
pub enum ZebedeeGatewayError {
    Error(String),
}

/// The characters of `.db`.
pub open spec fn db_suffix() -> Seq<char> {
    seq!['.', 'd', 'b']
}

/// The characters of `.json`.
pub open spec fn json_suffix() -> Seq<char> {
    seq!['.', 'j', 's', 'o', 'n']
}

impl RocksDbFactory {
    /// Name of the database file of the federation whose id hashes to
    /// `federation_hash`: the hash followed by `.db`.
    pub fn database_file_name(&self, federation_hash: &str) -> (name: String)
        ensures
            name@ == federation_hash@ + db_suffix(),
    {
        proof {
            reveal_strlit(".db");
        }
        let mut name = String::from_str(federation_hash);
        name.append(".db");
        assert(name@ =~= federation_hash@ + db_suffix());
        name
    }
}

/// Builds federation clients for the gateway, keeping each client's
/// configuration and database in one working directory.
#[derive(Debug, Clone)]
pub struct StandardGatewayClientBuilder {
    work_dir: String,
    db_factory: DbFactory,
}

impl StandardGatewayClientBuilder {
    /// The directory in which configurations and databases are kept.
    pub closed spec fn spec_work_dir(&self) -> Seq<char> {
        self.work_dir@
    }

    /// How databases are made.
    pub closed spec fn spec_db_factory(&self) -> DbFactory {
        self.db_factory
    }

    pub fn new(work_dir: String, db_factory: DbFactory) -> (builder: Self)
        ensures
            builder.spec_work_dir() == work_dir@,
            builder.spec_db_factory() == db_factory,
    {
        StandardGatewayClientBuilder { work_dir, db_factory }
    }

    /// The directory in which configurations and databases are kept.
    pub fn work_dir(&self) -> (dir: &String)
        ensures
            dir@ == self.spec_work_dir(),
    {
        &self.work_dir
    }

    /// How databases are made.
    pub fn db_factory(&self) -> (factory: &DbFactory)
        ensures
            *factory == self.spec_db_factory(),
    {
        &self.db_factory
    }

    /// Name of the file that holds the configuration of the federation whose
    /// id hashes to `federation_hash`: the hash followed by `.json`.
    pub fn config_file_name(&self, federation_hash: &str) -> (name: String)
        ensures
            name@ == federation_hash@ + json_suffix(),
    {
        proof {
            reveal_strlit(".json");
        }
        let mut name = String::from_str(federation_hash);
        name.append(".json");
        assert(name@ =~= federation_hash@ + json_suffix());
        name
    }
}

} // verus!
