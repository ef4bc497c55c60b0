use vstd::prelude::*;

verus! {

/// Settings read from the configuration file.
#[derive(Debug, Clone)]
pub struct Config {
    pub database: DatabaseConfig,
    pub queries: Option<QueriesConfig>,
}

/// Where the saved `.sql` files are kept.
#[derive(Debug, Clone)]
pub struct QueriesConfig {
    pub directory: String,
}

/// How to reach and log in to the SQL Server instance.
#[derive(Debug, Clone)]
pub struct DatabaseConfig {
    pub server: String,
    pub port: u16,
    pub user: String,
    pub password: String,
    pub database: String,
    pub trusted_connection: bool,
    pub trust_server_certificate: bool,
}

/// The directory that the file browser lists when none is configured.
pub open spec fn default_queries_directory() -> Seq<char> {
    "queries"@
}

impl Config {
    /// The directory of saved queries: the configured one, else `queries`.
    pub open spec fn spec_queries_directory(&self) -> Seq<char> {
        match self.queries {
            Some(q) => q.directory@,
            None => default_queries_directory(),
        }
    }

    /// The directory of saved queries: the configured one, else `queries`.
    pub fn queries_directory(&self) -> (dir: &str)
        ensures
            dir@ == self.spec_queries_directory(),
    {
        match &self.queries {
            Some(q) => q.directory.as_str(),
            None => "queries",
        }
    }
}

} // verus!
