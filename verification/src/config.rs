//! Application configuration and the rules for layering an
//! environment-derived configuration over a base one.

use vstd::prelude::*;

verus! {

/// Where the server listens and which origins it trusts.
#[derive(Debug, PartialEq, Eq)]
pub struct ServerConfig {
    pub host: String,
    pub port: u16,
    pub cors_origins: Vec<String>,
}

/// How the application logs.
#[derive(Debug, PartialEq, Eq)]
pub struct LoggingConfig {
    pub level: String,
    pub format: String,
}

/// The application configuration.
#[derive(Debug, PartialEq, Eq)]
pub struct Config {
    pub server: ServerConfig,
    pub database_url: Option<String>,
    pub logging: LoggingConfig,
}

impl Default for Config {
    /// The built-in defaults: listen everywhere on port 8080, allow every
    /// origin, no database URL, pretty logging at `info`.
    fn default() -> (r: Self)
        ensures
            r.server.host@ == "0.0.0.0"@,
            r.server.port == 8080,
            r.server.cors_origins@.len() == 1,
            r.server.cors_origins@[0]@ == "*"@,
            r.database_url is None,
            r.logging.level@ == "info"@,
            r.logging.format@ == "pretty"@,
    {
        let mut cors_origins: Vec<String> = Vec::new();
        cors_origins.push("*".to_owned());
        Config {
            server: ServerConfig { host: "0.0.0.0".to_owned(), port: 8080, cors_origins },
            database_url: None,
            logging: LoggingConfig { level: "info".to_owned(), format: "pretty".to_owned() },
        }
    }
}

impl Config {
    /// Lays an environment-derived configuration over `self`: a field of
    /// `env_config` wins exactly when it differs from the built-in default,
    /// which is how a value read from the environment is recognized.
    pub fn merge_with_env(self, env_config: Config) -> (r: Self)
        ensures
            env_config.server.host@ != "0.0.0.0"@ ==> r.server.host == env_config.server.host,
            env_config.server.host@ == "0.0.0.0"@ ==> r.server.host == self.server.host,
            env_config.server.port != 8080 ==> r.server.port == env_config.server.port,
            env_config.server.port == 8080 ==> r.server.port == self.server.port,
            env_config.database_url is Some ==> r.database_url == env_config.database_url,
            env_config.database_url is None ==> r.database_url == self.database_url,
            env_config.logging.level@ != "info"@ ==> r.logging.level == env_config.logging.level,
            env_config.logging.level@ == "info"@ ==> r.logging.level == self.logging.level,
            r.server.cors_origins == self.server.cors_origins,
            r.logging.format == self.logging.format,
    {
        let mut merged = self;
        if !(env_config.server.host == "0.0.0.0".to_owned()) {
            merged.server.host = env_config.server.host;
        }
        if env_config.server.port != 8080 {
            merged.server.port = env_config.server.port;
        }
        if env_config.database_url.is_some() {
            merged.database_url = env_config.database_url;
        }
        if !(env_config.logging.level == "info".to_owned()) {
            merged.logging.level = env_config.logging.level;
        }
        merged
    }
}

/// Connection parameters for the game store.
#[derive(Debug, PartialEq, Eq)]
pub struct DatabaseConfig {
    pub database_url: String,
    pub max_connections: u32,
    /// Connection timeout, in seconds.
    pub connection_timeout_secs: u64,
}

impl Default for DatabaseConfig {
    /// A local SQLite file, ten connections, thirty seconds.
    fn default() -> (r: Self)
        ensures
            r.database_url@ == "sqlite://planning_poker.db"@,
            r.max_connections == 10,
            r.connection_timeout_secs == 30,
    {
        DatabaseConfig {
            database_url: "sqlite://planning_poker.db".to_owned(),
            max_connections: 10,
            connection_timeout_secs: 30,
        }
    }
}

} // verus!
