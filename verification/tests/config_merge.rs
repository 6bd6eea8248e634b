use planning_poker::config::{Config, DatabaseConfig};

#[test]
fn defaults_match_the_documented_values() {
    let c = Config::default();
    assert_eq!(c.server.host, "0.0.0.0");
    assert_eq!(c.server.port, 8080);
    assert_eq!(c.server.cors_origins, vec!["*"]);
    assert!(c.database_url.is_none());
    assert_eq!(c.logging.level, "info");
    assert_eq!(c.logging.format, "pretty");

    let db = DatabaseConfig::default();
    assert_eq!(db.database_url, "sqlite://planning_poker.db");
    assert_eq!(db.max_connections, 10);
    assert_eq!(db.connection_timeout_secs, 30);
}

#[test]
fn merge_takes_only_the_fields_the_environment_changed() {
    let mut base = Config::default();
    base.server.host = "10.0.0.1".to_string();
    base.server.port = 9000;
    base.database_url = Some("sqlite://base.db".to_string());
    base.logging.level = "warn".to_string();

    // The environment layer left everything at its default: nothing moves.
    let merged = base.merge_with_env(Config::default());
    assert_eq!(merged.server.host, "10.0.0.1");
    assert_eq!(merged.server.port, 9000);
    assert_eq!(merged.database_url.as_deref(), Some("sqlite://base.db"));
    assert_eq!(merged.logging.level, "warn");

    // The environment layer set everything: every field moves.
    let mut env = Config::default();
    env.server.host = "127.0.0.1".to_string();
    env.server.port = 3000;
    env.database_url = Some("postgres://env".to_string());
    env.logging.level = "debug".to_string();
    let merged = merged.merge_with_env(env);
    assert_eq!(merged.server.host, "127.0.0.1");
    assert_eq!(merged.server.port, 3000);
    assert_eq!(merged.database_url.as_deref(), Some("postgres://env"));
    assert_eq!(merged.logging.level, "debug");
    // Fields the merge never touches keep their base values.
    assert_eq!(merged.server.cors_origins, vec!["*"]);
    assert_eq!(merged.logging.format, "pretty");
}
