use laundry_scraper::db::{
    parse_port, DbConfig, DbConfigError, DbType, MigrationSettings, ENV_DB_HOST, ENV_DB_NAME,
    ENV_DB_PASS, ENV_DB_PATH, ENV_DB_PORT, ENV_DB_TYPE, ENV_DB_USER,
};

fn some(text: &str) -> Option<String> {
    Some(text.to_string())
}

fn server(db_type: DbType) -> DbConfig {
    DbConfig {
        db_type,
        host: some("db.example"),
        port: Some(5432),
        db_name: some("laundry"),
        user_name: some("scraper"),
        password: some("hunter2"),
        path: None,
    }
}

#[test]
fn names_of_the_settings() {
    assert_eq!(
        [ENV_DB_TYPE, ENV_DB_HOST, ENV_DB_PORT, ENV_DB_NAME, ENV_DB_USER, ENV_DB_PASS, ENV_DB_PATH],
        ["DB_TYPE", "DB_HOST", "DB_PORT", "DB_NAME", "DB_USER", "DB_PASS", "DB_PATH"]
    );
}

#[test]
fn kinds_of_database() {
    assert_eq!(DbType::from_str("postgres"), Ok(DbType::Postgres));
    assert_eq!(DbType::from_str("Postgres"), Ok(DbType::Postgres));
    assert_eq!(DbType::from_str("POSTGRES"), Ok(DbType::Postgres));
    assert_eq!(DbType::from_str("pgsql "), Ok(DbType::Postgres));
    assert_eq!(DbType::from_str("mssql"), Ok(DbType::Mssql));
    assert_eq!(DbType::from_str("SqlServer"), Ok(DbType::Mssql));
    assert_eq!(DbType::from_str("sqlite"), Ok(DbType::Sqlite));
    assert_eq!(DbType::from_str("SQLite"), Ok(DbType::Sqlite));
}

#[test]
fn unknown_kinds_of_database() {
    assert_eq!(
        DbType::from_str("Oracle"),
        Err("Unknown database type: Oracle".to_string())
    );
    assert_eq!(DbType::from_str(""), Err("Unknown database type: ".to_string()));
    assert_eq!(
        DbType::from_str("pgsql"),
        Err("Unknown database type: pgsql".to_string())
    );
    assert_eq!(
        DbType::from_str(" sqlite"),
        Err("Unknown database type:  sqlite".to_string())
    );
}

#[test]
fn kind_from_a_lower_case_name() {
    assert_eq!(DbType::from_lowercase("sqlite", "SQLITE"), Ok(DbType::Sqlite));
    // the name is taken as it comes: nothing is put in lower case here
    assert_eq!(
        DbType::from_lowercase("SQLITE", "SQLITE"),
        Err("Unknown database type: SQLITE".to_string())
    );
    assert_eq!(
        DbType::from_lowercase("db2", "DB2"),
        Err("Unknown database type: DB2".to_string())
    );
}

#[test]
fn ports() {
    assert_eq!(parse_port("0"), Some(0));
    assert_eq!(parse_port("5432"), Some(5432));
    assert_eq!(parse_port("+1433"), Some(1433));
    assert_eq!(parse_port("00080"), Some(80));
    assert_eq!(parse_port("65535"), Some(65535));
    assert_eq!(parse_port("65536"), None);
    assert_eq!(parse_port("99999999999999999999"), None);
    assert_eq!(parse_port(""), None);
    assert_eq!(parse_port("+"), None);
    assert_eq!(parse_port("-1"), None);
    assert_eq!(parse_port("++1"), None);
    assert_eq!(parse_port(" 80"), None);
    assert_eq!(parse_port("80 "), None);
    assert_eq!(parse_port("8o"), None);
    assert_eq!(parse_port("\u{663}"), None);
}

#[test]
fn ports_agree_with_std() {
    for text in ["0", "7", "+7", "0007", "65535", "65536", "70000", "", "+", "-0", "1e3", "12a"] {
        assert_eq!(parse_port(text), text.parse::<u16>().ok(), "{:?}", text);
    }
    for n in (0..=u16::MAX).step_by(13) {
        assert_eq!(parse_port(&n.to_string()), Some(n));
    }
}

#[test]
fn settings_from_the_environment() {
    let c = DbConfig::from_vars(
        "Postgres",
        some("db.example"),
        some("5432"),
        some("laundry"),
        some("scraper"),
        some("hunter2"),
        None,
    )
    .unwrap();
    assert_eq!(c.db_type, DbType::Postgres);
    assert_eq!(c.host, some("db.example"));
    assert_eq!(c.port, Some(5432));
    assert_eq!(c.db_name, some("laundry"));
    assert_eq!(c.user_name, some("scraper"));
    assert_eq!(c.password, some("hunter2"));
    assert_eq!(c.path, None);
}

#[test]
fn a_port_that_is_empty_or_not_set_is_no_port() {
    let c = DbConfig::from_vars("sqlite", None, some(""), None, None, None, some("db.sqlite"))
        .unwrap();
    assert_eq!(c.db_type, DbType::Sqlite);
    assert_eq!(c.port, None);
    assert_eq!(c.path, some("db.sqlite"));
    let c = DbConfig::from_vars("sqlite", None, None, None, None, None, None).unwrap();
    assert_eq!(c.port, None);
}

#[test]
fn settings_that_cannot_be_read() {
    let r = DbConfig::from_vars("oracle", None, some("x"), None, None, None, None);
    assert_eq!(r.err(), Some(DbConfigError::UnknownDbType));
    let r = DbConfig::from_vars("mssql", None, some("x"), None, None, None, None);
    assert_eq!(r.err(), Some(DbConfigError::InvalidPort));
    let r = DbConfig::from_vars("mssql", None, some("65536"), None, None, None, None);
    assert_eq!(r.err(), Some(DbConfigError::InvalidPort));
}

#[test]
fn migrations_of_a_file() {
    let mut c = server(DbType::Sqlite);
    c.path = some("/var/lib/laundry.db");
    match c.migration_settings() {
        Ok(MigrationSettings::File { path }) => assert_eq!(path, "/var/lib/laundry.db"),
        _ => panic!("not a file"),
    }
    c.path = None;
    assert_eq!(c.migration_settings().err(), some("Missing path"));
}

#[test]
fn migrations_of_a_server() {
    for (kind, trusted) in [(DbType::Postgres, false), (DbType::Mssql, true)] {
        match server(kind).migration_settings() {
            Ok(MigrationSettings::Server {
                db_type,
                host,
                port,
                db_name,
                user_name,
                password,
                trust_cert,
            }) => {
                assert_eq!(db_type, kind);
                assert_eq!(host, "db.example");
                assert_eq!(port, "5432");
                assert_eq!(db_name, "laundry");
                assert_eq!(user_name, "scraper");
                assert_eq!(password, "hunter2");
                assert_eq!(trust_cert, trusted);
            }
            _ => panic!("not a server"),
        }
    }
}

#[test]
fn migrations_name_the_first_setting_that_is_missing() {
    let mut c = server(DbType::Postgres);
    c.password = None;
    assert_eq!(c.migration_settings().err(), some("MISSING 'DB_PASS'"));
    c.user_name = None;
    assert_eq!(c.migration_settings().err(), some("MISSING 'DB_USER'"));
    c.db_name = None;
    assert_eq!(c.migration_settings().err(), some("MISSING 'DB_NAME'"));
    c.port = None;
    assert_eq!(c.migration_settings().err(), some("MISSING 'DB_PORT'"));
    c.host = None;
    assert_eq!(c.migration_settings().err(), some("MISSING 'DB_HOST'"));
}

#[test]
fn pool_of_a_file() {
    let mut c = server(DbType::Sqlite);
    assert_eq!(c.sqlite_path(), Err("Could not find path".to_string()));
    c.path = some("laundry.db");
    assert_eq!(c.sqlite_path(), Ok("laundry.db".to_string()));
    c.db_type = DbType::Postgres;
    assert_eq!(c.sqlite_path(), Err("DbType is not sqlite".to_string()));
}

#[test]
fn pool_of_postgres() {
    let mut c = server(DbType::Postgres);
    c.host = None;
    c.port = None;
    let s = c.postgres_settings().ok().unwrap();
    assert_eq!(s.host, None);
    assert_eq!(s.port, None);
    assert_eq!(s.db_name, some("laundry"));
    assert_eq!(s.user_name, some("scraper"));
    assert_eq!(s.password, some("hunter2"));
    assert_eq!(
        server(DbType::Mssql).postgres_settings().err(),
        some("DbType is not postgres")
    );
}

#[test]
fn pool_of_sql_server() {
    let mut c = server(DbType::Mssql);
    c.port = None;
    let s = c.mssql_settings().ok().unwrap();
    assert_eq!(s.host, "db.example");
    assert_eq!(s.db_name, "laundry");
    assert_eq!(s.user_name, "scraper");
    assert_eq!(s.password, "hunter2");
    assert_eq!(s.port, None);
    c.password = None;
    assert_eq!(c.mssql_settings().err(), some("Missing Password"));
    c.user_name = None;
    assert_eq!(c.mssql_settings().err(), some("Missing username"));
    c.db_name = None;
    assert_eq!(c.mssql_settings().err(), some("Missing db_name"));
    c.host = None;
    assert_eq!(c.mssql_settings().err(), some("Missing host"));
    assert_eq!(
        server(DbType::Sqlite).mssql_settings().err(),
        some("DbType is not Mssql")
    );
}
