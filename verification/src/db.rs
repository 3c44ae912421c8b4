//! Which database to use, and what each driver needs to be told.
//!
//! The settings come as texts from the environment. Here they are parsed and
//! checked; opening the pool and running the migrations is the caller's.

use crate::url::{decimal, push_decimal};
use vstd::prelude::*;
use vstd::string::*;

verus! {

/// Name of the setting for the kind of database.
pub const ENV_DB_TYPE: &'static str = "DB_TYPE";

/// Name of the setting for the host name or address.
pub const ENV_DB_HOST: &'static str = "DB_HOST";

/// Name of the setting for the port.
pub const ENV_DB_PORT: &'static str = "DB_PORT";

/// Name of the setting for the database.
pub const ENV_DB_NAME: &'static str = "DB_NAME";

/// Name of the setting for the user.
pub const ENV_DB_USER: &'static str = "DB_USER";

/// Name of the setting for the password.
pub const ENV_DB_PASS: &'static str = "DB_PASS";

/// Name of the setting for the file of an SQLite database.
pub const ENV_DB_PATH: &'static str = "DB_PATH";

/// The kind of database.
#[derive(Clone, Copy, PartialEq, Eq, Structural, Hash, Debug)]
#[non_exhaustive]
pub enum DbType {
    Postgres,
    Sqlite,
    Mssql,
}

/// The settings of the database, as configured.
#[derive(Clone)]
pub struct DbConfig {
    pub db_type: DbType,
    pub host: Option<String>,
    pub port: Option<u16>,
    pub db_name: Option<String>,
    pub user_name: Option<String>,
    pub password: Option<String>,
    pub path: Option<String>,
}

/// The lower-case form of a text, as `str::to_lowercase` gives it.
pub uninterp spec fn lowercase(text: Seq<char>) -> Seq<char>;

/// Calls `str::to_lowercase`. Nothing is proved of the Unicode mapping: the
/// contract only names its result, which depends on the text alone.
#[verifier::external_body]
fn to_lowercase(text: &str) -> (lower: String)
    ensures
        lower@ == lowercase(text@),
{
    text.to_lowercase()
}

/// The kind of database that a lower-case name stands for.
pub open spec fn db_type_of(lower: Seq<char>) -> Option<DbType> {
    if lower == "postgres"@ || lower == "pgsql "@ {
        Some(DbType::Postgres)
    } else if lower == "mssql"@ || lower == "sqlserver"@ {
        Some(DbType::Mssql)
    } else if lower == "sqlite"@ {
        Some(DbType::Sqlite)
    } else {
        None
    }
}

/// The value of a text of decimal digits.
pub open spec fn digits_value(digits: Seq<char>) -> nat
    decreases digits.len(),
{
    if digits.len() == 0 {
        0
    } else {
        digits_value(digits.drop_last()) * 10 + (digits.last() as nat - 48) as nat
    }
}

/// Whether every character is a decimal digit.
pub open spec fn all_digits(digits: Seq<char>) -> bool {
    forall|i: int| 0 <= i < digits.len() ==> 48 <= #[trigger] digits[i] as int <= 57
}

/// A text without its leading plus sign, if it has one.
pub open spec fn unsigned_part(text: Seq<char>) -> Seq<char> {
    if text.len() > 0 && text[0] == '+' {
        text.skip(1)
    } else {
        text
    }
}

/// The port that a text stands for: decimal digits, at least one, which a
/// plus sign may precede, with a value of at most 65535.
pub open spec fn port_of(text: Seq<char>) -> Option<u16> {
    let digits = unsigned_part(text);
    if digits.len() > 0 && all_digits(digits) && digits_value(digits) <= 65535 {
        Some(digits_value(digits) as u16)
    } else {
        None
    }
}

/// What went wrong with the settings.
#[derive(Debug, Clone, Copy, PartialEq, Eq, Structural)]
pub enum DbConfigError {
    /// The kind of database is none of the known ones.
    UnknownDbType,
    /// The port is not a number from 0 to 65535.
    InvalidPort,
}

/// A text of digits is worth at least as much as any of its beginnings.
proof fn lemma_digits_value_grows(digits: Seq<char>, i: int)
    requires
        0 <= i <= digits.len(),
    ensures
        digits_value(digits.take(i)) <= digits_value(digits),
    decreases digits.len() - i,
{
    if i < digits.len() {
        assert(digits.take(i + 1).drop_last() == digits.take(i));
        lemma_digits_value_grows(digits, i + 1);
    } else {
        assert(digits.take(i) == digits);
    }
}

/// The port that a text stands for.
pub fn parse_port(text: &str) -> (port: Option<u16>)
    ensures
        port == port_of(text@),
{
    let n = text.unicode_len();
    let start: usize = if n > 0 && text.get_char(0) == '+' {
        1
    } else {
        0
    };
    let ghost digits = unsigned_part(text@);
    assert(digits == text@.skip(start as int));
    if start == n {
        return None;
    }
    let mut value: u32 = 0;
    let mut i: usize = start;
    while i < n
        invariant
            start <= i <= n,
            n == text@.len(),
            digits == text@.skip(start as int),
            digits == unsigned_part(text@),
            digits.len() == n - start,
            forall|j: int| 0 <= j < i - start ==> 48 <= #[trigger] digits[j] as int <= 57,
            value == digits_value(digits.take(i - start)),
            value <= 65535,
        decreases n - i,
    {
        let c = text.get_char(i);
        assert(c == digits[i - start]);
        if !(c >= '0' && c <= '9') {
            assert(!(48 <= digits[i - start] as int <= 57));
            return None;
        }
        assert(digits.take(i - start + 1).drop_last() == digits.take(i - start));
        assert(digits.take(i - start + 1).last() == c);
        value = value * 10 + (c as u32 - 48);
        assert(value == digits_value(digits.take(i - start + 1)));
        if value > 65535 {
            proof {
                lemma_digits_value_grows(digits, i - start + 1);
            }
            return None;
        }
        i = i + 1;
    }
    assert(digits.take(n - start) == digits);
    Some(value as u16)
}

impl DbType {
    /// The kind of database that a name stands for once it is in lower case;
    /// the error names the text as it was given.
    pub fn from_lowercase(lower: &str, value: &str) -> (result: Result<DbType, String>)
        ensures
            match result {
                Ok(db_type) => db_type_of(lower@) == Some(db_type),
                Err(message) => db_type_of(lower@) is None && message@
                    == "Unknown database type: "@ + value@,
            },
    {
        let name = String::from_str(lower);
        if name == String::from_str("postgres") || name == String::from_str("pgsql ") {
            Ok(DbType::Postgres)
        } else if name == String::from_str("mssql") || name == String::from_str("sqlserver") {
            Ok(DbType::Mssql)
        } else if name == String::from_str("sqlite") {
            Ok(DbType::Sqlite)
        } else {
            let mut message = String::from_str("Unknown database type: ");
            message.append(value);
            Err(message)
        }
    }

    /// The kind of database that a name stands for, whatever its case.
    pub fn from_str(value: &str) -> (result: Result<DbType, String>)
        ensures
            match result {
                Ok(db_type) => db_type_of(lowercase(value@)) == Some(db_type),
                Err(message) => db_type_of(lowercase(value@)) is None && message@
                    == "Unknown database type: "@ + value@,
            },
    {
        let lower = to_lowercase(value);
        Self::from_lowercase(lower.as_str(), value)
    }
}

/// `MISSING '{name}'`
pub open spec fn missing_text(name: Seq<char>) -> Seq<char> {
    "MISSING '"@ + name + "'"@
}

/// The message for a setting that a driver needs and that is not there.
fn missing(name: &str) -> (message: String)
    ensures
        message@ == missing_text(name@),
{
    let mut message = String::from_str("MISSING '");
    message.append(name);
    message.append("'");
    message
}

/// What the migrations need to be told.
pub enum MigrationSettings {
    /// A database in a file.
    File { path: String },
    /// A database on a server.
    Server {
        db_type: DbType,
        host: String,
        port: String,
        db_name: String,
        user_name: String,
        password: String,
        /// Whether the certificate of the server is trusted unseen.
        trust_cert: bool,
    },
}

/// What an SQL Server pool needs to be told.
pub struct MssqlSettings {
    pub host: String,
    pub db_name: String,
    pub user_name: String,
    pub password: String,
    pub port: Option<u16>,
}

/// What a PostgreSQL pool needs to be told.
pub struct PgSettings {
    pub host: Option<String>,
    pub port: Option<u16>,
    pub db_name: Option<String>,
    pub user_name: Option<String>,
    pub password: Option<String>,
}

/// The first of the five settings of a server that is not there, if any.
pub open spec fn first_missing(config: DbConfig) -> Option<Seq<char>> {
    if config.host is None {
        Some(ENV_DB_HOST@)
    } else if config.port is None {
        Some(ENV_DB_PORT@)
    } else if config.db_name is None {
        Some(ENV_DB_NAME@)
    } else if config.user_name is None {
        Some(ENV_DB_USER@)
    } else if config.password is None {
        Some(ENV_DB_PASS@)
    } else {
        None
    }
}

/// Whether a port is configured: the setting is there and is not empty.
pub open spec fn port_is_set(port: Option<String>) -> bool {
    port is Some && port->0@.len() > 0
}

impl DbConfig {
    /// The settings that the texts of the environment stand for. A port that
    /// is not set, or set to the empty text, is no port.
    pub fn from_vars(
        db_type: &str,
        host: Option<String>,
        port: Option<String>,
        db_name: Option<String>,
        user_name: Option<String>,
        password: Option<String>,
        path: Option<String>,
    ) -> (result: Result<DbConfig, DbConfigError>)
        ensures
            match result {
                Ok(config) => {
                    &&& db_type_of(lowercase(db_type@)) == Some(config.db_type)
                    &&& config.port == if port_is_set(port) {
                        port_of(port->0@)
                    } else {
                        None
                    }
                    &&& port_is_set(port) ==> port_of(port->0@) is Some
                    &&& config.host == host
                    &&& config.db_name == db_name
                    &&& config.user_name == user_name
                    &&& config.password == password
                    &&& config.path == path
                },
                Err(DbConfigError::UnknownDbType) => db_type_of(lowercase(db_type@)) is None,
                Err(DbConfigError::InvalidPort) => {
                    &&& db_type_of(lowercase(db_type@)) is Some
                    &&& port_is_set(port)
                    &&& port_of(port->0@) is None
                },
            },
    {
        let kind = match DbType::from_str(db_type) {
            Ok(kind) => kind,
            Err(_) => {
                return Err(DbConfigError::UnknownDbType);
            },
        };
        let port_number: Option<u16> = match &port {
            Some(text) => {
                if text.as_str().unicode_len() == 0 {
                    None
                } else {
                    match parse_port(text.as_str()) {
                        Some(number) => Some(number),
                        None => {
                            return Err(DbConfigError::InvalidPort);
                        },
                    }
                }
            },
            None => None,
        };
        Ok(DbConfig { db_type: kind, host, port: port_number, db_name, user_name, password, path })
    }

    /// What the migrations need to be told: for SQLite the file, for a server
    /// all five of host, port, database, user and password. An SQL Server
    /// certificate is trusted unseen.
    pub fn migration_settings(&self) -> (result: Result<MigrationSettings, String>)
        ensures
            match result {
                Ok(MigrationSettings::File { path }) => self.db_type == DbType::Sqlite
                    && self.path == Some(path),
                Ok(
                    MigrationSettings::Server {
                        db_type,
                        host,
                        port,
                        db_name,
                        user_name,
                        password,
                        trust_cert,
                    },
                ) => {
                    &&& self.db_type != DbType::Sqlite
                    &&& db_type == self.db_type
                    &&& self.host == Some(host)
                    &&& self.port is Some
                    &&& port@ == decimal(self.port->0 as nat)
                    &&& self.db_name == Some(db_name)
                    &&& self.user_name == Some(user_name)
                    &&& self.password == Some(password)
                    &&& trust_cert == (self.db_type == DbType::Mssql)
                },
                Err(message) => if self.db_type == DbType::Sqlite {
                    self.path is None && message@ == "Missing path"@
                } else {
                    first_missing(*self) matches Some(name) && message@ == missing_text(name)
                },
            },
    {
        let trust_cert = match self.db_type {
            DbType::Sqlite => {
                return match &self.path {
                    Some(path) => Ok(MigrationSettings::File { path: path.clone() }),
                    None => Err(String::from_str("Missing path")),
                };
            },
            DbType::Mssql => true,
            DbType::Postgres => false,
        };
        let host = match &self.host {
            Some(host) => host.clone(),
            None => {
                return Err(missing(ENV_DB_HOST));
            },
        };
        let port = match self.port {
            Some(number) => {
                let mut text = String::new();
                push_decimal(&mut text, number);
                assert(text@ =~= decimal(number as nat));
                text
            },
            None => {
                return Err(missing(ENV_DB_PORT));
            },
        };
        let db_name = match &self.db_name {
            Some(db_name) => db_name.clone(),
            None => {
                return Err(missing(ENV_DB_NAME));
            },
        };
        let user_name = match &self.user_name {
            Some(user_name) => user_name.clone(),
            None => {
                return Err(missing(ENV_DB_USER));
            },
        };
        let password = match &self.password {
            Some(password) => password.clone(),
            None => {
                return Err(missing(ENV_DB_PASS));
            },
        };
        Ok(
            MigrationSettings::Server {
                db_type: self.db_type,
                host,
                port,
                db_name,
                user_name,
                password,
                trust_cert,
            },
        )
    }

    /// The file of the SQLite database.
    pub fn sqlite_path(&self) -> (result: Result<String, String>)
        ensures
            match result {
                Ok(path) => self.db_type == DbType::Sqlite && self.path == Some(path),
                Err(message) => if self.db_type != DbType::Sqlite {
                    message@ == "DbType is not sqlite"@
                } else {
                    self.path is None && message@ == "Could not find path"@
                },
            },
    {
        match self.db_type {
            DbType::Sqlite => match &self.path {
                Some(path) => Ok(path.clone()),
                None => Err(String::from_str("Could not find path")),
            },
            _ => Err(String::from_str("DbType is not sqlite")),
        }
    }

    /// The settings of a PostgreSQL pool.
    pub fn postgres_settings(&self) -> (result: Result<PgSettings, String>)
        ensures
            match result {
                Ok(settings) => {
                    &&& self.db_type == DbType::Postgres
                    &&& settings.host == self.host
                    &&& settings.port == self.port
                    &&& settings.db_name == self.db_name
                    &&& settings.user_name == self.user_name
                    &&& settings.password == self.password
                },
                Err(message) => self.db_type != DbType::Postgres && message@
                    == "DbType is not postgres"@,
            },
    {
        match self.db_type {
            DbType::Postgres => Ok(
                PgSettings {
                    host: self.host.clone(),
                    port: self.port,
                    db_name: self.db_name.clone(),
                    user_name: self.user_name.clone(),
                    password: self.password.clone(),
                },
            ),
            _ => Err(String::from_str("DbType is not postgres")),
        }
    }

    /// The settings of an SQL Server pool.
    pub fn mssql_settings(&self) -> (result: Result<MssqlSettings, String>)
        ensures
            match result {
                Ok(settings) => {
                    &&& self.db_type == DbType::Mssql
                    &&& self.host == Some(settings.host)
                    &&& self.db_name == Some(settings.db_name)
                    &&& self.user_name == Some(settings.user_name)
                    &&& self.password == Some(settings.password)
                    &&& settings.port == self.port
                },
                Err(message) => if self.db_type != DbType::Mssql {
                    message@ == "DbType is not Mssql"@
                } else if self.host is None {
                    message@ == "Missing host"@
                } else if self.db_name is None {
                    message@ == "Missing db_name"@
                } else if self.user_name is None {
                    message@ == "Missing username"@
                } else {
                    self.password is None && message@ == "Missing Password"@
                },
            },
    {
        match self.db_type {
            DbType::Mssql => {},
            _ => {
                return Err(String::from_str("DbType is not Mssql"));
            },
        }
        let host = match &self.host {
            Some(host) => host.clone(),
            None => {
                return Err(String::from_str("Missing host"));
            },
        };
        let db_name = match &self.db_name {
            Some(db_name) => db_name.clone(),
            None => {
                return Err(String::from_str("Missing db_name"));
            },
        };
        let user_name = match &self.user_name {
            Some(user_name) => user_name.clone(),
            None => {
                return Err(String::from_str("Missing username"));
            },
        };
        let password = match &self.password {
            Some(password) => password.clone(),
            None => {
                return Err(String::from_str("Missing Password"));
            },
        };
        Ok(MssqlSettings { host, db_name, user_name, password, port: self.port })
    }
}

} // verus!
