//! The server's own settings, their defaults, and the checks made when they
//! are read.
use vstd::prelude::*;

verus! {

/// The settings of the server that are its own (the shared base, database,
/// site, mail and storage settings live with the framework that reads
/// them).
pub struct Config {
    pub db_url: String,
    /// The Android asset links document served under `.well-known`.
    pub assetlinks: String,
    pub webauthn_id: Option<String>,
    pub webauthn_name: String,
    pub webauthn_additional_origins: String,
    /// Lifetime of OpenID refresh tokens, in seconds.
    pub oidc_refresh_exp: i64,
    pub apod_api_key: String,
    pub notes_max_per_user: u32,
    /// Lifetime of login tokens, in seconds.
    pub auth_jwt_expiration: i64,
}

impl Config {
    /// Login tokens live 31 days (2678400 seconds) by default.
    pub open spec fn default_jwt_expiration() -> i64 {
        2678400
    }
}

impl Default for Config {
    fn default() -> (c: Self)
        ensures
            c.db_url@ == ""@,
            c.assetlinks@ == "{}"@,
            c.webauthn_id is None,
            c.webauthn_name@ == "Positron"@,
            c.webauthn_additional_origins@ == ""@,
            c.oidc_refresh_exp == 604800,
            c.apod_api_key@ == "DEMO_KEY"@,
            c.notes_max_per_user == 20,
            c.auth_jwt_expiration == Self::default_jwt_expiration(),
    {
        Config {
            db_url: String::from_str(""),
            assetlinks: String::from_str("{}"),
            webauthn_id: None,
            webauthn_name: String::from_str("Positron"),
            webauthn_additional_origins: String::from_str(""),
            oidc_refresh_exp: 604800,
            apod_api_key: String::from_str("DEMO_KEY"),
            notes_max_per_user: 20,
            auth_jwt_expiration: 60 * 60 * 24 * 31,
        }
    }
}

/// The settings as they were found where the server reads them: each one
/// that was given, or `None` where the default stands.
pub struct ConfigValues {
    pub db_url: Option<String>,
    pub assetlinks: Option<String>,
    pub webauthn_id: Option<String>,
    pub webauthn_name: Option<String>,
    pub webauthn_additional_origins: Option<String>,
    pub oidc_refresh_exp: Option<i64>,
    pub apod_api_key: Option<String>,
    pub notes_max_per_user: Option<u32>,
    pub auth_jwt_expiration: Option<i64>,
}

/// A given text, or the default text where none was given.
pub open spec fn text_or(given: Option<String>, default: Seq<char>) -> Seq<char> {
    match given {
        Some(s) => s@,
        None => default,
    }
}

/// A given number, or the default where none was given.
pub open spec fn number_or<T>(given: Option<T>, default: T) -> T {
    match given {
        Some(n) => n,
        None => default,
    }
}

impl Config {
    /// The settings made of the given values laid over the defaults: each
    /// setting that was given replaces its default, every other keeps it.
    pub fn from_values(values: ConfigValues) -> (c: Config)
        ensures
            c.db_url@ == text_or(values.db_url, ""@),
            c.assetlinks@ == text_or(values.assetlinks, "{}"@),
            c.webauthn_id == values.webauthn_id,
            c.webauthn_name@ == text_or(values.webauthn_name, "Positron"@),
            c.webauthn_additional_origins@ == text_or(values.webauthn_additional_origins, ""@),
            c.oidc_refresh_exp == number_or(values.oidc_refresh_exp, 604800i64),
            c.apod_api_key@ == text_or(values.apod_api_key, "DEMO_KEY"@),
            c.notes_max_per_user == number_or(values.notes_max_per_user, 20u32),
            c.auth_jwt_expiration == number_or(
                values.auth_jwt_expiration,
                Self::default_jwt_expiration(),
            ),
    {
        let mut c = Config::default();
        if let Some(v) = values.db_url {
            c.db_url = v;
        }
        if let Some(v) = values.assetlinks {
            c.assetlinks = v;
        }
        c.webauthn_id = values.webauthn_id;
        if let Some(v) = values.webauthn_name {
            c.webauthn_name = v;
        }
        if let Some(v) = values.webauthn_additional_origins {
            c.webauthn_additional_origins = v;
        }
        if let Some(v) = values.oidc_refresh_exp {
            c.oidc_refresh_exp = v;
        }
        if let Some(v) = values.apod_api_key {
            c.apod_api_key = v;
        }
        if let Some(v) = values.notes_max_per_user {
            c.notes_max_per_user = v;
        }
        if let Some(v) = values.auth_jwt_expiration {
            c.auth_jwt_expiration = v;
        }
        c
    }
}

/// Which database a connection URL points at.
#[derive(Debug, Clone, Copy, PartialEq, Eq, Structural)]
pub enum DatabaseKind {
    /// A SQLite file (the URL starts with `sqlite`), whose settings get
    /// checked further.
    Sqlite,
    /// Any other database server.
    Server,
}

/// The database a URL names: a SQLite database exactly when it starts
/// with `sqlite`.
pub open spec fn spec_database_kind(url: Seq<char>) -> DatabaseKind {
    if url.len() >= 6 && url.take(6) == "sqlite"@ {
        DatabaseKind::Sqlite
    } else {
        DatabaseKind::Server
    }
}

/// Checks the database URL of the settings. The server refuses to start
/// without one, so the URL is never empty here.
pub fn database_kind(url: &str) -> (kind: DatabaseKind)
    requires
        url@.len() > 0,
    ensures
        kind == spec_database_kind(url@),
{
    let n = url.unicode_len();
    let prefix = "sqlite";
    proof {
        reveal_strlit("sqlite");
    }
    if n < 6 {
        return DatabaseKind::Server;
    }
    let mut i: usize = 0;
    while i < 6
        invariant
            i <= 6,
            n == url@.len(),
            n >= 6,
            prefix@ == "sqlite"@,
            prefix@.len() == 6,
            forall|j: int| 0 <= j < i ==> url@[j] == prefix@[j],
        decreases 6 - i,
    {
        if url.get_char(i) != prefix.get_char(i) {
            proof {
                assert(url@.take(6)[i as int] != "sqlite"@[i as int]);
            }
            return DatabaseKind::Server;
        }
        i += 1;
    }
    assert(url@.take(6) =~= "sqlite"@);
    DatabaseKind::Sqlite
}

/// The connection pool limits (largest, smallest) for a database of the
/// given kind: a SQLite database gets exactly one connection, any other
/// the configured limits.
pub fn connection_limits(kind: DatabaseKind, max_connections: u32, min_connections: u32) -> (limits:
    (u32, u32))
    ensures
        limits == (if kind == DatabaseKind::Sqlite {
            (1u32, 1u32)
        } else {
            (max_connections, min_connections)
        }),
{
    match kind {
        DatabaseKind::Sqlite => (1, 1),
        DatabaseKind::Server => (max_connections, min_connections),
    }
}

} // verus!
