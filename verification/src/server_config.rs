//! Runtime configuration of the Nest server.
//!
//! Every value comes from an environment variable and has a default, so the
//! server boots with no configuration for local development. The caller reads
//! the variables and hands their raw values over as [`EnvValues`].
use vstd::prelude::*;

use crate::domain::DEFAULT_BROOD_LIMIT;
use crate::error::AppError;
use crate::text::{concat, debug_quoted, debug_text, i64_text, int_text, u64_text, map_char, parse_i64_spec, parse_u64_spec, replace_char, trim, trim_str};

verus! {

broadcast use vstd::string::group_string_axioms;

/// Environment variable of the address the server binds to.
pub const BIND_ADDR_KEY: &'static str = "NEST_BIND_ADDR";

/// Environment variable of the folder where Eggs are stored.
pub const DATA_DIR_KEY: &'static str = "NEST_DATA_DIR";

/// Environment variable of the SQLite database file.
pub const DB_PATH_KEY: &'static str = "NEST_DB_PATH";

/// Environment variable of the default Brood Limit.
pub const BROOD_LIMIT_KEY: &'static str = "NEST_BROOD_LIMIT";

/// Environment variable of the token signing secret.
pub const TOKEN_SECRET_KEY: &'static str = "NEST_TOKEN_SECRET";

/// Environment variable of the token lifetime in seconds.
pub const TOKEN_EXPIRY_SECONDS_KEY: &'static str = "NEST_TOKEN_EXPIRY_SECONDS";

/// Environment variable of the tracing filter.
pub const LOG_LEVEL_KEY: &'static str = "NEST_LOG";

/// Default bind address: every interface, port 8140.
pub const DEFAULT_BIND_ADDR: &'static str = "0.0.0.0:8140";

/// Default data folder.
pub const DEFAULT_DATA_DIR: &'static str = "data";

/// File name of the database inside the data folder, when not set.
pub const DEFAULT_DB_FILE: &'static str = "nest.sqlite";

/// Default token secret, for local development only.
pub const DEFAULT_TOKEN_SECRET: &'static str = "dev-insecure-secret-change-me";

/// Default token lifetime: seven days.
pub const DEFAULT_TOKEN_EXPIRY_SECONDS: u64 = 604800;

/// Default tracing filter.
pub const DEFAULT_LOG_LEVEL: &'static str = "info";

/// The raw values of the configuration variables; `None` when unset.
#[derive(Debug)]
pub struct EnvValues {
    pub bind_addr: Option<String>,
    pub data_dir: Option<String>,
    pub db_path: Option<String>,
    pub brood_limit: Option<String>,
    pub token_secret: Option<String>,
    pub token_expiry_seconds: Option<String>,
    pub log_level: Option<String>,
}

/// Fully resolved server configuration.
pub struct Config {
    /// Address the HTTP server binds to, as text.
    pub bind_addr: String,
    /// Root folder for stored Eggs.
    pub data_dir: String,
    /// Path to the SQLite database file.
    pub db_path: String,
    /// Default Brood Limit of new Clutches.
    pub default_brood_limit: i64,
    /// Secret used to sign and verify tokens.
    pub token_secret: String,
    /// Token lifetime in seconds.
    pub token_expiry_seconds: u64,
    /// Tracing filter directive.
    pub log_level: String,
}

/// Whether a variable is set to something other than blanks.
pub open spec fn is_set(v: Option<String>) -> bool {
    match v {
        Some(s) => trim(s@).len() > 0,
        None => false,
    }
}

/// A variable's value when set, else the default.
pub open spec fn value_or(v: Option<String>, default: Seq<char>) -> Seq<char> {
    if is_set(v) {
        v.unwrap()@
    } else {
        default
    }
}

/// The message std gives when `str::parse::<i64>` rejects a text.
pub uninterp spec fn i64_parse_error(s: Seq<char>) -> Seq<char>;

/// The message std gives when `str::parse::<u64>` rejects a text.
pub uninterp spec fn u64_parse_error(s: Seq<char>) -> Seq<char>;

/// std's `str::parse::<i64>`: an optional sign and decimal digits in range,
/// otherwise the error's message.
#[verifier::external_body]
fn parse_i64_text(s: &str) -> (r: Result<i64, String>)
    ensures
        match parse_i64_spec(s@) {
            Some(v) => r == Ok::<i64, String>(v),
            None => r matches Err(m) && m@ == i64_parse_error(s@),
        },
{
    s.parse::<i64>().map_err(|e| e.to_string())
}

/// std's `str::parse::<u64>`: an optional `+` and decimal digits in range,
/// otherwise the error's message.
#[verifier::external_body]
fn parse_u64_text(s: &str) -> (r: Result<u64, String>)
    ensures
        match parse_u64_spec(s@) {
            Some(v) => r == Ok::<u64, String>(v),
            None => r matches Err(m) && m@ == u64_parse_error(s@),
        },
{
    s.parse::<u64>().map_err(|e| e.to_string())
}

/// The configuration the variables describe, with the default database path
/// (the data folder joined with `nest.sqlite`, as the platform joins paths)
/// supplied by the caller, and the error the caller's parse of the bind
/// address as a socket address gave, if any. The bind address is checked
/// first, then the Brood Limit, then the token lifetime.
pub open spec fn config_from(
    env: EnvValues,
    default_db_path: Seq<char>,
    bind_error: Option<Seq<char>>,
) -> Result<
    (Seq<char>, Seq<char>, Seq<char>, i64, Seq<char>, u64, Seq<char>),
    Seq<char>,
> {
    let brood = if is_set(env.brood_limit) {
        parse_i64_spec(trim(env.brood_limit.unwrap()@))
    } else {
        Some(DEFAULT_BROOD_LIMIT)
    };
    let expiry = if is_set(env.token_expiry_seconds) {
        parse_u64_spec(trim(env.token_expiry_seconds.unwrap()@))
    } else {
        Some(DEFAULT_TOKEN_EXPIRY_SECONDS)
    };
    if bind_error is Some {
        Err("invalid NEST_BIND_ADDR: "@ + bind_error->0)
    } else {
    match brood {
        None => Err(
            "invalid NEST_BROOD_LIMIT: "@ + i64_parse_error(trim(env.brood_limit.unwrap()@)),
        ),
        Some(b) => if b < 1 {
            Err("NEST_BROOD_LIMIT must be >= 1"@)
        } else {
            match expiry {
                None => Err(
                    "invalid NEST_TOKEN_EXPIRY_SECONDS: "@ + u64_parse_error(
                        trim(env.token_expiry_seconds.unwrap()@),
                    ),
                ),
                Some(x) => Ok(
                    (
                        value_or(env.bind_addr, "0.0.0.0:8140"@),
                        value_or(env.data_dir, "data"@),
                        if is_set(env.db_path) {
                            env.db_path.unwrap()@
                        } else {
                            default_db_path
                        },
                        b,
                        value_or(env.token_secret, "dev-insecure-secret-change-me"@),
                        x,
                        value_or(env.log_level, "info"@),
                    ),
                ),
            }
        },
    }
    }
}

/// The value of a variable when it is set to something other than blanks.
fn set_value(v: &Option<String>) -> (r: Option<&String>)
    ensures
        match r {
            Some(s) => is_set(*v) && s@ == v.unwrap()@,
            None => !is_set(*v),
        },
{
    match v {
        Some(s) => {
            let t = trim_str(s.as_str());
            if t.as_str().is_empty() {
                assert(trim(s@).len() == 0);
                None
            } else {
                Some(s)
            }
        },
        None => None,
    }
}

/// A variable's value when set, else the default.
pub fn env_or(v: &Option<String>, default: &str) -> (r: String)
    ensures
        r@ == value_or(*v, default@),
{
    match set_value(v) {
        Some(s) => s.clone(),
        None => default.to_string(),
    }
}

/// The data folder the variables name.
pub fn data_dir_of(env: &EnvValues) -> (r: String)
    ensures
        r@ == value_or(env.data_dir, "data"@),
{
    env_or(&env.data_dir, DEFAULT_DATA_DIR)
}

impl Config {
    /// Build the configuration from the variables' values, applying
    /// defaults. `default_db_path` is where the database lives when
    /// `NEST_DB_PATH` is not set. The bind address is kept as text;
    /// `bind_error` is the message of the caller's parse of that text as a
    /// socket address, `None` when it parses.
    pub fn from_env(env: &EnvValues, default_db_path: &str, bind_error: Option<&str>) -> (r:
        Result<Config, AppError>)
        ensures
            match config_from(
                *env,
                default_db_path@,
                match bind_error {
                    Some(m) => Some(m@),
                    None => None,
                },
            ) {
                Ok(c) => r matches Ok(cfg) && (
                    cfg.bind_addr@,
                    cfg.data_dir@,
                    cfg.db_path@,
                    cfg.default_brood_limit,
                    cfg.token_secret@,
                    cfg.token_expiry_seconds,
                    cfg.log_level@,
                ) == c,
                Err(m) => r matches Err(AppError::Config(msg)) && msg@ == m,
            },
    {
        if let Some(m) = bind_error {
            return Err(AppError::Config(concat("invalid NEST_BIND_ADDR: ", m)));
        }
        let default_brood_limit = match set_value(&env.brood_limit) {
            Some(v) => {
                let t = trim_str(v.as_str());
                match parse_i64_text(t.as_str()) {
                    Ok(n) => n,
                    Err(e) => {
                        return Err(AppError::Config(concat("invalid NEST_BROOD_LIMIT: ", e.as_str())));
                    },
                }
            },
            None => DEFAULT_BROOD_LIMIT,
        };
        if default_brood_limit < 1 {
            return Err(AppError::Config("NEST_BROOD_LIMIT must be >= 1".to_string()));
        }
        let token_expiry_seconds = match set_value(&env.token_expiry_seconds) {
            Some(v) => {
                let t = trim_str(v.as_str());
                match parse_u64_text(t.as_str()) {
                    Ok(n) => n,
                    Err(e) => {
                        return Err(
                            AppError::Config(
                                concat("invalid NEST_TOKEN_EXPIRY_SECONDS: ", e.as_str()),
                            ),
                        );
                    },
                }
            },
            None => DEFAULT_TOKEN_EXPIRY_SECONDS,
        };
        let db_path = match set_value(&env.db_path) {
            Some(v) => v.clone(),
            None => default_db_path.to_string(),
        };
        Ok(
            Config {
                bind_addr: env_or(&env.bind_addr, DEFAULT_BIND_ADDR),
                data_dir: env_or(&env.data_dir, DEFAULT_DATA_DIR),
                db_path,
                default_brood_limit,
                token_secret: env_or(&env.token_secret, DEFAULT_TOKEN_SECRET),
                token_expiry_seconds,
                log_level: env_or(&env.log_level, DEFAULT_LOG_LEVEL),
            },
        )
    }

    /// SQLite connection URL: the `sqlite:` scheme with `mode=rwc` so the
    /// file is created when missing, and `/` for every `\` of the path.
    pub fn database_url(&self) -> (u: String)
        ensures
            u@ == "sqlite://"@ + map_char(self.db_path@, '\\', '/') + "?mode=rwc"@,
    {
        let p = replace_char(self.db_path.as_str(), '\\', '/');
        let mut u = "sqlite://".to_string();
        u.append(p.as_str());
        u.append("?mode=rwc");
        u
    }
}

/// The text the configuration is logged as, in the shape of a derived
/// `Debug`: texts quoted as `Debug` quotes them, the bind address as is,
/// and `"<redacted>"` in place of the token secret.
pub open spec fn redacted_text(c: Config) -> Seq<char> {
    "Config { bind_addr: "@ + c.bind_addr@ + ", data_dir: "@ + debug_quoted(c.data_dir@)
        + ", db_path: "@ + debug_quoted(c.db_path@) + ", default_brood_limit: "@ + int_text(
        c.default_brood_limit as int,
    ) + ", token_secret: \"<redacted>\", token_expiry_seconds: "@ + int_text(
        c.token_expiry_seconds as int,
    ) + ", log_level: "@ + debug_quoted(c.log_level@) + " }"@
}

impl Config {
    /// The configuration as it is logged, with the token secret redacted.
    pub fn redacted(&self) -> (t: String)
        ensures
            t@ == redacted_text(*self),
    {
        let mut t = concat("Config { bind_addr: ", self.bind_addr.as_str());
        t.append(", data_dir: ");
        t.append(debug_text(self.data_dir.as_str()).as_str());
        t.append(", db_path: ");
        t.append(debug_text(self.db_path.as_str()).as_str());
        t.append(", default_brood_limit: ");
        t.append(i64_text(self.default_brood_limit).as_str());
        t.append(", token_secret: \"<redacted>\", token_expiry_seconds: ");
        t.append(u64_text(self.token_expiry_seconds).as_str());
        t.append(", log_level: ");
        t.append(debug_text(self.log_level.as_str()).as_str());
        t.append(" }");
        t
    }
}

/// With no variable set, the configuration is all defaults: the server boots
/// with zero configuration.
pub proof fn lemma_zero_configuration_boots(env: EnvValues, default_db_path: Seq<char>)
    requires
        env.bind_addr is None,
        env.data_dir is None,
        env.db_path is None,
        env.brood_limit is None,
        env.token_secret is None,
        env.token_expiry_seconds is None,
        env.log_level is None,
    ensures
        config_from(env, default_db_path, None) == Ok::<
            (Seq<char>, Seq<char>, Seq<char>, i64, Seq<char>, u64, Seq<char>),
            Seq<char>,
        >(
            (
                "0.0.0.0:8140"@,
                "data"@,
                default_db_path,
                DEFAULT_BROOD_LIMIT,
                "dev-insecure-secret-change-me"@,
                DEFAULT_TOKEN_EXPIRY_SECONDS,
                "info"@,
            ),
        ),
{
}

} // verus!
