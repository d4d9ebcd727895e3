//! Server settings, taken from the environment with defaults.

use vstd::prelude::*;
use vstd::string::StringExecFns;
use crate::text::{parse_i64, parse_unsigned, signed_literal, unsigned_literal};

verus! {

/// The server's settings.
#[derive(Debug, Clone)]
pub struct Config {
    pub host: String,
    pub port: u16,
    pub database_url: String,
    pub upload_dir: String,
    pub max_file_size: u64,
    pub jwt_secret: String,
    pub jwt_expiry_hours: i64,
}

/// The raw values of the environment variables the settings come from
/// (`SAMETIME_HOST`, `SAMETIME_PORT`, `DATABASE_URL`, `UPLOAD_DIR`,
/// `MAX_FILE_SIZE`, `JWT_SECRET`, `JWT_EXPIRY_HOURS`); `None` for a
/// variable that is unset or not Unicode.
#[derive(Debug, Clone)]
pub struct EnvValues {
    pub host: Option<String>,
    pub port: Option<String>,
    pub database_url: Option<String>,
    pub upload_dir: Option<String>,
    pub max_file_size: Option<String>,
    pub jwt_secret: Option<String>,
    pub jwt_expiry_hours: Option<String>,
}

/// A text setting: the variable's value, or the default.
pub open spec fn text_setting(v: Option<String>, default: Seq<char>) -> Seq<char> {
    match v {
        Some(s) => s@,
        None => default,
    }
}

/// An unsigned setting: the variable's value when it is a number within
/// `max`, else the default.
pub open spec fn unsigned_setting(v: Option<String>, max: int, default: int) -> int {
    match v {
        Some(s) => match unsigned_literal(s@) {
            Some(n) => if n <= max {
                n as int
            } else {
                default
            },
            None => default,
        },
        None => default,
    }
}

/// A signed setting: the variable's value when it is an `i64`, else the
/// default.
pub open spec fn signed_setting(v: Option<String>, default: int) -> int {
    match v {
        Some(s) => match signed_literal(s@) {
            Some(n) => if i64::MIN <= n <= i64::MAX {
                n
            } else {
                default
            },
            None => default,
        },
        None => default,
    }
}

fn text_or(v: Option<String>, default: &str) -> (r: String)
    ensures
        r@ == text_setting(v, default@),
{
    match v {
        Some(s) => s,
        None => String::from_str(default),
    }
}

impl Config {
    /// The settings the environment gives: each variable when it is set
    /// (and, for numbers, parses), otherwise host `0.0.0.0`, port 8080, the
    /// SQLite file under `./data`, uploads under `./data/uploads`, a 10 GiB
    /// upload limit, a development JWT secret and tokens valid for 168
    /// hours.
    pub fn from_env_values(env: EnvValues) -> (c: Config)
        ensures
            c.host@ == text_setting(env.host, "0.0.0.0"@),
            c.port == unsigned_setting(env.port, u16::MAX as int, 8080),
            c.database_url@ == text_setting(
                env.database_url,
                "sqlite:./data/sametime.db?mode=rwc"@,
            ),
            c.upload_dir@ == text_setting(env.upload_dir, "./data/uploads"@),
            c.max_file_size == unsigned_setting(
                env.max_file_size,
                u64::MAX as int,
                10737418240,
            ),
            c.jwt_secret@ == text_setting(
                env.jwt_secret,
                "sametime-dev-secret-change-in-production"@,
            ),
            c.jwt_expiry_hours == signed_setting(env.jwt_expiry_hours, 168),
    {
        let port: u16 = match &env.port {
            Some(s) => match parse_unsigned(s.as_str(), 65535) {
                Some(p) => p as u16,
                None => 8080,
            },
            None => 8080,
        };
        let max_file_size: u64 = match &env.max_file_size {
            Some(s) => match parse_unsigned(s.as_str(), u64::MAX) {
                Some(m) => m,
                None => 10737418240,
            },
            None => 10737418240,
        };
        let jwt_expiry_hours: i64 = match &env.jwt_expiry_hours {
            Some(s) => match parse_i64(s.as_str()) {
                Some(h) => h,
                None => 168,
            },
            None => 168,
        };
        Config {
            host: text_or(env.host, "0.0.0.0"),
            port,
            database_url: text_or(env.database_url, "sqlite:./data/sametime.db?mode=rwc"),
            upload_dir: text_or(env.upload_dir, "./data/uploads"),
            max_file_size,
            jwt_secret: text_or(env.jwt_secret, "sametime-dev-secret-change-in-production"),
            jwt_expiry_hours,
        }
    }
}

}
