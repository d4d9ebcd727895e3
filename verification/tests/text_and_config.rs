use sametime::config::{Config, EnvValues};
use sametime::error::AppError;
use sametime::text::{decimal_string, is_blank, parse_i64, parse_unsigned, same_text, utf8_len_at_least};

fn no_env() -> EnvValues {
    EnvValues {
        host: None,
        port: None,
        database_url: None,
        upload_dir: None,
        max_file_size: None,
        jwt_secret: None,
        jwt_expiry_hours: None,
    }
}

#[test]
fn config_defaults() {
    let c = Config::from_env_values(no_env());
    assert_eq!(c.host, "0.0.0.0");
    assert_eq!(c.port, 8080);
    assert_eq!(c.database_url, "sqlite:./data/sametime.db?mode=rwc");
    assert_eq!(c.upload_dir, "./data/uploads");
    assert_eq!(c.max_file_size, 10 * 1024 * 1024 * 1024);
    assert_eq!(c.jwt_secret, "sametime-dev-secret-change-in-production");
    assert_eq!(c.jwt_expiry_hours, 168);
}

#[test]
fn config_reads_values() {
    let mut env = no_env();
    env.host = Some("127.0.0.1".to_string());
    env.port = Some("9000".to_string());
    env.max_file_size = Some("+1024".to_string());
    env.jwt_expiry_hours = Some("-5".to_string());
    env.jwt_secret = Some("s".to_string());
    let c = Config::from_env_values(env);
    assert_eq!(c.host, "127.0.0.1");
    assert_eq!(c.port, 9000);
    assert_eq!(c.max_file_size, 1024);
    assert_eq!(c.jwt_expiry_hours, -5);
    assert_eq!(c.jwt_secret, "s");
}

#[test]
fn config_falls_back_on_bad_numbers() {
    let mut env = no_env();
    env.port = Some("70000".to_string());
    env.max_file_size = Some("12MB".to_string());
    env.jwt_expiry_hours = Some("".to_string());
    let c = Config::from_env_values(env);
    assert_eq!(c.port, 8080);
    assert_eq!(c.max_file_size, 10 * 1024 * 1024 * 1024);
    assert_eq!(c.jwt_expiry_hours, 168);
}

#[test]
fn parse_matches_std() {
    for s in ["0", "42", "+7", "007", "", "+", "-", "-3", " 1", "1 ", "18446744073709551615", "18446744073709551616", "65535", "65536", "9x"] {
        assert_eq!(parse_unsigned(s, u64::MAX), s.parse::<u64>().ok(), "u64 {:?}", s);
        assert_eq!(parse_unsigned(s, 65535).map(|v| v as u16), s.parse::<u16>().ok(), "u16 {:?}", s);
    }
    for s in ["0", "-0", "+12", "-9223372036854775808", "9223372036854775807", "9223372036854775808", "-9223372036854775809", "--1", "-+1", "abc"] {
        assert_eq!(parse_i64(s), s.parse::<i64>().ok(), "i64 {:?}", s);
    }
}

#[test]
fn decimal_round_trip() {
    for n in [0u64, 5, 10, 99, 1234567890, u64::MAX] {
        let s = decimal_string(n);
        assert_eq!(s, n.to_string());
        assert_eq!(parse_unsigned(&s, u64::MAX), Some(n));
    }
}

#[test]
fn blank_is_trim_empty() {
    for s in ["", "   ", "\t\n", "\u{3000}", "\u{a0}x", " a ", "\u{200b}"] {
        assert_eq!(is_blank(s), s.trim().is_empty(), "{:?}", s);
    }
}

#[test]
fn byte_length_checks() {
    assert!(utf8_len_at_least("abcd", 4));
    assert!(!utf8_len_at_least("abc", 4));
    assert!(utf8_len_at_least("密码", 4));
    assert!(!utf8_len_at_least("é", 4));
    assert!(utf8_len_at_least("", 0));
    assert!(utf8_len_at_least("密码", 6));
    assert!(!utf8_len_at_least("密码", 7));
    assert!(utf8_len_at_least("password", 8));
    assert!(!utf8_len_at_least("password", 9));
}

#[test]
fn same_text_is_equality() {
    assert!(same_text("abc", "abc"));
    assert!(!same_text("abc", "abd"));
    assert!(!same_text("ab", "abc"));
}

#[test]
fn errors_map_to_status_and_message() {
    let cases = vec![
        (AppError::NotFound("nf".to_string()), 404, "nf", false),
        (AppError::BadRequest("br".to_string()), 400, "br", false),
        (AppError::Unauthorized("un".to_string()), 401, "un", false),
        (AppError::Conflict("co".to_string()), 409, "co", false),
        (AppError::Internal("in".to_string()), 500, "in", true),
        (AppError::Database("disk I/O error at /secret".to_string()), 500, "Internal server error", true),
    ];
    for (e, code, msg, server) in cases {
        assert_eq!(e.status_code(), code);
        assert_eq!(e.client_message(), msg);
        assert_eq!(e.is_server_error(), server);
    }
}
