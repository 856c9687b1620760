use mcp_scanner::config::Config;
use mcp_scanner::error::ScanError;
use mcp_scanner::number::{format_u64, parse_or, NumberError};

#[test]
fn parse_or_uses_default_when_absent() {
    let got: u16 = parse_or(None, 3000).unwrap();
    assert_eq!(got, 3000);
}

#[test]
fn parse_or_parses_present_value() {
    let got: u16 = parse_or(Some("8080"), 3000).unwrap();
    assert_eq!(got, 8080);
}

#[test]
fn parse_or_errors_on_unparseable_value() {
    let result: Result<u16, _> = parse_or(Some("not-a-number"), 3000);
    assert!(result.is_err());
}

fn env(pairs: &[(&str, &str)]) -> Vec<(String, String)> {
    pairs.iter().map(|(k, v)| (k.to_string(), v.to_string())).collect()
}

fn required_vars() -> Vec<(String, String)> {
    env(&[
        ("DATABASE_URL", "postgres://localhost/scanner"),
        ("MINIO_ENDPOINT", "minio:9000"),
        ("MINIO_ACCESS_KEY", "access"),
        ("MINIO_SECRET_KEY", "secret"),
        ("DRAGONFLY_URL", "dragonfly:6379"),
        ("RABBITMQ_URL", "amqp://rabbitmq:5672"),
        ("OLLAMA_BASE_URL", "http://ollama:11434"),
    ])
}

#[test]
fn from_env_loads_all_required_and_default_fields() {
    let cfg = Config::from_vars(&required_vars())
        .expect("from_env should succeed with required vars set");

    assert_eq!(cfg.port, 3000);
    assert_eq!(cfg.database_url, "postgres://localhost/scanner");
    assert_eq!(cfg.minio_bucket, "scanner-artifacts");
    assert_eq!(cfg.llm_model, "qwen2.5-coder");
    assert_eq!(cfg.clone_timeout_secs, 60);
    assert_eq!(cfg.llm_timeout_secs, 120);
    assert_eq!(cfg.scan_rate_limit_window_secs, 300);
    assert_eq!(cfg.max_concurrent_scans_per_org, 10);
    assert_eq!(cfg.cache_ttl_hours, 24);
}

#[test]
fn from_env_fails_when_required_var_missing() {
    let vars: Vec<(String, String)> = required_vars()
        .into_iter()
        .filter(|(k, _)| k != "DATABASE_URL")
        .collect();
    assert!(Config::from_vars(&vars).is_err());
}

#[test]
fn from_vars_reports_the_missing_variable() {
    let vars: Vec<(String, String)> = required_vars()
        .into_iter()
        .filter(|(k, _)| k != "RABBITMQ_URL")
        .collect();
    match Config::from_vars(&vars) {
        Err(e) => assert_eq!(
            e.message(),
            "required environment variable RABBITMQ_URL is not set"
        ),
        Ok(_) => panic!("a required variable is missing"),
    }
}

#[test]
fn from_vars_reads_overrides() {
    let mut vars = required_vars();
    vars.extend(env(&[
        ("PORT", "8080"),
        ("MINIO_BUCKET", "artifacts"),
        ("LLM_MODEL", "llama3"),
        ("CLONE_TIMEOUT_SECS", "90"),
        ("LLM_TIMEOUT_SECS", "30"),
        ("SCAN_RATE_LIMIT_WINDOW_SECS", "600"),
        ("MAX_CONCURRENT_SCANS_PER_ORG", "4"),
        ("CACHE_TTL_HOURS", "48"),
    ]));
    let cfg = Config::from_vars(&vars).unwrap();
    assert_eq!(cfg.port, 8080);
    assert_eq!(cfg.minio_bucket, "artifacts");
    assert_eq!(cfg.llm_model, "llama3");
    assert_eq!(cfg.clone_timeout_secs, 90);
    assert_eq!(cfg.llm_timeout_secs, 30);
    assert_eq!(cfg.scan_rate_limit_window_secs, 600);
    assert_eq!(cfg.max_concurrent_scans_per_org, 4);
    assert_eq!(cfg.cache_ttl_hours, 48);
    assert_eq!(cfg.minio_endpoint, "minio:9000");
    assert_eq!(cfg.minio_access_key, "access");
    assert_eq!(cfg.minio_secret_key, "secret");
    assert_eq!(cfg.dragonfly_url, "dragonfly:6379");
    assert_eq!(cfg.rabbitmq_url, "amqp://rabbitmq:5672");
    assert_eq!(cfg.ollama_base_url, "http://ollama:11434");
}

#[test]
fn from_vars_rejects_an_unparseable_number() {
    let mut vars = required_vars();
    vars.push(("PORT".to_string(), "http".to_string()));
    match Config::from_vars(&vars) {
        Err(ScanError::Internal { message }) => {
            assert_eq!(message, "invalid PORT: invalid digit found in string")
        }
        other => panic!("unexpected result {:?}", other),
    }
}

#[test]
fn from_vars_rejects_a_port_out_of_range() {
    let mut vars = required_vars();
    vars.push(("PORT".to_string(), "65536".to_string()));
    match Config::from_vars(&vars) {
        Err(e) => assert_eq!(
            e.message(),
            "invalid PORT: number too large to fit in target type"
        ),
        Ok(_) => panic!("65536 does not fit a port"),
    }
}

#[test]
fn from_vars_takes_an_empty_required_value_as_set() {
    let mut vars = required_vars();
    for pair in vars.iter_mut() {
        if pair.0 == "DATABASE_URL" {
            pair.1 = String::new();
        }
    }
    let cfg = Config::from_vars(&vars).unwrap();
    assert_eq!(cfg.database_url, "");
}

#[test]
fn from_vars_reports_the_first_bad_setting_in_field_order() {
    let vars = env(&[("PORT", "x"), ("CACHE_TTL_HOURS", "y")]);
    match Config::from_vars(&vars) {
        Err(e) => assert_eq!(e.message(), "invalid PORT: invalid digit found in string"),
        Ok(_) => panic!("the environment is incomplete"),
    }
}

#[test]
fn parse_or_follows_integer_parsing_rules() {
    assert_eq!(parse_or::<u16>(Some("+42"), 0), Ok(42));
    assert_eq!(parse_or::<u16>(Some("007"), 0), Ok(7));
    assert_eq!(parse_or::<u16>(Some("65535"), 0), Ok(65535));
    assert_eq!(parse_or::<u16>(Some(""), 0), Err(NumberError::Empty));
    assert_eq!(parse_or::<u16>(Some("+"), 0), Err(NumberError::InvalidDigit));
    assert_eq!(parse_or::<u16>(Some("-"), 0), Err(NumberError::InvalidDigit));
    assert_eq!(parse_or::<u16>(Some("-1"), 0), Err(NumberError::InvalidDigit));
    assert_eq!(parse_or::<u16>(Some(" 1"), 0), Err(NumberError::InvalidDigit));
    assert_eq!(parse_or::<u16>(Some("1_000"), 0), Err(NumberError::InvalidDigit));
    assert_eq!(parse_or::<u16>(Some("65536"), 0), Err(NumberError::Overflow));
    assert_eq!(parse_or::<u16>(Some("99999x"), 0), Err(NumberError::Overflow));
    assert_eq!(parse_or::<u16>(Some("9x9999"), 0), Err(NumberError::InvalidDigit));
    assert_eq!(parse_or::<u32>(Some("4294967295"), 0), Ok(u32::MAX));
    assert_eq!(parse_or::<u32>(Some("4294967296"), 0), Err(NumberError::Overflow));
    assert_eq!(parse_or::<u64>(Some("18446744073709551615"), 0), Ok(u64::MAX));
    assert_eq!(parse_or::<u64>(Some("18446744073709551616"), 0), Err(NumberError::Overflow));
}

#[test]
fn parse_or_agrees_with_std_parsing() {
    let samples = [
        "", "+", "-", "0", "+0", "-0", "12", "+12", "65535", "65536", "99999x", "x", "1 ",
        "٣", "00000000000000065535", "+-1", "4294967295", "4294967296",
    ];
    for s in samples {
        let ours16: Result<u16, NumberError> = parse_or(Some(s), 0);
        assert_eq!(ours16.is_ok(), s.parse::<u16>().is_ok(), "u16 {s:?}");
        if let Ok(v) = ours16 {
            assert_eq!(v, s.parse::<u16>().unwrap());
        }
        let ours32: Result<u32, NumberError> = parse_or(Some(s), 0);
        assert_eq!(ours32.ok(), s.parse::<u32>().ok(), "u32 {s:?}");
        if let (Err(e), Err(std_e)) = (parse_or::<u64>(Some(s), 0), s.parse::<u64>()) {
            assert_eq!(e.message(), std_e.to_string(), "u64 {s:?}");
        }
    }
}

#[test]
fn number_error_messages() {
    assert_eq!(NumberError::Empty.message(), "cannot parse integer from empty string");
    assert_eq!(NumberError::InvalidDigit.message(), "invalid digit found in string");
    assert_eq!(NumberError::Overflow.message(), "number too large to fit in target type");
}

#[test]
fn format_then_parse_gives_the_number_back() {
    for n in [0u64, 7, 10, 60, 300, 4200, 65535, 1_000_000_007, u64::MAX] {
        let s = format_u64(n);
        assert_eq!(s, n.to_string());
        assert_eq!(parse_or::<u64>(Some(&s), 1), Ok(n));
    }
}
