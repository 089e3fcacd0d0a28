use g_server::dsl::config::{is_custom_error, is_file_config, is_global_config, Compression, ConfigEntry, ConfigValue, ExprKind};
use g_server::dsl::grammar::{parse_response_body_kind, ResponseBodyKind};
use g_server::dsl::port::{parse_port, IntError};

fn try_entry(name: &str, kind: ExprKind, tokens: &str) -> Result<ConfigEntry<u8>, String> {
    ConfigEntry::try_new(name, &kind, tokens, 0)
}

#[test]
fn entries_are_checked_by_name() {
    assert!(try_entry("timeout", ExprKind::IntLit, "5000").is_ok());
    assert_eq!(try_entry("timeout", ExprKind::StrLit, "\"x\"").err().unwrap(), "expects an integer");
    assert_eq!(try_entry("body_limit", ExprKind::Other, "a").err().unwrap(), "expects an integer");
    assert!(try_entry("normalize_endpoint", ExprKind::BoolLit(false), "false").is_ok());
    assert_eq!(try_entry("embed", ExprKind::IntLit, "1").err().unwrap(), "expects a boolean");
    assert!(try_entry("dir", ExprKind::StrLit, "\"public\"").is_ok());
    assert_eq!(try_entry("fallback_file", ExprKind::BoolLit(true), "true").err().unwrap(), "expects a string");
    assert!(try_entry("cors", ExprKind::Other, "Cors { }").is_ok());
    assert!(try_entry("timeout_error", ExprKind::CallPath(Some("json".into())), "json(r)").is_ok());
    assert_eq!(
        try_entry("timeout_error", ExprKind::CallPath(Some("xml".into())), "xml(r)").err().unwrap(),
        "expected values: json(T), text(T), html(T), or ()"
    );
    assert_eq!(
        try_entry("bad_request_error", ExprKind::CallPath(None), "a::b(r)").err().unwrap(),
        "expected values: json(T), text(T), html(T), or ()"
    );
    assert_eq!(
        try_entry("concurrency_limit_error", ExprKind::StrLit, "\"busy\"").err().unwrap(),
        "invalid custom errors values, expected values: json(T), text(T), html(T)"
    );
    assert_eq!(try_entry("keep_alive", ExprKind::IntLit, "1000").err().unwrap(), "unknown config `keep_alive`");
}

#[test]
fn compression_entries_keep_the_method() {
    let entry = try_entry("compression", ExprKind::Other, "gzip").ok().unwrap();
    assert_eq!(entry.name, "compression");
    assert_eq!(entry.value, ConfigValue::Compression(Compression::Gzip));
    let entry = try_entry("timeout", ExprKind::IntLit, "10").ok().unwrap();
    assert_eq!(entry.value, ConfigValue::Source(0));
    assert_eq!(
        try_entry("compression", ExprKind::Other, "lz4").err().unwrap(),
        "`lz4` is invalid/unsupported compression method, supported: deflate, gzip, brotli, zstd, all"
    );
}

#[test]
fn compression_names_read_back() {
    for c in [Compression::Deflate, Compression::Gzip, Compression::Brotli, Compression::Zstd, Compression::All] {
        assert_eq!(Compression::from_str(c.as_str()), Ok(c));
    }
    assert_eq!(Compression::from_str("zstd"), Ok(Compression::Zstd));
    assert_eq!(Compression::display_list(), "deflate, gzip, brotli, zstd, all");
}

#[test]
fn response_body_names_read_back() {
    for k in [ResponseBodyKind::Json, ResponseBodyKind::String, ResponseBodyKind::Html, ResponseBodyKind::Empty] {
        assert_eq!(parse_response_body_kind(k.as_str()).unwrap(), k);
    }
    assert_eq!(ResponseBodyKind::default(), ResponseBodyKind::Json);
}

#[test]
fn config_name_classes() {
    assert!(is_global_config("normalize_endpoint"));
    assert!(!is_global_config("timeout"));
    assert!(is_custom_error("bad_request_error"));
    assert!(!is_custom_error("timeout"));
    assert!(is_file_config("embed"));
    assert!(!is_file_config("cors"));
}

#[test]
fn ports() {
    assert_eq!(parse_port("42369"), Ok(42369));
    assert_eq!(parse_port("0"), Ok(0));
    assert_eq!(parse_port("65535"), Ok(65535));
    assert_eq!(parse_port("65536"), Err(IntError::PosOverflow));
    assert_eq!(parse_port(""), Err(IntError::Empty));
    assert_eq!(parse_port("42_369"), Err(IntError::InvalidDigit));
    assert_eq!(IntError::Empty.message(), "cannot parse integer from empty string");
    assert_eq!(IntError::InvalidDigit.message(), "invalid digit found in string");
}
