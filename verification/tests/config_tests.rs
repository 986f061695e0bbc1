use key_connector::config::{
    allowed_origin, key_file_error, parse_origins, Config, KeySecret, PublicKeySource, Settings,
};

fn s(v: &str) -> Option<String> {
    Some(v.to_string())
}

fn base_settings() -> Settings {
    Settings {
        jwt_issuer: s("https://vault.example.com|login"),
        public_key_pem: s("PEM"),
        encryption_key: s("QkJCQkJCQkJCQkJCQkJCQkJCQkJCQkJCQkJCQkJCQkI="),
        ..Settings::default()
    }
}

#[test]
fn defaults_apply_when_unset() {
    let plan = Config::plan(&base_settings()).unwrap();
    assert_eq!(plan.bind_addr, "0.0.0.0:8081");
    assert_eq!(plan.database_url, "sqlite://keyconnector.db?mode=rwc");
    assert_eq!(plan.jwt_issuer.as_deref(), Some("https://vault.example.com|login"));
    assert!(matches!(plan.public_key, PublicKeySource::Inline(ref p) if p == "PEM"));
    assert!(plan.cors_allowed_origins.is_empty());
    let cfg = plan.finish("QkJCQkJCQkJCQkJCQkJCQkJCQkJCQkJCQkJCQkJCQkI=").unwrap();
    assert_eq!(cfg.encryption_key, vec![0x42; 32]);
}

#[test]
fn key_path_wins_over_inline_pem_and_authority() {
    let mut settings = base_settings();
    settings.public_key_path = s("/keys/pub.pem");
    settings.identity_authority = s("https://idp/identity//");
    let plan = Config::plan(&settings).unwrap();
    assert!(matches!(plan.public_key, PublicKeySource::Path(ref p) if p == "/keys/pub.pem"));

    settings.public_key_path = s("");
    settings.public_key_pem = None;
    let plan = Config::plan(&settings).unwrap();
    assert!(matches!(plan.public_key, PublicKeySource::Authority(ref u) if u == "https://idp/identity"));
}

#[test]
fn authority_makes_the_issuer_optional() {
    let mut settings = base_settings();
    settings.jwt_issuer = s("");
    assert_eq!(
        Config::plan(&settings).unwrap_err(),
        "KC_JWT_ISSUER is required (e.g. `https://vault.example.com|login`) unless KC_IDENTITY_AUTHORITY is used"
    );
    settings.public_key_pem = None;
    settings.identity_authority = s("https://idp/identity");
    let plan = Config::plan(&settings).unwrap();
    assert_eq!(plan.jwt_issuer, None);
}

#[test]
fn missing_key_settings_are_reported_in_order() {
    let mut settings = base_settings();
    settings.public_key_pem = None;
    settings.encryption_key = None;
    assert!(Config::plan(&settings).unwrap_err().starts_with("Provide the identity provider via"));
    settings.public_key_pem = s("PEM");
    assert_eq!(
        Config::plan(&settings).unwrap_err(),
        "Provide a base64 encoded 32 byte key via KC_ENCRYPTION_KEY_PATH or KC_ENCRYPTION_KEY (generate one with `openssl rand -base64 32`)"
    );
}

#[test]
fn encryption_key_path_wins_over_inline_key() {
    let mut settings = base_settings();
    settings.encryption_key_path = s("/run/secrets/kc");
    let plan = Config::plan(&settings).unwrap();
    assert!(matches!(plan.key_secret, KeySecret::File(ref p) if p == "/run/secrets/kc"));
    assert_eq!(
        key_file_error("/run/secrets/kc", "No such file or directory (os error 2)"),
        "failed to read KC_ENCRYPTION_KEY_PATH '/run/secrets/kc': No such file or directory (os error 2)"
    );
}

#[test]
fn encryption_key_must_be_base64_of_32_bytes() {
    let plan = Config::plan(&base_settings()).unwrap();
    assert!(plan
        .clone()
        .finish("not base64!")
        .unwrap_err()
        .starts_with("encryption key is not valid base64: "));
    assert_eq!(
        plan.clone().finish("QUJD").unwrap_err(),
        "encryption key must decode to 32 bytes, got 3"
    );
    // surrounding white space (a trailing newline from a key file) is ignored
    let cfg = plan.finish("  QkJCQkJCQkJCQkJCQkJCQkJCQkJCQkJCQkJCQkJCQkI=\n").unwrap();
    assert_eq!(cfg.encryption_key.len(), 32);
}

#[test]
fn explicit_empty_bind_address_is_kept() {
    let mut settings = base_settings();
    settings.bind_addr = s("");
    settings.database_url = s("sqlite::memory:");
    let plan = Config::plan(&settings).unwrap();
    assert_eq!(plan.bind_addr, "");
    assert_eq!(plan.database_url, "sqlite::memory:");
}

#[test]
fn origins_are_split_trimmed_and_filtered() {
    assert_eq!(
        parse_origins(" https://a.example , ,https://b.example,"),
        vec!["https://a.example".to_string(), "https://b.example".to_string()]
    );
    assert!(parse_origins("").is_empty());
    assert!(parse_origins(" , ").is_empty());
    assert_eq!(parse_origins("x"), vec!["x".to_string()]);
    let mut settings = base_settings();
    settings.cors_allowed_origins = s("https://vault.example.com");
    let plan = Config::plan(&settings).unwrap();
    assert_eq!(plan.cors_allowed_origins, vec!["https://vault.example.com".to_string()]);
}

#[test]
fn any_origin_is_allowed_when_none_are_configured() {
    assert!(allowed_origin(&vec![], "https://vault.example.com"));
    let list = vec!["https://a.example".to_string()];
    assert!(allowed_origin(&list, "https://a.example"));
    assert!(!allowed_origin(&list, "https://b.example"));
}
