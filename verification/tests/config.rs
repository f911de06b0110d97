use base64::Engine;
use risu::config::{
    claim_from_lookup, get_api_base_url, get_token, get_token_data, get_user_email_from_token,
    get_user_id_from_token, load_config, parse_stored_tokens, set_offline_mode, split_token,
    token_claim, ConfigFile, ConfigPlan, GeneralConfig, TokenData, TokenError, TokenSource,
    DEFAULT_API_BASE_URL,
};

fn token_with_claims(claims: &str) -> String {
    let middle = base64::engine::general_purpose::URL_SAFE_NO_PAD.encode(claims);
    format!("header.{}.signature", middle)
}

#[test]
fn user_id_is_the_sub_claim() {
    let token = token_with_claims(r#"{"sub":"user-123","email":"a@b.example"}"#);
    assert_eq!(get_user_id_from_token(&token), Ok("user-123".to_string()));
}

#[test]
fn user_email_is_the_email_claim() {
    let token = token_with_claims(r#"{"sub":"user-123","email":"a@b.example"}"#);
    assert_eq!(get_user_email_from_token(&token), Ok("a@b.example".to_string()));
}

#[test]
fn claims_are_decoded_as_url_safe_base64() {
    // These claims encode to a middle part that holds '-' and '_'.
    let token = token_with_claims(r#"{"sub":"??>>~~","email":"ÿÿ"}"#);
    assert!(token.contains('-') || token.contains('_'));
    assert_eq!(get_user_id_from_token(&token), Ok("??>>~~".to_string()));
    assert_eq!(token_claim(&token, "email"), Ok("ÿÿ".to_string()));
}

#[test]
fn token_must_have_exactly_three_parts() {
    assert_eq!(get_user_id_from_token(""), Err(TokenError::InvalidFormat));
    assert_eq!(get_user_id_from_token("onlyonepart"), Err(TokenError::InvalidFormat));
    assert_eq!(get_user_id_from_token("two.parts"), Err(TokenError::InvalidFormat));
    assert_eq!(get_user_id_from_token("a.b.c.d"), Err(TokenError::InvalidFormat));
    assert_eq!(get_user_email_from_token("a.b.c."), Err(TokenError::InvalidFormat));
}

#[test]
fn split_token_returns_the_middle_part() {
    assert_eq!(split_token(b"aaa.bbb.ccc"), Some(&b"bbb"[..]));
    assert_eq!(split_token(b"..").map(|p| p.len()), Some(0));
    assert_eq!(split_token(b"a..c").map(|p| p.len()), Some(0));
    assert_eq!(split_token(b"a.b"), None);
    assert_eq!(split_token(b"a.b.c.d"), None);
    assert_eq!(split_token(b""), None);
}

#[test]
fn middle_part_must_be_base64() {
    assert_eq!(get_user_id_from_token("a.!!!.c"), Err(TokenError::InvalidBase64));
    // Padding is not accepted in the unpadded alphabet.
    assert_eq!(get_user_id_from_token("a.e30=.c"), Err(TokenError::InvalidBase64));
}

#[test]
fn claims_must_be_json() {
    let token = token_with_claims("not json");
    assert_eq!(get_user_id_from_token(&token), Err(TokenError::InvalidJson));
}

#[test]
fn missing_or_non_text_claim_is_reported() {
    assert_eq!(
        get_user_id_from_token(&token_with_claims(r#"{"email":"a@b.example"}"#)),
        Err(TokenError::MissingClaim)
    );
    assert_eq!(
        get_user_id_from_token(&token_with_claims(r#"{"sub":42}"#)),
        Err(TokenError::MissingClaim)
    );
    assert_eq!(
        get_user_email_from_token(&token_with_claims(r#"["sub","email"]"#)),
        Err(TokenError::MissingClaim)
    );
    assert_eq!(get_user_id_from_token("a.e30.c"), Err(TokenError::MissingClaim));
}

#[test]
fn claim_from_lookup_maps_each_outcome() {
    assert_eq!(claim_from_lookup(Ok(Some("x".to_string()))), Ok("x".to_string()));
    assert_eq!(claim_from_lookup(Ok(None)), Err(TokenError::MissingClaim));
    let failure = serde_json::from_str::<serde_json::Value>("{").unwrap_err();
    assert_eq!(claim_from_lookup(Err(failure)), Err(TokenError::InvalidJson));
}

#[test]
fn stored_tokens_need_both_texts() {
    assert_eq!(
        parse_stored_tokens(r#"{"id_token":"i","refresh_token":"r"}"#),
        Some(("i".to_string(), "r".to_string()))
    );
    assert_eq!(parse_stored_tokens(r#"{"id_token":"i"}"#), None);
    assert_eq!(parse_stored_tokens(r#"{"refresh_token":"r"}"#), None);
    assert_eq!(parse_stored_tokens(r#"{"id_token":1,"refresh_token":"r"}"#), None);
    assert_eq!(parse_stored_tokens("raw-token"), None);
    assert_eq!(parse_stored_tokens(""), None);
}

fn parts(data: &TokenData) -> (&str, &str, TokenSource) {
    (data.id_token.as_str(), data.refresh_token.as_str(), data.source)
}

#[test]
fn token_file_wins_over_the_legacy_file() {
    let data = get_token_data(
        Some(r#"{"id_token":"new-id","refresh_token":"new-refresh"}"#),
        Some(r#"{"id_token":"old-id","refresh_token":"old-refresh"}"#),
    );
    assert_eq!(parts(&data), ("new-id", "new-refresh", TokenSource::File));
}

#[test]
fn legacy_file_is_used_when_the_token_file_is_missing_or_unreadable() {
    let legacy = r#"{"id_token":"old-id","refresh_token":"old-refresh"}"#;
    let data = get_token_data(None, Some(legacy));
    assert_eq!(parts(&data), ("old-id", "old-refresh", TokenSource::LegacyFile));
    let data = get_token_data(Some("garbage"), Some(legacy));
    assert_eq!(parts(&data), ("old-id", "old-refresh", TokenSource::LegacyFile));
}

#[test]
fn raw_legacy_file_is_a_trimmed_id_token() {
    let data = get_token_data(None, Some("  raw.id.token \n"));
    assert_eq!(parts(&data), ("raw.id.token", "", TokenSource::LegacyFile));
}

#[test]
fn without_files_there_are_no_tokens() {
    let data = get_token_data(None, None);
    assert_eq!(parts(&data), ("", "", TokenSource::Absent));
    let data = get_token_data(Some("garbage"), None);
    assert_eq!(parts(&data), ("", "", TokenSource::Absent));
    let data = TokenData::default();
    assert_eq!(parts(&data), ("", "", TokenSource::Absent));
    assert_eq!(TokenSource::default(), TokenSource::Absent);
}

#[test]
fn get_token_is_the_id_token_in_use() {
    assert_eq!(get_token(Some(r#"{"id_token":"i","refresh_token":"r"}"#), None), "i");
    assert_eq!(get_token(None, Some(" legacy ")), "legacy");
    assert_eq!(get_token(None, None), "");
}

#[test]
fn token_sources_have_their_labels() {
    assert_eq!(TokenSource::File.label(), "File (JSON)");
    assert_eq!(TokenSource::LegacyFile.label(), "File (Legacy)");
    assert_eq!(TokenSource::Absent.label(), "None");
}

#[test]
fn service_address_defaults_unless_configured() {
    assert_eq!(DEFAULT_API_BASE_URL, "https://risu-api.laiosys.dev");
    assert_eq!(get_api_base_url(None), "https://risu-api.laiosys.dev");
    assert_eq!(get_api_base_url(Some("http://localhost:8787".to_string())), "http://localhost:8787");
}

#[test]
fn corrupt_settings_are_moved_aside_and_defaults_are_used() {
    let plan = load_config(ConfigFile::Corrupt);
    assert_eq!(
        plan,
        ConfigPlan {
            general: GeneralConfig { offline_mode: false },
            write_defaults: false,
            backup: true
        }
    );
    // The next switch of the offline mode writes fresh settings.
    assert_eq!(set_offline_mode(ConfigFile::Missing, true), GeneralConfig { offline_mode: true });
}

#[test]
fn missing_settings_are_written_with_the_defaults() {
    let plan = load_config(ConfigFile::Missing);
    assert_eq!(plan.general, GeneralConfig::default());
    assert!(plan.write_defaults);
    assert!(!plan.backup);
}

#[test]
fn unreadable_settings_are_left_alone() {
    let plan = load_config(ConfigFile::Unreadable);
    assert_eq!(plan.general, GeneralConfig { offline_mode: false });
    assert!(!plan.write_defaults);
    assert!(!plan.backup);
}

#[test]
fn parsed_settings_are_used_as_they_are() {
    let found = ConfigFile::Parsed { general: GeneralConfig { offline_mode: true } };
    let plan = load_config(found);
    assert_eq!(plan.general, GeneralConfig { offline_mode: true });
    assert!(!plan.write_defaults);
    assert!(!plan.backup);
    assert_eq!(set_offline_mode(found, false), GeneralConfig { offline_mode: false });
}
