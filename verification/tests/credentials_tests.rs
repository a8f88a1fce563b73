use mcp_core::OAuthCredentials;
use mcp_core::merge_env;
use mcp_core::parse_oauth_credentials;
use mcp_core::unprefixed_env;

#[test]
fn quoted_value_with_blank_and_comment_lines_yields_only_the_id() {
    let file = b"VITE_GOOGLE_OAUTH_CLIENT_ID=\"abc\"\n\n# a comment line\n";
    let creds = parse_oauth_credentials(file);
    assert_eq!(creds.client_id, Some(b"abc".to_vec()));
    assert_eq!(creds.client_secret, None);
    let env = unprefixed_env(&creds);
    assert_eq!(env.len(), 1);
    assert_eq!(env[0].0, "GOOGLE_OAUTH_CLIENT_ID");
    assert_eq!(env[0].1, b"abc".to_vec());
}

#[test]
fn both_keys_are_recognized_and_reemitted_unprefixed() {
    let file = b"VITE_GOOGLE_OAUTH_CLIENT_ID=id-1\nVITE_GOOGLE_OAUTH_CLIENT_SECRET='s-2'\n";
    let creds = parse_oauth_credentials(file);
    assert_eq!(creds.client_id, Some(b"id-1".to_vec()));
    assert_eq!(creds.client_secret, Some(b"s-2".to_vec()));
    let env = unprefixed_env(&creds);
    assert_eq!(env.len(), 2);
    assert_eq!(env[0].0, "GOOGLE_OAUTH_CLIENT_ID");
    assert_eq!(env[1].0, "GOOGLE_OAUTH_CLIENT_SECRET");
    assert_eq!(env[1].1, b"s-2".to_vec());
}

#[test]
fn whitespace_around_key_and_value_is_trimmed() {
    let file = b"  VITE_GOOGLE_OAUTH_CLIENT_ID  =  \"abc\"  \r\n";
    let creds = parse_oauth_credentials(file);
    assert_eq!(creds.client_id, Some(b"abc".to_vec()));
}

#[test]
fn later_definitions_override_earlier_ones() {
    let file = b"VITE_GOOGLE_OAUTH_CLIENT_ID=first\nVITE_GOOGLE_OAUTH_CLIENT_ID=second\n";
    let creds = parse_oauth_credentials(file);
    assert_eq!(creds.client_id, Some(b"second".to_vec()));
}

#[test]
fn empty_values_and_unrelated_keys_are_skipped() {
    let file = b"VITE_GOOGLE_OAUTH_CLIENT_ID=\"\"\nOTHER_KEY=value\nVITE_OTHER=x\n";
    let creds = parse_oauth_credentials(file);
    assert_eq!(creds.client_id, None);
    assert_eq!(creds.client_secret, None);
    assert!(unprefixed_env(&creds).is_empty());
}

#[test]
fn commented_definition_does_not_count() {
    let file = b"# VITE_GOOGLE_OAUTH_CLIENT_ID=abc\n";
    let creds = parse_oauth_credentials(file);
    assert_eq!(creds.client_id, None);
}

#[test]
fn file_without_trailing_newline_still_parses() {
    let file = b"VITE_GOOGLE_OAUTH_CLIENT_SECRET=tail";
    let creds = parse_oauth_credentials(file);
    assert_eq!(creds.client_secret, Some(b"tail".to_vec()));
}

#[test]
fn only_one_quote_layer_is_removed() {
    let file = b"VITE_GOOGLE_OAUTH_CLIENT_ID=\"\"abc\"\"\n";
    let creds = parse_oauth_credentials(file);
    assert_eq!(creds.client_id, Some(b"\"abc\"".to_vec()));
}

#[test]
fn empty_credentials_make_an_empty_mapping() {
    let creds = OAuthCredentials { client_id: None, client_secret: None };
    assert!(unprefixed_env(&creds).is_empty());
}

#[test]
fn merge_env_skips_empty_values_and_keeps_override_order() {
    let base = vec![
        ("GOOGLE_OAUTH_CLIENT_ID".to_string(), "abc".to_string()),
        ("EMPTY_ONE".to_string(), "".to_string()),
    ];
    let extra = vec![
        ("PATH_EXTRA".to_string(), "/opt/bin".to_string()),
        ("EMPTY_TWO".to_string(), "".to_string()),
        ("GOOGLE_OAUTH_CLIENT_ID".to_string(), "override".to_string()),
    ];
    let merged = merge_env(&base, &extra);
    assert_eq!(
        merged,
        vec![
            ("GOOGLE_OAUTH_CLIENT_ID".to_string(), "abc".to_string()),
            ("PATH_EXTRA".to_string(), "/opt/bin".to_string()),
            ("GOOGLE_OAUTH_CLIENT_ID".to_string(), "override".to_string()),
        ]
    );
}
