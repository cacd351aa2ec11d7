use classify_client::keys::{keys_from_items, parse_api_keys, ApiKeyPolicy, Authorization};

fn policy(keys: &[&str]) -> ApiKeyPolicy {
    ApiKeyPolicy::new(keys.iter().map(|k| k.to_string()).collect())
}

#[test]
fn downstream_keys_need_no_allow_list() {
    let p = policy(&[]);
    assert_eq!(p.authorize(Some("firefox-downstream-abc_123")), Authorization::Authorized);
    assert_eq!(p.authorize(Some("firefox-downstream-foo_bar")), Authorization::Authorized);
}

#[test]
fn downstream_keys_with_other_characters_are_refused() {
    let p = policy(&[]);
    assert_eq!(p.authorize(Some("firefox-downstream-a-b")), Authorization::Denied);
    assert_eq!(p.authorize(Some("firefox-downstream-foo-bar")), Authorization::Denied);
    assert_eq!(p.authorize(Some("firefox-downstream-")), Authorization::Denied);
    let long = format!("firefox-downstream-{}", "a".repeat(41));
    assert_eq!(p.authorize(Some(long.as_str())), Authorization::Denied);
    let longest = format!("firefox-downstream-{}", "a".repeat(40));
    assert_eq!(p.authorize(Some(longest.as_str())), Authorization::Authorized);
}

#[test]
fn other_keys_need_the_allow_list() {
    let p = policy(&["testkey"]);
    assert_eq!(p.authorize(Some("testkey")), Authorization::Authorized);
    assert_eq!(p.authorize(Some("otherkey")), Authorization::Denied);
    assert_eq!(policy(&[]).authorize(Some("testkey")), Authorization::Denied);
    assert!(p.allows("testkey"));
    assert!(!p.allows("testke"));
}

#[test]
fn missing_key_is_refused() {
    assert_eq!(policy(&["testkey"]).authorize(None), Authorization::Denied);
}

#[test]
fn decision_from_pattern_verdict() {
    let p = policy(&["listed"]);
    assert_eq!(p.decide("anything", Some(true)), Authorization::Authorized);
    assert_eq!(p.decide("anything", Some(false)), Authorization::Denied);
    assert_eq!(p.decide("anything", None), Authorization::Denied);
    assert_eq!(p.decide("listed", Some(false)), Authorization::Authorized);
}

#[test]
fn api_keys_file_parsing() {
    assert_eq!(parse_api_keys("[\"foo\"]").unwrap(), vec!["foo".to_string()]);
    assert_eq!(
        parse_api_keys("[\"foo\"]z").unwrap_err().message(),
        "Error parsing api keys file"
    );
    assert!(parse_api_keys("{\"a\": \"b\"}").unwrap().is_empty());
    assert_eq!(
        parse_api_keys("[1, \"a\", null, \"b\"]").unwrap(),
        vec!["a".to_string(), "b".to_string()]
    );
}

#[test]
fn keys_from_document_items() {
    assert!(keys_from_items(None).is_empty());
    assert!(keys_from_items(Some(Vec::new())).is_empty());
    assert_eq!(
        keys_from_items(Some(vec![None, Some("a".to_string()), None, Some("b".to_string())])),
        vec!["a".to_string(), "b".to_string()]
    );
}
