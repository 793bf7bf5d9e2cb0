use channel_enrichment::ads::AdMethodType;
use channel_enrichment::ads::AdTargetType;
use channel_enrichment::ids::normalize_chat_id;
use channel_enrichment::text::trim_spaces;
use channel_enrichment::text::TextUtils;

#[test]
fn normalize_name_strips_url_at_and_slash() {
    assert_eq!(TextUtils::normalize_name("https://t.me/newschannel"), "newschannel".to_string());
    assert_eq!(TextUtils::normalize_name(" @user "), "user".to_string());
    assert_eq!(TextUtils::normalize_name("https://t.me/@chan/"), "chan".to_string());
    assert_eq!(TextUtils::normalize_name("plain"), "plain".to_string());
    assert_eq!(TextUtils::normalize_name(""), "".to_string());
}

#[test]
fn normalize_names_maps_in_order() {
    let raw = vec!["@a".to_string(), "https://t.me/b".to_string(), " c ".to_string()];
    let normalized = TextUtils::normalize_names(&raw);
    assert_eq!(normalized, vec!["a".to_string(), "b".to_string(), "c".to_string()]);
}

#[test]
fn parse_validation_error_splits_field_and_message() {
    let parsed =
        TextUtils::parse_validation_error("Validation error in field 'cpm': must be positive");
    assert_eq!(parsed, Some(("cpm".to_string(), "must be positive".to_string())));
}

#[test]
fn parse_validation_error_rejects_other_shapes() {
    assert_eq!(TextUtils::parse_validation_error("some other error"), None);
    assert_eq!(TextUtils::parse_validation_error(""), None);
    assert_eq!(TextUtils::parse_validation_error("Validation error in field 'open"), None);
}

#[test]
fn trim_spaces_removes_surrounding_whitespace() {
    assert_eq!(trim_spaces("  hello \n"), "hello");
    assert_eq!(trim_spaces("\t\r\n "), "");
    assert_eq!(trim_spaces("inner space kept"), "inner space kept");
}

#[test]
fn chat_id_prefix_stripping() {
    assert_eq!(normalize_chat_id(-1001234567), 1234567);
    assert_eq!(normalize_chat_id(-1005), 5);
    assert_eq!(normalize_chat_id(-10005), 5);
    assert_eq!(normalize_chat_id(-100), 0);
    assert_eq!(normalize_chat_id(123), 123);
    assert_eq!(normalize_chat_id(-5), -5);
    assert_eq!(normalize_chat_id(-999), -999);
    assert_eq!(normalize_chat_id(0), 0);
    assert_eq!(normalize_chat_id(i64::MIN), i64::MIN);
}

#[test]
fn ad_form_values() {
    assert_eq!(AdTargetType::Channel.as_str(), "channel");
    assert_eq!(AdMethodType::Save.as_str(), "createAd");
    assert_eq!(AdMethodType::Draft.as_str(), "saveAdDraft");
}
