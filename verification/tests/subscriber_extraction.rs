use channel_enrichment::subscribers::extract_subscribers;
use channel_enrichment::subscribers::parse_i64_str;

#[test]
fn extracts_count_from_labelled_span() {
    let html = r#"<div><span class="pr-similar-channel-desc">12,345 subscribers</span></div>"#;
    assert_eq!(extract_subscribers(html), Some(12345));
}

#[test]
fn extracts_count_without_separator() {
    let html = r#"<span class="pr-similar-channel-desc">987 subscribers</span>"#;
    assert_eq!(extract_subscribers(html), Some(987));
}

#[test]
fn picks_first_matching_span() {
    let html = r#"<span class="pr-similar-channel-desc">1,000 subscribers</span><span class="pr-similar-channel-desc">2,000 subscribers</span>"#;
    assert_eq!(extract_subscribers(html), Some(1000));
}

#[test]
fn missing_span_yields_none() {
    assert_eq!(extract_subscribers("<div>no labelled span here</div>"), None);
    assert_eq!(extract_subscribers(""), None);
}

#[test]
fn unparseable_count_yields_none() {
    let html = r#"<span class="pr-similar-channel-desc">many subscribers</span>"#;
    assert_eq!(extract_subscribers(html), None);
    let empty = r#"<span class="pr-similar-channel-desc">   </span>"#;
    assert_eq!(extract_subscribers(empty), None);
}

#[test]
fn wrong_class_or_element_is_ignored() {
    assert_eq!(extract_subscribers(r#"<span class="other">123</span>"#), None);
    assert_eq!(extract_subscribers(r#"<div class="pr-similar-channel-desc">123</div>"#), None);
}

#[test]
fn integer_parsing_matches_std() {
    for input in [
        "0",
        "42",
        "-42",
        "+7",
        "9223372036854775807",
        "-9223372036854775808",
        "9223372036854775808",
        "-9223372036854775809",
        "99999999999999999999",
        "",
        "-",
        "+",
        "12a",
        " 12",
        "1,2",
    ] {
        assert_eq!(parse_i64_str(input), input.parse::<i64>().ok(), "input {input:?}");
    }
}
