use wastebin::form::parse_u32;
use wastebin::form::FormEntry;

fn form(expires: &str) -> FormEntry {
    FormEntry {
        text: "FooBarBaz".to_string(),
        extension: Some("rs".to_string()),
        expires: expires.to_string(),
    }
}

#[test]
fn burn_selection_sets_flag() {
    let e = form("burn").into_entry();
    assert_eq!(e.burn_after_reading, Some(true));
    assert_eq!(e.expires, None);
}

#[test]
fn zero_expiry_means_no_expiry() {
    let e = form("0").into_entry();
    assert_eq!(e.burn_after_reading, Some(false));
    assert_eq!(e.expires, None);
}

#[test]
fn positive_expiry_is_kept() {
    let e = form("3600").into_entry();
    assert_eq!(e.burn_after_reading, Some(false));
    assert_eq!(e.expires, Some(3600));
}

#[test]
fn plus_prefixed_expiry_is_kept() {
    let e = form("+42").into_entry();
    assert_eq!(e.burn_after_reading, Some(false));
    assert_eq!(e.expires, Some(42));
    assert_eq!(form("+0").into_entry().expires, None);
}

#[test]
fn unparseable_expiry_means_no_expiry() {
    assert_eq!(form("never").into_entry().expires, None);
    assert_eq!(form("").into_entry().expires, None);
    assert_eq!(form("12a").into_entry().expires, None);
}

#[test]
fn overflowing_expiry_means_no_expiry() {
    assert_eq!(form("99999999999").into_entry().expires, None);
    assert_eq!(form("4294967296").into_entry().expires, None);
    assert_eq!(form("4294967295").into_entry().expires, Some(u32::MAX));
}

#[test]
fn conversion_preserves_content() {
    let e = form("60").into_entry();
    assert_eq!(e.text, "FooBarBaz");
    assert_eq!(e.extension, Some("rs".to_string()));
    assert_eq!(e.seconds_since_creation, 0);
}

#[test]
fn decimal_parser_exact_values() {
    assert_eq!(parse_u32("0"), Some(0));
    assert_eq!(parse_u32("42"), Some(42));
    assert_eq!(parse_u32("4294967295"), Some(u32::MAX));
    assert_eq!(parse_u32("4294967296"), None);
    assert_eq!(parse_u32(""), None);
    assert_eq!(parse_u32("-1"), None);
}

#[test]
fn decimal_parser_accepts_one_leading_plus() {
    assert_eq!(parse_u32("+1"), Some(1));
    assert_eq!(parse_u32("+42"), Some(42));
    assert_eq!(parse_u32("+4294967295"), Some(u32::MAX));
    assert_eq!(parse_u32("+"), None);
    assert_eq!(parse_u32("++1"), None);
    assert_eq!(parse_u32("+-1"), None);
}

#[test]
fn decimal_parser_agrees_with_std_parse() {
    for text in ["0", "42", "+7", "4294967295", "4294967296", "", "+", "++1", "-1", "1 2", "0x10"]
    {
        assert_eq!(parse_u32(text), text.parse::<u32>().ok());
    }
}
