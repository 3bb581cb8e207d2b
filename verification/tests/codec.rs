use wastebin::id::check_extension;
use wastebin::id::insert_redirect_path;
use wastebin::id::parse_key;
use wastebin::id::Id;
use wastebin::id::ID_POOL;
use wastebin::Entry;
use wastebin::Error;

fn plain_entry(extension: Option<&str>, burn: bool) -> Entry {
    Entry {
        text: "hello".to_string(),
        extension: extension.map(|e| e.to_string()),
        expires: None,
        burn_after_reading: Some(burn),
        seconds_since_creation: 0,
    }
}

#[test]
fn token_round_trip() {
    for _ in 0..32 {
        let id = Id::generate();
        let token = id.to_token();
        let parsed = Id::parse(token.as_str()).unwrap();
        assert_eq!(parsed.value(), id.value());
    }
}

#[test]
fn token_of_known_values() {
    assert_eq!(Id::from_u32(0).to_token(), "aaaaaa");
    assert_eq!(Id::from_u32(1).to_token(), "baaaaa");
    assert_eq!(Id::from_u32(62).to_token(), "abaaaa");
}

#[test]
fn parse_then_encode_is_identity() {
    let id = Id::parse("ab12Cd").unwrap();
    assert_eq!(id.to_token(), "ab12Cd");
    let zeros = Id::parse("000000").unwrap();
    assert_eq!(zeros.to_token(), "000000");
}

#[test]
fn parse_rejects_wrong_length() {
    assert_eq!(Id::parse("").unwrap_err(), Error::InvalidIdentifier);
    assert_eq!(Id::parse("abc").unwrap_err(), Error::InvalidIdentifier);
    assert_eq!(Id::parse("abcdefg").unwrap_err(), Error::InvalidIdentifier);
}

#[test]
fn parse_rejects_bad_characters() {
    assert_eq!(Id::parse("ab!2Cd").unwrap_err(), Error::InvalidIdentifier);
    assert_eq!(Id::parse("ab12C\u{e9}").unwrap_err(), Error::InvalidIdentifier);
    assert_eq!(Id::parse("ab 2Cd").unwrap_err(), Error::InvalidIdentifier);
}

#[test]
fn generated_identifier_is_in_pool() {
    for _ in 0..32 {
        assert!(Id::generate().value() < ID_POOL);
    }
}

#[test]
fn parse_key_with_extension() {
    let key = parse_key("ab12Cd.py").unwrap();
    assert_eq!(key.id.value(), Id::parse("ab12Cd").unwrap().value());
    assert_eq!(key.extension, Some("py".to_string()));
}

#[test]
fn parse_key_without_extension() {
    let key = parse_key("ab12Cd").unwrap();
    assert_eq!(key.id.value(), Id::parse("ab12Cd").unwrap().value());
    assert_eq!(key.extension, None);
}

#[test]
fn parse_key_rejects_bad_identifier() {
    assert_eq!(parse_key("ab!.py").unwrap_err(), Error::InvalidIdentifier);
    assert_eq!(parse_key(".py").unwrap_err(), Error::InvalidIdentifier);
}

#[test]
fn parse_key_rejects_non_ascii_extension() {
    assert_eq!(
        parse_key("ab12Cd.p\u{ff}").unwrap_err(),
        Error::IllegalCharacters
    );
}

#[test]
fn url_path_appends_extension() {
    let id = Id::parse("ab12Cd").unwrap();
    assert_eq!(id.to_url_path(&plain_entry(Some("rs"), false)), "/ab12Cd.rs");
    assert_eq!(id.to_url_path(&plain_entry(None, false)), "/ab12Cd");
}

#[test]
fn redirect_path_for_burn_entry() {
    let id = Id::parse("ab12Cd").unwrap();
    assert_eq!(
        insert_redirect_path(&id, &plain_entry(None, true)),
        "/burn/ab12Cd"
    );
    assert_eq!(insert_redirect_path(&id, &plain_entry(None, false)), "/ab12Cd");
}

#[test]
fn extension_must_be_ascii() {
    assert!(check_extension("py").is_ok());
    assert_eq!(
        check_extension("p\u{ff}").unwrap_err(),
        Error::IllegalCharacters
    );
}
