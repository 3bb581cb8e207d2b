use wastebin::form::FormEntry;
use wastebin::id::Id;
use wastebin::store::Layer;
use wastebin::Entry;
use wastebin::Error;

fn entry(text: &str, expires: Option<u32>, burn: bool) -> Entry {
    Entry {
        text: text.to_string(),
        extension: None,
        expires,
        burn_after_reading: Some(burn),
        seconds_since_creation: 0,
    }
}

#[test]
fn unknown_paste() {
    let mut layer = Layer::new();
    let id = Id::parse("000000").unwrap();
    assert_eq!(layer.get(id, 0).unwrap_err(), Error::NotFound);
}

#[test]
fn insert() {
    let form = FormEntry {
        text: "FooBarBaz".to_string(),
        extension: None,
        expires: "0".to_string(),
    };
    let e = form.into_entry();
    let mut layer = Layer::new();
    let id = Id::generate();
    layer.insert(id, e, 0).unwrap();
    let read = layer.get(id, 0).unwrap();
    assert!(read.text.contains("FooBarBaz"));
}

#[test]
fn delete() {
    let mut layer = Layer::new();
    let id = Id::generate();
    layer.insert(id, entry("FooBarBaz", None, false), 0).unwrap();
    layer.request_delete(id, 0).unwrap();
    assert_eq!(layer.get(id, 0).unwrap_err(), Error::NotFound);
}

#[test]
fn round_trip_preserves_entry() {
    let mut layer = Layer::new();
    let id = Id::generate();
    let e = Entry {
        text: "hello world".to_string(),
        extension: Some("rs".to_string()),
        expires: None,
        burn_after_reading: Some(false),
        seconds_since_creation: 0,
    };
    layer.insert(id, e, 5).unwrap();
    let read = layer.get(id, 5).unwrap();
    assert_eq!(read.text, "hello world");
    assert_eq!(read.extension, Some("rs".to_string()));
    assert_eq!(read.expires, None);
    assert_eq!(read.burn_after_reading, Some(false));
    assert_eq!(read.seconds_since_creation, 0);
}

#[test]
fn burn_entry_is_read_exactly_once() {
    let mut layer = Layer::new();
    let id = Id::generate();
    layer.insert(id, entry("secret", None, true), 0).unwrap();
    let first = layer.get(id, 0).unwrap();
    assert_eq!(first.text, "secret");
    assert_eq!(layer.get(id, 0).unwrap_err(), Error::NotFound);
    assert_eq!(layer.get(id, 100).unwrap_err(), Error::NotFound);
    assert_eq!(layer.delete(id).unwrap_err(), Error::NotFound);
}

#[test]
fn expiry_after_one_second() {
    let mut layer = Layer::new();
    let id = Id::generate();
    layer.insert(id, entry("short lived", Some(1), false), 100).unwrap();
    let before = layer.get(id, 100).unwrap();
    assert_eq!(before.text, "short lived");
    assert_eq!(layer.get(id, 101).unwrap_err(), Error::NotFound);
    assert_eq!(layer.get(id, 101).unwrap_err(), Error::NotFound);
}

#[test]
fn zero_expiry_never_expires() {
    let mut layer = Layer::new();
    let id = Id::generate();
    layer.insert(id, entry("keep me", Some(0), false), 0).unwrap();
    let read = layer.get(id, 1_000_000_000).unwrap();
    assert_eq!(read.text, "keep me");
}

#[test]
fn deletion_window_enforced() {
    let mut layer = Layer::new();
    let id = Id::generate();
    layer.insert(id, entry("late", None, false), 0).unwrap();
    assert_eq!(
        layer.request_delete(id, 61).unwrap_err(),
        Error::DeletionTimeExpired
    );
    assert!(layer.get(id, 61).is_ok());
    layer.request_delete(id, 60).unwrap();
    assert_eq!(layer.get(id, 60).unwrap_err(), Error::NotFound);
}

#[test]
fn delete_twice_reports_not_found() {
    let mut layer = Layer::new();
    let id = Id::generate();
    layer.insert(id, entry("once", None, false), 0).unwrap();
    layer.delete(id).unwrap();
    assert_eq!(layer.delete(id).unwrap_err(), Error::NotFound);
}

#[test]
fn identifier_collision() {
    let mut layer = Layer::new();
    let id = Id::generate();
    layer.insert(id, entry("first", None, false), 0).unwrap();
    assert_eq!(
        layer.insert(id, entry("second", None, false), 0).unwrap_err(),
        Error::IdentifierCollision
    );
    assert_eq!(layer.get(id, 0).unwrap().text, "first");
}

#[test]
fn insert_generated_returns_usable_identifier() {
    let mut layer = Layer::new();
    let id = layer
        .insert_generated(entry("generated", None, false), 0, 4)
        .unwrap();
    assert_eq!(layer.get(id, 0).unwrap().text, "generated");
}

#[test]
fn insert_generated_without_attempts_fails() {
    let mut layer = Layer::new();
    assert_eq!(
        layer
            .insert_generated(entry("never stored", None, false), 0, 0)
            .unwrap_err(),
        Error::IdentifierCollision
    );
}

#[test]
fn seconds_since_creation_grows_between_reads() {
    let mut layer = Layer::new();
    let id = Id::generate();
    layer.insert(id, entry("aging", None, false), 0).unwrap();
    assert_eq!(layer.get(id, 10).unwrap().seconds_since_creation, 10);
    assert_eq!(layer.get(id, 30).unwrap().seconds_since_creation, 30);
}
