use ircbridge::dedup::Deduplicator;
use ircbridge::model::EventID;

fn id(text: &str) -> EventID {
    EventID { id: text.to_string() }
}

#[test]
fn new_record_has_seen_nothing() {
    let record = Deduplicator::new();
    assert_eq!(record.len(), 0);
    assert!(!record.has_seen(&id("$1:example.org")));
}

#[test]
fn recorded_identifier_is_seen() {
    let mut record = Deduplicator::new();
    record.record(id("$1:example.org"));
    assert!(record.has_seen(&id("$1:example.org")));
    assert!(!record.has_seen(&id("$2:example.org")));
    assert_eq!(record.len(), 1);
}

#[test]
fn record_only_grows() {
    let mut record = Deduplicator::new();
    for i in 0..10 {
        record.record(id(&format!("${}:example.org", i)));
    }
    assert_eq!(record.len(), 10);
    for i in 0..10 {
        assert!(record.has_seen(&id(&format!("${}:example.org", i))));
    }
    record.record(id("$3:example.org"));
    assert_eq!(record.len(), 11);
    assert!(record.has_seen(&id("$0:example.org")));
}

#[test]
fn identifiers_compare_by_their_text() {
    assert_eq!(id("$1:example.org"), id("$1:example.org"));
    assert_ne!(id("$1:example.org"), id("$1:example.com"));
    assert_eq!(id("$1:example.org").clone(), id("$1:example.org"));
}
