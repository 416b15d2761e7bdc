use otel_context::distributed_context::{Entry, EntryKey, EntryMetadata, EntryTtl, EntryValue};
use otel_context::error::ValidationError;
use otel_context::internal::validate_and_convert_str;

fn entry(ttl: EntryTtl) -> Entry {
    Entry::new(
        EntryKey::new("user").unwrap(),
        EntryValue::new("alice").unwrap(),
        EntryMetadata::new(ttl),
    )
}

#[test]
fn entry_with_one_hop_survives_exactly_one() {
    let origin = entry(EntryTtl::Propagation(1));
    let first = origin.after_hop().unwrap();
    assert_eq!(first.metadata.ttl(), EntryTtl::Propagation(0));
    assert_eq!(first.key.as_str(), "user");
    assert_eq!(first.value.as_str(), "alice");
    assert_eq!(first.after_hop(), None);
}

#[test]
fn unlimited_entry_survives_any_number_of_hops() {
    let mut current = entry(EntryTtl::UnlimitedPropagation);
    for _ in 0..1000 {
        current = current.after_hop().unwrap();
        assert_eq!(current, entry(EntryTtl::UnlimitedPropagation));
    }
}

#[test]
fn entry_without_propagation_is_not_sent() {
    let origin = entry(EntryTtl::NoPropagation);
    assert_eq!(origin.metadata.ttl(), EntryTtl::NoPropagation);
    assert!(!origin.metadata.ttl().propagates());
    assert_eq!(origin.after_hop(), None);
}

#[test]
fn counted_lifetime_goes_down_by_one_per_hop() {
    assert_eq!(EntryTtl::Propagation(3).after_hop(), Some(EntryTtl::Propagation(2)));
    assert_eq!(EntryTtl::Propagation(1).after_hop(), Some(EntryTtl::Propagation(0)));
    assert_eq!(EntryTtl::Propagation(0).after_hop(), None);
    assert_eq!(
        EntryTtl::Propagation(usize::MAX).after_hop(),
        Some(EntryTtl::Propagation(usize::MAX - 1))
    );
    assert!(EntryTtl::Propagation(1).propagates());
    assert!(!EntryTtl::Propagation(0).propagates());
    assert!(EntryTtl::UnlimitedPropagation.propagates());
    let mut ttl = Some(EntryTtl::Propagation(5));
    let mut hops = 0;
    while let Some(current) = ttl {
        ttl = current.after_hop();
        hops += 1;
    }
    assert_eq!(hops, 6);
}

#[test]
fn entry_key_and_value_are_validated() {
    assert_eq!(EntryKey::new("k\u{e9}y"), Err(ValidationError::InvalidChar));
    assert_eq!(EntryKey::new("k\ty"), Err(ValidationError::InvalidChar));
    assert_eq!(EntryValue::new("\u{0}"), Err(ValidationError::InvalidChar));
    assert_eq!(EntryKey::new(&"k".repeat(255)), Err(ValidationError::TooLong));
    assert_eq!(EntryValue::new(&"v".repeat(300)), Err(ValidationError::TooLong));
    assert_eq!(EntryKey::new(&"k".repeat(254)).unwrap().as_str(), "k".repeat(254));
    assert_eq!(EntryValue::new("").unwrap().as_str(), "");
    assert_eq!(EntryValue::new("a value ~").unwrap().as_str(), "a value ~");
    assert_eq!(EntryKey::new("key").unwrap().clone(), EntryKey::new("key").unwrap());
}

#[test]
fn shared_validation_hands_valid_text_back() {
    assert_eq!(validate_and_convert_str("plain text".to_string()), Ok("plain text".to_string()));
    assert_eq!(validate_and_convert_str(String::new()), Ok(String::new()));
    assert_eq!(validate_and_convert_str("x".repeat(254)), Ok("x".repeat(254)));
    assert_eq!(validate_and_convert_str("x".repeat(255)), Err(ValidationError::TooLong));
    assert_eq!(validate_and_convert_str("\u{e9}".repeat(200)), Err(ValidationError::TooLong));
    assert_eq!(validate_and_convert_str("\u{e9}".repeat(100)), Err(ValidationError::InvalidChar));
    assert_eq!(validate_and_convert_str("a\u{1f}".to_string()), Err(ValidationError::InvalidChar));
    assert_eq!(validate_and_convert_str("a\u{7f}".to_string()), Err(ValidationError::InvalidChar));
}
