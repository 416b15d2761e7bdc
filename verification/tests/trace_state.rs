use otel_context::error::{CapacityError, ValidationError};
use otel_context::trace_state::{validate_key, validate_value, TraceStateBuilder};

fn pairs(builder: TraceStateBuilder) -> Vec<(String, String)> {
    let state = builder.build().unwrap();
    state.entries().iter().map(|e| (e.key.clone(), e.value.clone())).collect()
}

#[test]
fn set_again_moves_key_to_front() {
    let builder = TraceStateBuilder::builder()
        .set("a", "1")
        .unwrap()
        .set("b", "2")
        .unwrap()
        .set("a", "3")
        .unwrap();
    assert_eq!(
        pairs(builder),
        vec![("a".to_string(), "3".to_string()), ("b".to_string(), "2".to_string())]
    );
}

#[test]
fn thirty_three_entries_exceed_capacity() {
    let mut builder = TraceStateBuilder::builder();
    for i in 0..33 {
        builder = builder.set(&format!("k{}", i), "v").unwrap();
    }
    assert_eq!(builder.build(), Err(CapacityError { entries: 33 }));
}

#[test]
fn thirty_two_entries_fit() {
    let mut builder = TraceStateBuilder::builder();
    for i in 0..32 {
        builder = builder.set(&format!("k{}", i), "v").unwrap();
    }
    let state = builder.build().unwrap();
    assert_eq!(state.entries().len(), 32);
    assert_eq!(state.entries()[0].key, "k31");
    assert_eq!(state.entries()[31].key, "k0");
}

#[test]
fn key_validation_is_identity_on_valid_keys() {
    assert_eq!(validate_key("a".to_string()), Ok("a".to_string()));
    assert_eq!(validate_key("vendor_1/x-y*z".to_string()), Ok("vendor_1/x-y*z".to_string()));
    let longest = format!("a{}", "0".repeat(254));
    assert_eq!(validate_key(longest.clone()), Ok(longest));
}

#[test]
fn key_validation_reports_each_fault() {
    assert_eq!(validate_key(String::new()), Err(ValidationError::Empty));
    assert_eq!(validate_key("Abc".to_string()), Err(ValidationError::InvalidFirstChar));
    assert_eq!(validate_key("1bc".to_string()), Err(ValidationError::InvalidFirstChar));
    assert_eq!(validate_key("\u{e9}".to_string()), Err(ValidationError::InvalidFirstChar));
    assert_eq!(validate_key("aBc".to_string()), Err(ValidationError::InvalidChar));
    assert_eq!(validate_key("a b".to_string()), Err(ValidationError::InvalidChar));
    assert_eq!(validate_key("a\u{e9}".to_string()), Err(ValidationError::InvalidChar));
    assert_eq!(validate_key("a\n".to_string()), Err(ValidationError::InvalidChar));
    assert_eq!(validate_key(format!("a{}", "0".repeat(255))), Err(ValidationError::TooLong));
}

#[test]
fn value_validation_is_identity_on_valid_values() {
    assert_eq!(validate_value(String::new()), Ok(String::new()));
    assert_eq!(validate_value("Some Value ~!".to_string()), Ok("Some Value ~!".to_string()));
    let longest = "x".repeat(255);
    assert_eq!(validate_value(longest.clone()), Ok(longest));
}

#[test]
fn value_validation_reports_each_fault() {
    assert_eq!(validate_value("a,b".to_string()), Err(ValidationError::InvalidChar));
    assert_eq!(validate_value("a=b".to_string()), Err(ValidationError::InvalidChar));
    assert_eq!(validate_value("a\tb".to_string()), Err(ValidationError::InvalidChar));
    assert_eq!(validate_value("a\u{7f}".to_string()), Err(ValidationError::InvalidChar));
    assert_eq!(validate_value("caf\u{e9}".to_string()), Err(ValidationError::InvalidChar));
    assert_eq!(validate_value("x".repeat(256)), Err(ValidationError::TooLong));
}

#[test]
fn builder_copies_parent_on_first_change() {
    let parent = TraceStateBuilder::builder()
        .set("a", "1")
        .unwrap()
        .set("b", "2")
        .unwrap()
        .build()
        .unwrap();
    let child = parent.as_builder().set("c", "3").unwrap().build().unwrap();
    let keys = |entries: &Vec<otel_context::trace_state::Entry>| -> Vec<String> {
        entries.iter().map(|e| e.key.clone()).collect()
    };
    assert_eq!(keys(child.entries()), vec!["c", "b", "a"]);
    assert_eq!(keys(parent.entries()), vec!["b", "a"]);
    let same = parent.as_builder().build().unwrap();
    assert_eq!(same, parent);
    let moved = parent.as_builder().set("a", "9").unwrap().build().unwrap();
    assert_eq!(keys(moved.entries()), vec!["a", "b"]);
    assert_eq!(moved.get("a").unwrap().value, "9");
    assert_eq!(parent.get("a").unwrap().value, "1");
}

#[test]
fn remove_drops_the_entry_if_present() {
    let builder = TraceStateBuilder::builder()
        .set("a", "1")
        .unwrap()
        .set("b", "2")
        .unwrap()
        .set("c", "3")
        .unwrap();
    let builder = builder.remove("b").unwrap();
    assert_eq!(
        pairs(builder),
        vec![("c".to_string(), "3".to_string()), ("a".to_string(), "1".to_string())]
    );
    let builder = TraceStateBuilder::builder().set("a", "1").unwrap().remove("zz").unwrap();
    assert_eq!(pairs(builder), vec![("a".to_string(), "1".to_string())]);
    let builder = TraceStateBuilder::builder().remove("a").unwrap();
    assert!(pairs(builder).is_empty());
}

#[test]
fn set_and_remove_validate_every_call() {
    assert_eq!(
        TraceStateBuilder::builder().set("", "v").unwrap_err(),
        ValidationError::Empty
    );
    assert_eq!(
        TraceStateBuilder::builder().set("Key", "v").unwrap_err(),
        ValidationError::InvalidFirstChar
    );
    assert_eq!(
        TraceStateBuilder::builder().set("key", "a=b").unwrap_err(),
        ValidationError::InvalidChar
    );
    assert_eq!(
        TraceStateBuilder::builder().set("k y", "a=b").unwrap_err(),
        ValidationError::InvalidChar
    );
    assert_eq!(
        TraceStateBuilder::builder().set("key", &"v".repeat(256)).unwrap_err(),
        ValidationError::TooLong
    );
    assert_eq!(
        TraceStateBuilder::builder().remove("not a key").unwrap_err(),
        ValidationError::InvalidChar
    );
}

#[test]
fn get_finds_the_entry_by_key() {
    let state = TraceStateBuilder::builder()
        .set("a", "1")
        .unwrap()
        .set("b", "2")
        .unwrap()
        .build()
        .unwrap();
    assert_eq!(state.get("a").unwrap().value, "1");
    assert_eq!(state.get("b").unwrap().key, "b");
    assert!(state.get("c").is_none());
    assert!(state.get("").is_none());
    let empty = TraceStateBuilder::builder().build().unwrap();
    assert!(empty.get("a").is_none());
    assert!(empty.entries().is_empty());
    assert_eq!(empty.clone(), empty);
}

#[test]
fn removing_below_the_cap_lets_the_state_build() {
    let mut builder = TraceStateBuilder::builder();
    for i in 0..33 {
        builder = builder.set(&format!("k{}", i), "v").unwrap();
    }
    let state = builder.remove("k5").unwrap().build().unwrap();
    assert_eq!(state.entries().len(), 32);
    assert!(state.get("k5").is_none());
}

#[test]
fn default_builder_is_the_empty_builder() {
    assert_eq!(TraceStateBuilder::default(), TraceStateBuilder::builder());
    assert!(pairs(TraceStateBuilder::default()).is_empty());
}

#[test]
fn cloned_builder_is_edited_on_its_own() {
    let parent = TraceStateBuilder::builder().set("p", "0").unwrap().build().unwrap();
    let untouched = parent.as_builder();
    assert_eq!(untouched.clone(), untouched);
    let first = untouched.clone().set("a", "1").unwrap();
    let second = first.clone().set("b", "2").unwrap();
    assert_eq!(first.clone(), first);
    assert_eq!(
        pairs(first),
        vec![("a".to_string(), "1".to_string()), ("p".to_string(), "0".to_string())]
    );
    assert_eq!(
        pairs(second),
        vec![
            ("b".to_string(), "2".to_string()),
            ("a".to_string(), "1".to_string()),
            ("p".to_string(), "0".to_string())
        ]
    );
    assert_eq!(pairs(untouched), vec![("p".to_string(), "0".to_string())]);
}

#[test]
fn builder_of_a_state_differs_from_a_builder_that_copied_it() {
    let parent = TraceStateBuilder::builder().set("p", "0").unwrap().build().unwrap();
    let lazy = parent.as_builder();
    let edited = parent.as_builder().set("x", "1").unwrap().remove("x").unwrap();
    assert_ne!(lazy, edited);
    assert_eq!(pairs(lazy), pairs(edited));
}
