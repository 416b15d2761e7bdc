use otel_context::metric::{LabelKey, LabelValue};
use otel_context::sampler::ParentContext;
use otel_context::span::SpanKind;
use otel_context::span_context::SpanContext;
use otel_context::status::{CanonicalCode, Status};

#[test]
fn test_x() {}

#[test]
fn status_is_ok_only_for_success() {
    let ok = Status { status_code: CanonicalCode::Success, description: String::new() };
    let missing = Status { status_code: CanonicalCode::NotFound, description: String::new() };
    assert!(ok.is_ok());
    assert!(!missing.is_ok());
}

#[test]
fn with_description_keeps_the_code() {
    let missing = Status { status_code: CanonicalCode::NotFound, description: String::new() };
    let described = missing.with_description("Could not find 'important_file.txt'");
    assert_eq!(described.status_code, CanonicalCode::NotFound);
    assert_eq!(described.description, "Could not find 'important_file.txt'");
    assert_eq!(missing.description, "");
    assert_eq!(described.clone(), described);
}

#[test]
fn canonical_codes_have_their_numbers() {
    assert_eq!(CanonicalCode::Success.value(), 0);
    assert_eq!(CanonicalCode::Cancelled.value(), 1);
    assert_eq!(CanonicalCode::Unknown.value(), 2);
    assert_eq!(CanonicalCode::InvalidArgument.value(), 3);
    assert_eq!(CanonicalCode::DeadlineExceeded.value(), 4);
    assert_eq!(CanonicalCode::NotFound.value(), 5);
    assert_eq!(CanonicalCode::AlreadyExists.value(), 6);
    assert_eq!(CanonicalCode::PermissionDenied.value(), 7);
    assert_eq!(CanonicalCode::ResourceExhausted.value(), 8);
    assert_eq!(CanonicalCode::FailedPrecondition.value(), 9);
    assert_eq!(CanonicalCode::Aborted.value(), 10);
    assert_eq!(CanonicalCode::OutOfRange.value(), 11);
    assert_eq!(CanonicalCode::Unimplemented.value(), 12);
    assert_eq!(CanonicalCode::Internal.value(), 13);
    assert_eq!(CanonicalCode::Unavailable.value(), 14);
    assert_eq!(CanonicalCode::DataLoss.value(), 15);
    assert_eq!(CanonicalCode::Unauthenticated.value(), 16);
    assert!(CanonicalCode::Success < CanonicalCode::Unauthenticated);
}

#[test]
fn parent_context_gives_its_span_context() {
    let remote = ParentContext::RemoteParent(SpanContext::invalid());
    let local = ParentContext::Parent(SpanContext::invalid());
    assert_eq!(remote.context(), Some(&SpanContext::invalid()));
    assert_eq!(local.context(), Some(&SpanContext::invalid()));
    assert_eq!(ParentContext::RootSpan.context(), None);
}

#[test]
fn plain_data_types() {
    assert_eq!(SpanKind::default(), SpanKind::Internal);
    assert_ne!(SpanKind::Server, SpanKind::Client);
    let key = LabelKey { key: "method".to_string(), description: "HTTP method".to_string() };
    let value = LabelValue { value: "GET".to_string(), has_value: true };
    assert_eq!(key.key, "method");
    assert!(value.has_value);
}
