use otel_context::span_context::SpanContext;
use otel_context::span_id::SpanId;
use otel_context::trace_id::TraceId;
use otel_context::trace_options::TraceOptions;
use otel_context::trace_state::TraceStateBuilder;
use rand::rngs::mock::StepRng;
use rand::rngs::StdRng;
use rand::{Rng, SeedableRng};

#[test]
fn trace_id_bytes_round_trip() {
    let bytes: [u8; 16] = [
        0x00, 0x01, 0x02, 0x03, 0x04, 0x05, 0x06, 0x07, 0xf8, 0xf9, 0xfa, 0xfb, 0xfc, 0xfd, 0xfe,
        0xff,
    ];
    assert_eq!(TraceId::from_bytes(bytes).to_bytes(), bytes);
    assert_eq!(TraceId::from_bytes(bytes), TraceId(0x0001_0203_0405_0607_f8f9_fafb_fcfd_feff));
    assert_eq!(TraceId::from_bytes(bytes), TraceId(u128::from_be_bytes(bytes)));
    assert_eq!(TraceId::from(bytes), TraceId::from_bytes(bytes));
    assert_eq!(TraceId::from_bytes([0; 16]).to_bytes(), [0; 16]);
    assert_eq!(TraceId::from_bytes([0xff; 16]).to_bytes(), [0xff; 16]);
    assert_eq!(TraceId(u128::MAX).to_bytes(), [0xff; 16]);
    assert_eq!(TraceId(1).to_bytes(), 1u128.to_be_bytes());
}

#[test]
fn span_id_bytes_round_trip() {
    let bytes: [u8; 8] = [0x00, 0x01, 0x7f, 0x80, 0xab, 0xcd, 0xef, 0xff];
    assert_eq!(SpanId::from_bytes(bytes).to_bytes(), bytes);
    assert_eq!(SpanId::from_bytes(bytes), SpanId::new(0x0001_7f80_abcd_efff));
    assert_eq!(SpanId::from_bytes([0; 8]).to_bytes(), [0; 8]);
    assert_eq!(SpanId::from_bytes([0xff; 8]).to_bytes(), [0xff; 8]);
    assert_eq!(SpanId::new(258).to_bytes(), [0, 0, 0, 0, 0, 0, 1, 2]);
}

#[test]
fn invalid_identifiers_are_the_zero_values() {
    assert!(!TraceId::get_invalid().is_valid());
    assert!(!SpanId::invalid().is_valid());
    assert_eq!(TraceId::get_invalid(), TraceId(0));
    assert_eq!(SpanId::invalid(), SpanId::new(0));
    assert!(!TraceId::from_bytes([0; 16]).is_valid());
    assert!(!SpanId::from_bytes([0; 8]).is_valid());
}

#[test]
fn nonzero_identifiers_are_valid() {
    assert!(TraceId::from(1u128).is_valid());
    assert!(TraceId::from(u128::MAX).is_valid());
    assert!(TraceId::from(1u128 << 127).is_valid());
    assert!(!TraceId::from(0u128).is_valid());
    assert!(SpanId::new(1).is_valid());
    assert!(SpanId::new(u64::MAX).is_valid());
    assert!(SpanId::from_bytes([0, 0, 0, 0, 0, 0, 0, 1]).is_valid());
}

#[test]
fn identifier_sizes() {
    assert_eq!(TraceId::get_size(), 16);
    assert_eq!(SpanId::get_size(), 8);
    assert_eq!(TraceOptions::get_size(), 1);
}

#[test]
fn hex_is_lowercase_and_zero_padded() {
    assert_eq!(TraceId(0).as_hex(), "00000000000000000000000000000000");
    assert_eq!(TraceId(0xABC).as_hex(), "00000000000000000000000000000abc");
    assert_eq!(
        TraceId(0x0123_4567_89ab_cdef_fedc_ba98_7654_3210).as_hex(),
        "0123456789abcdeffedcba9876543210"
    );
    assert_eq!(SpanId::new(0).as_hex(), "0000000000000000");
    assert_eq!(SpanId::new(0x1F).as_hex(), "000000000000001f");
    assert_eq!(SpanId::new(u64::MAX).as_hex(), "ffffffffffffffff");
    assert_eq!(SpanId::new(0xdead_beef).as_hex(), format!("{:016x}", 0xdead_beefu64));
}

#[test]
fn random_identifiers_are_never_invalid() {
    let mut rng = StdRng::seed_from_u64(7);
    for _ in 0..2000 {
        assert!(TraceId::generate_random_id(&mut rng).is_valid());
        assert!(SpanId::generate_random_id(&mut rng).is_valid());
    }
}

#[test]
fn random_identifiers_follow_the_generator() {
    let mut first = StdRng::seed_from_u64(42);
    let mut second = StdRng::seed_from_u64(42);
    let a = TraceId::generate_random_id(&mut first);
    let b = TraceId::generate_random_id(&mut second);
    assert_eq!(a, b);
    let c = TraceId::generate_random_id(&mut first);
    assert_ne!(a, c);
    let s1 = SpanId::generate_random_id(&mut first);
    let s2 = SpanId::generate_random_id(&mut first);
    assert_ne!(s1, s2);
}

#[test]
fn trace_options_flags() {
    let none = TraceOptions::default();
    let sampled = TraceOptions::sampled();
    assert_eq!(none, TraceOptions::default_options());
    assert_eq!(none.bits(), 0);
    assert_eq!(sampled.bits(), 1);
    assert!(none.is_empty());
    assert!(!sampled.is_empty());
    assert!(sampled.is_sampled());
    assert!(!none.is_sampled());
    assert!(sampled.contains(none));
    assert!(sampled.contains(sampled));
    assert!(!none.contains(sampled));
    assert!(!none.intersects(sampled));
    assert!(sampled.intersects(sampled));
    assert_eq!(none.union(sampled), sampled);
    assert_eq!(sampled.union(none), sampled);
    assert_eq!(sampled.intersection(none), none);
    assert_eq!(sampled.intersection(sampled), sampled);
    assert_eq!(sampled.difference(sampled), none);
    assert_eq!(sampled.difference(none), sampled);
    assert_eq!(TraceOptions::all(), sampled);
}

#[test]
fn trace_options_from_bits() {
    assert_eq!(TraceOptions::from_bits(0), Some(TraceOptions::default()));
    assert_eq!(TraceOptions::from_bits(1), Some(TraceOptions::sampled()));
    assert_eq!(TraceOptions::from_bits(2), None);
    assert_eq!(TraceOptions::from_bits(0xff), None);
    assert_eq!(TraceOptions::from_bits_truncate(0xff), TraceOptions::sampled());
    assert_eq!(TraceOptions::from_bits_truncate(0xfe), TraceOptions::default());
}

#[test]
fn invalid_span_context_is_invalid_and_always_the_same() {
    let a = SpanContext::invalid();
    let b = SpanContext::invalid();
    assert!(!a.is_valid());
    assert_eq!(a, b);
    assert_eq!(a, SpanContext::default());
    assert_eq!(a.trace_id, TraceId::get_invalid());
    assert_eq!(a.span_id, SpanId::invalid());
    assert_eq!(a.options, TraceOptions::default());
    assert!(a.state.entries().is_empty());
}

#[test]
fn span_context_is_valid_when_both_identifiers_are() {
    let state = || TraceStateBuilder::builder().set("vendor", "x").unwrap().build().unwrap();
    let both = SpanContext::new(TraceId(1), SpanId::new(2), TraceOptions::sampled(), state());
    assert!(both.is_valid());
    assert_eq!(both.clone(), both);
    assert_eq!(both.state.get("vendor").unwrap().value, "x");
    let no_trace = SpanContext::new(TraceId(0), SpanId::new(2), TraceOptions::sampled(), state());
    assert!(!no_trace.is_valid());
    let no_span = SpanContext::new(TraceId(1), SpanId::new(0), TraceOptions::sampled(), state());
    assert!(!no_span.is_valid());
    assert_ne!(both, no_span);
}

#[test]
fn identifier_of_a_sample_is_the_sample_plus_one() {
    assert_eq!(TraceId::from_sample(0), TraceId(1));
    assert_eq!(TraceId::from_sample(41), TraceId(42));
    assert_eq!(TraceId::from_sample(u128::MAX - 1), TraceId(u128::MAX));
    assert!(TraceId::from_sample(0).is_valid());
    assert_eq!(SpanId::from_sample(0), SpanId::new(1));
    assert_eq!(SpanId::from_sample(u64::MAX - 1), SpanId::new(u64::MAX));
    assert!(SpanId::from_sample(0).is_valid());
}

#[test]
fn identifiers_can_be_made_from_a_mock_generator() {
    let mut mock = StepRng::new(0, 0x0123_4567_89ab_cdef);
    for _ in 0..100 {
        let sample: u64 = mock.gen_range(0u64, u64::MAX);
        let id = SpanId::from_sample(sample);
        assert!(id.is_valid());
        assert_eq!(id, SpanId::new(sample + 1));
        let wide: u128 = mock.gen_range(0u128, u128::MAX);
        assert_eq!(TraceId::from_sample(wide), TraceId(wide + 1));
    }
}
