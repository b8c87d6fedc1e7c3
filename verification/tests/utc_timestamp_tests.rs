use kernel_oss::error::{Audience, Error, Kind};
use kernel_oss::values::datetime::utc_timestamp::UTCTimestamp;

fn expect_error<T: std::fmt::Debug>(result: &Result<T, Error>, kind: Kind, audience: Audience, message: &str) {
    match result {
        Ok(value) => panic!("expected an error, got {:?}", value),
        Err(error) => {
            assert_eq!(error.kind, kind);
            assert_eq!(error.audience, audience);
            assert_eq!(error.message, message);
        }
    }
}

#[test]
fn from_millis_success() {
    let ms: u64 = 1_234_567;
    let ts = UTCTimestamp::builder().use_ms(ms).build().unwrap();
    assert_eq!(ts.as_nano(), 1_234_567_000_000u128);
    assert_eq!(ts.as_milli(), 1_234_567u64);
    assert_eq!(ts.as_sec(), 1_234u64);
}

#[test]
fn from_nanos_success() {
    let ns: u128 = 9_223_372_036_854_775_807u128;
    let ts = UTCTimestamp::builder().use_ns(ns).build().unwrap();
    assert_eq!(ts.as_nano(), 9_223_372_036_854_775_807u128);
    assert_eq!(ts.as_milli(), 9_223_372_036_854u64);
    assert_eq!(ts.as_sec(), 9_223_372_036u64);
}

#[test]
fn builder_override_last_call_success() {
    let ts = UTCTimestamp::builder()
        .use_ms(1_234_567u64)
        .use_ns(9_223_372_036_854_775_807u128)
        .build()
        .unwrap();
    assert_eq!(ts.as_nano(), 9_223_372_036_854_775_807u128);
    assert_eq!(ts.as_milli(), 9_223_372_036_854u64);
    assert_eq!(ts.as_sec(), 9_223_372_036u64);
}

#[test]
fn ms_at_u64_max_success() {
    let ts = UTCTimestamp::builder()
        .use_ms(18446744073709551615u64)
        .build()
        .unwrap();
    assert_eq!(ts.as_nano(), 18446744073709551615000000u128);
    assert_eq!(ts.as_milli(), 18446744073709551615u64);
    assert_eq!(ts.as_sec(), 18446744073709551u64);
}

#[test]
fn ns_triggers_millis_cap_success() {
    let ts = UTCTimestamp::builder()
        .use_ns(18446744073709551616000000u128) // (u64::MAX + 1) * 1_000_000
        .build()
        .unwrap();
    assert_eq!(ts.as_nano(), 18446744073709551616000000u128);
    assert_eq!(ts.as_milli(), 18446744073709551615u64); // capped
    assert_eq!(ts.as_sec(), 18446744073709551u64);
}

#[test]
fn ns_causes_seconds_wrap_to_zero_success() {
    let ts = UTCTimestamp::builder()
        .use_ns(18446744073709551616000000000u128) // (u64::MAX + 1) * 1_000_000_000
        .build()
        .unwrap();
    assert_eq!(ts.as_nano(), 18446744073709551616000000000u128);
    assert_eq!(ts.as_milli(), 18446744073709551615u64); // capped
    assert_eq!(ts.as_sec(), 0u64); // cast wraps/truncates
}

#[test]
fn small_ns_yields_zero_millis_and_seconds() {
    let ts = UTCTimestamp::builder().use_ns(999_999u128).build().unwrap();
    assert_eq!(ts.as_nano(), 999_999u128);
    assert_eq!(ts.as_milli(), 0u64);
    assert_eq!(ts.as_sec(), 0u64);
}

#[test]
fn non_multiple_truncation_behavior_success() {
    let ts = UTCTimestamp::builder().use_ns(1_234_567_890u128).build().unwrap();
    assert_eq!(ts.as_nano(), 1_234_567_890u128);
    assert_eq!(ts.as_milli(), 1234u64); // floor(1_234_567_890 / 1_000_000)
    assert_eq!(ts.as_sec(), 1u64); // floor(1_234_567_890 / 1_000_000_000)
}

#[test]
fn missing_value_error() {
    let datetime = UTCTimestamp::builder().build();
    assert!(datetime.is_err());
    expect_error(
        &datetime,
        Kind::InvalidInput,
        Audience::System,
        "A value was not provided for the UTCTimestamp, please provide a valid UTCTimestamp value.",
    );
}

#[test]
fn builder_override_ms_after_ns() {
    let ts = UTCTimestamp::builder().use_ns(9u128).use_ms(1u64).build().unwrap();
    assert_eq!(ts.as_nano(), 1_000_000u128);
    let ts = UTCTimestamp::builder().use_ms(1u64).use_ns(9u128).build().unwrap();
    assert_eq!(ts.as_nano(), 9u128);
}

#[test]
fn seconds_keep_the_low_64_bits() {
    let ts = UTCTimestamp::builder()
        .use_ns(18446744073709551621000000000u128) // (u64::MAX + 6) * 1_000_000_000
        .build()
        .unwrap();
    assert_eq!(ts.as_sec(), 5u64);
    let ts = UTCTimestamp::builder().use_ns(u128::MAX).build().unwrap();
    assert_eq!(ts.as_milli(), u64::MAX);
    assert_eq!(ts.as_sec(), (u128::MAX / 1_000_000_000) as u64);
}

#[test]
fn timestamps_compare_by_nanoseconds() {
    let a = UTCTimestamp::builder().use_ns(1_500_000u128).build().unwrap();
    let b = UTCTimestamp::builder().use_ms(2u64).build().unwrap();
    assert!(a < b);
    assert_eq!(a, UTCTimestamp::builder().use_ns(1_500_000u128).build().unwrap());
    assert_eq!(a.as_milli(), 1u64);
}
