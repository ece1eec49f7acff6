use kvs3::store::cache_header;
use kvs3::store::effective_cache_age;
use kvs3::store::resolve_get;
use kvs3::store::resolve_status;
use kvs3::store::u64_to_string;

#[test]
fn store_error_maps_to_500() {
    assert_eq!(resolve_status(None), 500);
}

#[test]
fn store_code_passes_through() {
    assert_eq!(resolve_status(Some(200)), 200);
    assert_eq!(resolve_status(Some(404)), 404);
}

#[test]
fn failed_read_maps_to_500_and_empty_object() {
    let (code, body) = resolve_get(None);
    assert_eq!(code, 500);
    assert_eq!(body, "{}");
}

#[test]
fn successful_read_passes_through_unchanged() {
    let (code, body) = resolve_get(Some((200, "{\"x\":5}".to_string())));
    assert_eq!(code, 200);
    assert_eq!(body, "{\"x\":5}");
}

#[test]
fn decimal_rendering() {
    assert_eq!(u64_to_string(0), "0");
    assert_eq!(u64_to_string(7), "7");
    assert_eq!(u64_to_string(90), "90");
    assert_eq!(u64_to_string(1234567890), "1234567890");
    assert_eq!(u64_to_string(u64::MAX), "18446744073709551615");
}

#[test]
fn cache_header_only_for_positive_age() {
    assert_eq!(cache_header(0), None);
    assert_eq!(cache_header(90), Some("max-age=90".to_string()));
    assert_eq!(cache_header(1), Some("max-age=1".to_string()));
}

#[test]
fn cache_age_defaults_to_zero() {
    assert_eq!(effective_cache_age(&None), 0);
    assert_eq!(effective_cache_age(&Some(30)), 30);
}
