use hq::ingest::{is_gzip, flag_set};

#[test]
fn gzip_magic_is_recognized() {
    assert!(is_gzip(&vec![0x1f, 0x8b, 0x08, 0x00]));
}

#[test]
fn short_or_plain_payloads_are_not_gzip() {
    assert!(!is_gzip(&vec![]));
    assert!(!is_gzip(&vec![0x1f]));
    assert!(!is_gzip(&vec![0x1f, 0x8c]));
    assert!(!is_gzip(&b"<html></html>".to_vec()));
}

#[test]
fn flag_values_true_and_one_switch_on() {
    assert!(flag_set(Some(&"true".to_string())));
    assert!(flag_set(Some(&"1".to_string())));
}

#[test]
fn other_flag_values_stay_off() {
    assert!(!flag_set(Some(&"false".to_string())));
    assert!(!flag_set(Some(&"0".to_string())));
    assert!(!flag_set(Some(&"TRUE".to_string())));
    assert!(!flag_set(Some(&"".to_string())));
    assert!(!flag_set(None));
}
