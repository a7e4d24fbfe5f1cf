use help_offers::key::{decode_key, encode_key, parse_epoch, KeyParts};
use help_offers::offer::rnd_id;

fn parts(epoch: u64, id: &str) -> KeyParts {
    KeyParts { epoch, id: id.to_string() }
}

#[test]
fn key_is_epoch_underscore_id() {
    assert_eq!(encode_key(1_700_000_000, "aB3k"), "1700000000_aB3k");
    assert_eq!(encode_key(0, "x"), "0_x");
    assert_eq!(encode_key(7, ""), "7_");
    assert_eq!(encode_key(10, "a_b"), "10_a_b");
    assert_eq!(encode_key(u64::MAX, "z"), "18446744073709551615_z");
    assert_eq!(encode_key(1_000_000, "ś"), "1000000_ś");
}

#[test]
fn key_is_as_format_writes_it() {
    for epoch in [0u64, 1, 9, 10, 11, 99, 100, 101, 12345, 1u64 << 32, u64::MAX - 1, u64::MAX] {
        assert_eq!(encode_key(epoch, "id"), format!("{}_{}", epoch, "id"));
    }
}

#[test]
fn key_is_cut_at_its_first_underscore() {
    assert_eq!(decode_key("1700000000_aB3k"), parts(1_700_000_000, "aB3k"));
    assert_eq!(decode_key("100_a_b"), parts(100, "a_b"));
    assert_eq!(decode_key("100__"), parts(100, "_"));
    assert_eq!(decode_key("5_"), parts(5, ""));
    assert_eq!(decode_key("3_ąę"), parts(3, "ąę"));
}

#[test]
fn unreadable_time_is_the_greatest() {
    assert_eq!(decode_key("oops_d"), parts(u64::MAX, "d"));
    assert_eq!(decode_key("_d"), parts(u64::MAX, "d"));
    assert_eq!(decode_key("-1_d"), parts(u64::MAX, "d"));
    assert_eq!(decode_key("1.5_d"), parts(u64::MAX, "d"));
    assert_eq!(decode_key(" 1_d"), parts(u64::MAX, "d"));
    assert_eq!(decode_key("18446744073709551616_d"), parts(u64::MAX, "d"));
    assert_eq!(decode_key("١٢_d"), parts(u64::MAX, "d"));
}

#[test]
fn key_without_underscore_is_read_as_the_greatest_time() {
    assert_eq!(decode_key("1700000000"), parts(u64::MAX, "fail"));
    assert_eq!(decode_key(""), parts(u64::MAX, "fail"));
    assert_eq!(decode_key("oops"), parts(u64::MAX, "fail"));
    assert_eq!(decode_key("nounderscore"), parts(u64::MAX, "fail"));
}

#[test]
fn epoch_is_parsed_as_std_parses_it() {
    for text in [
        "", "0", "7", "007", "+7", "+", "++7", "-7", "7+", "1700000000", "18446744073709551615",
        "18446744073709551616", "99999999999999999999", "000000000000000000000000000001",
        "+18446744073709551615", "12a", "a12", " 12", "12 ", "１２", "1_2", "٣",
    ] {
        assert_eq!(parse_epoch(text), text.parse::<u64>().ok(), "{text:?}");
    }
}

#[test]
fn epoch_values() {
    assert_eq!(parse_epoch("1700000000"), Some(1_700_000_000));
    assert_eq!(parse_epoch("+5"), Some(5));
    assert_eq!(parse_epoch("0010"), Some(10));
    assert_eq!(parse_epoch("18446744073709551615"), Some(u64::MAX));
    assert_eq!(parse_epoch("18446744073709551616"), None);
    assert_eq!(parse_epoch(""), None);
    assert_eq!(parse_epoch("+"), None);
    assert_eq!(parse_epoch("oops"), None);
}

#[test]
fn written_key_is_read_back() {
    for epoch in [0u64, 1, 10, 1_700_000_000, u64::MAX] {
        for id in ["aB3k", "", "a_b", "_", "ж"] {
            assert_eq!(decode_key(&encode_key(epoch, id)), parts(epoch, id));
        }
    }
}

#[test]
fn rnd_id_has_the_length_asked_for() {
    for len in [0usize, 1, 4, 8, 100] {
        let id = rnd_id(len);
        assert_eq!(id.len(), len);
        assert!(id.chars().all(|c| c.is_ascii_alphanumeric()));
    }
}

#[test]
fn rnd_id_varies() {
    let first = rnd_id(32);
    let mut differs = false;
    for _ in 0..20 {
        if rnd_id(32) != first {
            differs = true;
        }
    }
    assert!(differs);
}
