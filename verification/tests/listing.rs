use help_offers::listing::latest_keys;
use help_offers::offer::Offer;

fn keys(list: &[&str]) -> Vec<String> {
    list.iter().map(|key| key.to_string()).collect()
}

#[test]
fn latest_two_of_three() {
    let held = keys(&["100_a", "50_b", "200_c"]);
    assert_eq!(Offer::LatestN(&held, 2), keys(&["200_c", "100_a"]));
}

#[test]
fn all_keys_from_latest_to_earliest() {
    let held = keys(&["100_a", "50_b", "200_c", "7_d", "1000_e"]);
    assert_eq!(
        Offer::LatestN(&held, 1024),
        keys(&["1000_e", "200_c", "100_a", "50_b", "7_d"])
    );
    assert_eq!(Offer::LatestN(&held, 5), keys(&["1000_e", "200_c", "100_a", "50_b", "7_d"]));
    assert_eq!(Offer::LatestN(&held, usize::MAX), Offer::LatestN(&held, 5));
}

#[test]
fn times_are_ranked_by_value_not_by_text() {
    let held = keys(&["9_a", "10_b", "100_c", "99_d"]);
    assert_eq!(Offer::LatestN(&held, 4), keys(&["100_c", "99_d", "10_b", "9_a"]));
}

#[test]
fn listing_of_none() {
    let held = keys(&["100_a", "50_b"]);
    assert_eq!(Offer::LatestN(&held, 0), Vec::<String>::new());
    assert_eq!(Offer::LatestN(&Vec::new(), 10), Vec::<String>::new());
}

#[test]
fn unreadable_key_is_kept_and_comes_first() {
    let held = keys(&["100_a", "oops_d", "200_c"]);
    assert_eq!(
        Offer::LatestN(&held, 3),
        keys(&["18446744073709551615_d", "200_c", "100_a"])
    );
    assert_eq!(Offer::LatestN(&held, 1), keys(&["18446744073709551615_d"]));
}

#[test]
fn key_without_underscore_is_kept_and_comes_first() {
    let held = keys(&["100_a", "nounderscore", "1_b"]);
    assert_eq!(
        Offer::LatestN(&held, 3),
        keys(&["18446744073709551615_fail", "100_a", "1_b"])
    );
    assert_eq!(Offer::LatestN(&held, 1), keys(&["18446744073709551615_fail"]));
}

#[test]
fn key_without_underscore_comes_first_in_whatever_order_it_is_listed() {
    let expected = keys(&["18446744073709551615_fail", "5_a"]);
    assert_eq!(Offer::LatestN(&keys(&["nounderscore", "5_a"]), 2), expected);
    assert_eq!(Offer::LatestN(&keys(&["5_a", "nounderscore"]), 2), expected);
}

#[test]
fn keys_of_one_time_come_in_reverse_of_their_listing() {
    let held = keys(&["5_a", "7_x", "5_b", "5_c", "3_y"]);
    assert_eq!(Offer::LatestN(&held, 5), keys(&["7_x", "5_c", "5_b", "5_a", "3_y"]));
    let held = keys(&["oops_a", "18446744073709551615_b", "bad_c"]);
    assert_eq!(
        Offer::LatestN(&held, 2),
        keys(&["18446744073709551615_c", "18446744073709551615_b"])
    );
}

#[test]
fn listing_is_as_sorting_and_reversing_gives_it() {
    let held = keys(&[
        "100_a", "50_b", "200_c", "oops_d", "50_e", "+50_f", "050_g", "none", "200_h", "_i", "0_j",
    ]);
    let mut pairs: Vec<(u64, String)> = held
        .iter()
        .map(|key| match key.split_once("_") {
            Some(kv) => (kv.0.parse::<u64>().unwrap_or(u64::MAX), kv.1.to_string()),
            None => (u64::MAX, "fail".to_string()),
        })
        .collect();
    pairs.sort_by_key(|k| k.0);
    pairs.reverse();
    let sorted: Vec<String> = pairs.iter().map(|kv| format!("{}_{}", kv.0, kv.1)).collect();
    for amount in 0..=held.len() + 1 {
        let expected: Vec<String> = sorted.iter().take(amount).cloned().collect();
        assert_eq!(Offer::LatestN(&held, amount), expected);
        assert_eq!(latest_keys(&held, amount), expected);
    }
}

#[test]
fn plus_sign_and_leading_zeros_are_written_back_plain() {
    let held = keys(&["+7_a", "0008_b"]);
    assert_eq!(Offer::LatestN(&held, 2), keys(&["8_b", "7_a"]));
}

#[test]
fn listing_twice_gives_the_same() {
    let held = keys(&["100_a", "50_b", "200_c", "oops_d", "50_e"]);
    let first = Offer::LatestN(&held, 3);
    let second = Offer::LatestN(&held, 3);
    assert_eq!(first, second);
    assert_eq!(first, keys(&["18446744073709551615_d", "200_c", "100_a"]));
}

#[test]
fn listing_of_distinct_times_does_not_depend_on_the_order_listed() {
    let one = keys(&["100_a", "50_b", "200_c", "oops_d"]);
    let other = keys(&["oops_d", "200_c", "50_b", "100_a"]);
    for amount in 0..5 {
        assert_eq!(Offer::LatestN(&one, amount), Offer::LatestN(&other, amount));
    }
}

#[test]
fn get_latest() {
    let held = keys(&["1700000003_aaaa", "1700000001_bbbb", "1700000002_cccc"]);
    let latest = Offer::LatestN(&held, 10);
    assert_eq!(latest, keys(&["1700000003_aaaa", "1700000002_cccc", "1700000001_bbbb"]));
}
