use audio_friend::order::{find_slot, text_is_before};

#[test]
fn texts_are_ordered_as_std_orders_them() {
    let texts = [
        "", "a", "A", "ab", "b", "aa", "z", "Z", "\u{e4}", "\u{ffff}", "\u{10000}", "a\u{e9}",
        "2024-01-02T00:00:00.000Z", "2024-01-01T00:00:00.000Z",
    ];
    for a in texts {
        for b in texts {
            assert_eq!(text_is_before(a, b), a < b, "{a:?} {b:?}");
        }
    }
}

#[test]
fn items_go_behind_their_equals() {
    let keys: Vec<String> = ["a", "b", "b", "d"].iter().map(|k| k.to_string()).collect();
    assert_eq!(find_slot(&keys, "", false), 0);
    assert_eq!(find_slot(&keys, "a", false), 1);
    assert_eq!(find_slot(&keys, "b", false), 3);
    assert_eq!(find_slot(&keys, "c", false), 3);
    assert_eq!(find_slot(&keys, "e", false), 4);
    let keys: Vec<String> = ["d", "b", "b", "a"].iter().map(|k| k.to_string()).collect();
    assert_eq!(find_slot(&keys, "e", true), 0);
    assert_eq!(find_slot(&keys, "d", true), 1);
    assert_eq!(find_slot(&keys, "b", true), 3);
    assert_eq!(find_slot(&keys, "", true), 4);
    assert_eq!(find_slot(&Vec::new(), "x", true), 0);
}
