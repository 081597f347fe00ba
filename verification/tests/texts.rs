use nexkvm::fingerprint::normalize_fingerprint;
use nexkvm::fingerprint::parse_fingerprint;
use nexkvm::sorting::order_by_keys;
use nexkvm::sorting::order_by_two_keys;
use nexkvm::sorting::order_names;
use nexkvm::text::ascii_lowercase;
use nexkvm::text::decimal_text;
use nexkvm::text::hex_text;
use nexkvm::text::is_control;
use nexkvm::text::is_white_space;
use nexkvm::text::join;
use nexkvm::text::plain_excerpt_text;
use nexkvm::text::plain_prefix_text;
use nexkvm::text::same_ignoring_ascii_case;
use nexkvm::text::signed_decimal_text;
use nexkvm::text::text_precedes;
use nexkvm::text::trim;
use nexkvm::text::trim_end;

#[test]
fn characters_are_classed_as_the_standard_library_does() {
    for code in 0..=0x10ffffu32 {
        if let Some(c) = char::from_u32(code) {
            assert_eq!(is_white_space(c), c.is_whitespace(), "{code:x}");
            assert_eq!(is_control(c), c.is_control(), "{code:x}");
        }
    }
}

#[test]
fn texts_are_trimmed_and_cut() {
    for text in ["", " ", "a", " a b ", "\u{a0}x\u{3000}", "\n\tq\r", "x\u{200b}"] {
        assert_eq!(trim(text), text.trim());
        assert_eq!(trim_end(text), text.trim_end());
        assert_eq!(ascii_lowercase(text), text.to_ascii_lowercase());
    }
    assert_eq!(plain_prefix_text("a\u{7}bc", 2), "a ");
    assert_eq!(plain_excerpt_text("abc", 3), "abc");
    assert_eq!(plain_excerpt_text("a\nbcd", 3), "a b…");
    assert!(same_ignoring_ascii_case("AbÄ", "aBÄ") && !same_ignoring_ascii_case("ä", "Ä"));
}

#[test]
fn numbers_are_written_out() {
    for n in [0, 1, 9, 10, 255, 1_000_000, u64::MAX] {
        assert_eq!(decimal_text(n), n.to_string());
        assert_eq!(hex_text(n, 16), format!("{n:016x}"));
    }
    for n in [0, 1, -1, i32::MAX, i32::MIN] {
        assert_eq!(signed_decimal_text(n), n.to_string());
    }
    assert_eq!(
        join(&vec!["a".into(), "b".into(), "c".into()], ", "),
        "a, b, c"
    );
    assert_eq!(join(&vec![], ", "), "");
}

#[test]
fn texts_are_ordered_as_the_standard_library_does() {
    let texts = ["", "a", "B", "ab", "b", "ä", "\u{ffff}", "\u{10000}", "aé"];
    for a in texts {
        for b in texts {
            assert_eq!(text_precedes(a, b), a < b, "{a:?} {b:?}");
        }
    }
    let keys: Vec<String> = ["c", "a", "b", "a"].iter().map(|k| k.to_string()).collect();
    assert_eq!(order_by_keys(&keys), [1, 3, 2, 0]);
    let second: Vec<String> = ["1", "2", "3", "1"].iter().map(|k| k.to_string()).collect();
    assert_eq!(order_by_two_keys(&keys, &second), [3, 1, 2, 0]);
    let order = order_names(&keys);
    let sorted: Vec<&str> = order.iter().map(|i| keys[*i].as_str()).collect();
    assert_eq!(sorted, ["a", "a", "b", "c"]);
}

#[test]
fn normalized_fingerprints_read_back() {
    assert_eq!(normalize_fingerprint(" 0xFF "), Ok("00000000000000ff".into()));
    assert_eq!(
        parse_fingerprint(&normalize_fingerprint("0xABCDEF").unwrap()),
        Some(0xABCDEF)
    );
    assert!(normalize_fingerprint("0x").is_err());
}
