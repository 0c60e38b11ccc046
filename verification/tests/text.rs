use stremio_service::base32::base32_decode;
use stremio_service::info_hash::normalize_info_hash;
use stremio_service::json::Double;
use stremio_service::table::Table;
use stremio_service::text::{
    ends_with, extension_of, parse_i64, parse_u32, show_i64, show_u64, split_lines, starts_with,
    strip_prefix, to_lower, trim, trim_end_slashes, trim_start,
};

const HEX: &str = "0123456789abcdef0123456789abcdef01234567";

#[test]
fn lines_end_at_line_feeds() {
    assert_eq!(split_lines(""), Vec::<String>::new());
    assert_eq!(split_lines("a\nb"), vec!["a", "b"]);
    assert_eq!(split_lines("a\r\nb\n"), vec!["a", "b"]);
    assert_eq!(split_lines("\n\n"), vec!["", ""]);
    assert_eq!(split_lines("a\rb\r"), vec!["a\rb\r"]);
    for text in ["x\r\r\ny", "#EXTM3U\n\n a \n", "é\nü"] {
        let expected: Vec<String> = text.lines().map(|l| l.to_owned()).collect();
        assert_eq!(split_lines(text), expected);
    }
}

#[test]
fn white_space_is_trimmed() {
    for text in ["", "  ", "\t a b \n", "\u{a0}x\u{3000}", "é "] {
        assert_eq!(trim(text), text.trim());
        assert_eq!(trim_start(text), text.trim_start());
    }
}

#[test]
fn only_ascii_letters_are_lowered() {
    assert_eq!(to_lower("AbC-É9"), "abc-É9");
}

#[test]
fn ends_of_texts() {
    assert!(starts_with("magnet:?x", "magnet:"));
    assert!(!starts_with("mag", "magnet:"));
    assert!(ends_with("master.m3u8", ".m3u8"));
    assert!(!ends_with("m3u8", ".m3u8"));
    assert_eq!(strip_prefix("urn:btih:abc", "urn:btih:"), Some("abc"));
    assert_eq!(strip_prefix("urn:sha1:abc", "urn:btih:"), None);
    assert_eq!(trim_end_slashes("https://x//"), "https://x");
    assert_eq!(extension_of("a.b.mkv"), "mkv");
    assert_eq!(extension_of("noext"), "noext");
    assert_eq!(extension_of("dot."), "");
}

#[test]
fn decimals_are_read_and_written() {
    for n in [0i64, 7, -1, i64::MAX, i64::MIN] {
        assert_eq!(show_i64(n), n.to_string());
        assert_eq!(parse_i64(&n.to_string()), Some(n));
    }
    assert_eq!(show_u64(u64::MAX), u64::MAX.to_string());
    for text in ["", "+", "-", "+5", "-5", "--5", "9223372036854775808", "1a", " 1", "007"] {
        assert_eq!(parse_i64(text), text.parse::<i64>().ok());
        assert_eq!(parse_u32(text), text.parse::<u32>().ok());
    }
    assert_eq!(parse_u32("4294967295"), Some(u32::MAX));
    assert_eq!(parse_u32("4294967296"), None);
}

#[test]
fn base32_is_decoded() {
    assert_eq!(base32_decode("MZXW6YTBOI"), Some(b"foobar".to_vec()));
    assert_eq!(base32_decode("mzxw6"), Some(b"foo".to_vec()));
    assert_eq!(base32_decode("MZXW6==="), None);
    assert_eq!(base32_decode("M1"), None);
    assert_eq!(base32_decode(""), Some(vec![]));
}

#[test]
fn info_hashes_have_one_form() {
    assert_eq!(normalize_info_hash(&HEX.to_uppercase()), HEX);
    assert_eq!(normalize_info_hash(&format!("  {HEX} ")), HEX);
    // Twenty zero bytes and twenty bytes of ones.
    assert_eq!(
        normalize_info_hash("AAAAAAAAAAAAAAAAAAAAAAAAAAAAAAAA"),
        "0000000000000000000000000000000000000000"
    );
    assert_eq!(
        normalize_info_hash("77777777777777777777777777777777"),
        "ffffffffffffffffffffffffffffffffffffffff"
    );
    assert_eq!(normalize_info_hash("NotAHash"), "notahash");
}

#[test]
fn normal_forms_are_stable() {
    for raw in [HEX, "AAAAAAAAAAAAAAAAAAAAAAAAAAAAAAAA", "  Odd One ", ""] {
        let once = normalize_info_hash(raw);
        assert_eq!(normalize_info_hash(&once), once);
        assert_eq!(to_lower(&once), once);
        assert_eq!(normalize_info_hash(&to_lower(raw)), once);
    }
}

#[test]
fn progress_is_compared_with_one() {
    for (value, full) in [
        (1.0f64, true),
        (1.5, true),
        (0.999, false),
        (0.0, false),
        (-1.0, false),
        (-2.0, false),
        (f64::INFINITY, true),
        (f64::NAN, false),
    ] {
        assert_eq!(Double { bits: value.to_bits() }.at_least_one(), full);
    }
}

#[test]
fn tables_keep_one_value_per_key() {
    let mut table: Table<u64> = Table::new();
    assert!(table.get("a").is_none());
    table.insert("a".to_owned(), 1);
    table.insert("b".to_owned(), 2);
    table.insert("a".to_owned(), 3);
    assert_eq!(table.get("a"), Some(&3));
    assert_eq!(table.get("b"), Some(&2));
    assert_eq!(table.remove("a"), Some(3));
    assert_eq!(table.remove("a"), None);
    assert_eq!(table.pop(), Some(("b".to_owned(), 2)));
    assert_eq!(table.pop(), None);
}
