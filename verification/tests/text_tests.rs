use wick_components::numbers::{decimal_text, parse_u32};
use wick_components::strings::{concatenate, greet};
use wick_components::text::{join, replace, split, trim, trim_start_matches};

#[test]
fn split_keeps_empty_pieces() {
    assert_eq!(split("a,,b", ","), vec!["a", "", "b"]);
    assert_eq!(split("", ","), vec![""]);
    assert_eq!(split("abc", ""), vec!["", "a", "b", "c", ""]);
}

#[test]
fn join_of_split_gives_back_the_text() {
    for s in ["www.example.com", "", ".", "a..b.", "no-dot"] {
        let parts = split(s, ".");
        assert_eq!(join(&parts, "."), s);
    }
}

#[test]
fn replace_every_occurrence() {
    assert_eq!(replace("$.a.$.b", "$.", ""), "a.b");
    assert_eq!(replace("aaa", "aa", "b"), "ba");
}

#[test]
fn trim_both_ends() {
    assert_eq!(trim("  10.0.0.1 \t"), "10.0.0.1");
    assert_eq!(trim("   "), "");
}

#[test]
fn trim_leading_slashes() {
    assert_eq!(trim_start_matches("//index.html", '/'), "index.html");
    assert_eq!(trim_start_matches("a/", '/'), "a/");
}

#[test]
fn decimal_text_values() {
    assert_eq!(decimal_text(0), "0");
    assert_eq!(decimal_text(7), "7");
    assert_eq!(decimal_text(1024), "1024");
    assert_eq!(decimal_text(u64::MAX), "18446744073709551615");
}

#[test]
fn parse_u32_accepts_what_std_accepts() {
    assert_eq!(parse_u32("42"), Some(42));
    assert_eq!(parse_u32("+42"), Some(42));
    assert_eq!(parse_u32("0042"), Some(42));
    assert_eq!(parse_u32("4294967295"), Some(u32::MAX));
    assert_eq!(parse_u32("4294967296"), None);
    assert_eq!(parse_u32(""), None);
    assert_eq!(parse_u32("+"), None);
    assert_eq!(parse_u32("-1"), None);
    assert_eq!(parse_u32("1 "), None);
    assert_eq!(parse_u32("١٢"), None);
    for s in ["42", "+42", "0042", "4294967296", "", "+", "-1", "1 ", "١٢"] {
        assert_eq!(parse_u32(s), s.parse::<u32>().ok());
    }
}

#[test]
fn decimal_text_reads_back() {
    for n in [0u32, 9, 10, 99, 12345, u32::MAX] {
        assert_eq!(parse_u32(&decimal_text(n as u64)), Some(n));
    }
}

#[test]
fn greet_and_concatenate() {
    assert_eq!(greet("World"), "Hello, World");
    assert_eq!(concatenate("foo", "bar"), "foobar");
}

#[test]
fn text_functions_agree_with_std() {
    let samples = [
        "", " ", "a", " a b ", "\u{3000}x\u{2028}", "\u{85}y\u{a0}", "a,b,,c,", ",,", "x.y.z",
        "\tline\n", "ab\u{200a}",
    ];
    for s in samples {
        assert_eq!(trim(s), s.trim());
        assert_eq!(trim_start_matches(s, ','), s.trim_start_matches(','));
        for sep in [",", ".", ",,", "ab", ""] {
            let ours = split(s, sep);
            let theirs: Vec<&str> = s.split(sep).collect();
            assert_eq!(ours, theirs);
            assert_eq!(replace(s, sep, "-"), s.replace(sep, "-"));
        }
    }
}
