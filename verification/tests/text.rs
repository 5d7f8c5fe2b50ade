use monado_frame::text::{decimal_text, is_whitespace, parse3, split_bytes, split_on, trim, trim_end_slashes};

#[test]
fn trimming() {
    assert_eq!(trim("  a b \n"), "a b");
    assert_eq!(trim("\u{3000}\u{a0}x\u{2028}"), "x");
    assert_eq!(trim(" \t "), "");
    assert_eq!(trim(""), "");
    assert_eq!(trim("äö"), "äö");
}

#[test]
fn whitespace_is_that_of_unicode() {
    for u in 0..=0x10ffffu32 {
        if let Some(c) = char::from_u32(u) {
            assert_eq!(is_whitespace(c), c.is_whitespace(), "{u:x}");
        }
    }
}

#[test]
fn slashes_at_the_end_go() {
    assert_eq!(trim_end_slashes("http://a/b//"), "http://a/b");
    assert_eq!(trim_end_slashes("http://a"), "http://a");
    assert_eq!(trim_end_slashes("///"), "");
}

#[test]
fn splitting() {
    assert_eq!(split_on("a,b,,c", ','), ["a", "b", "", "c"]);
    assert_eq!(split_on("", ','), [""]);
    assert_eq!(split_on("ö,", ','), ["ö", ""]);
    assert_eq!(split_bytes(&b"a_b_".to_vec(), b'_'), [b"a".to_vec(), b"b".to_vec(), b"".to_vec()]);
}

#[test]
fn three_parts() {
    assert_eq!(parse3(" -0.04, 1,2 "), Some(("-0.04", "1", "2")));
    assert_eq!(parse3("1,2"), None);
    assert_eq!(parse3("1,2,3,4"), None);
    assert_eq!(parse3(",,"), Some(("", "", "")));
}

#[test]
fn numbers_in_decimal() {
    assert_eq!(decimal_text(0), "0");
    assert_eq!(decimal_text(10), "10");
    assert_eq!(decimal_text(u64::MAX), "18446744073709551615");
}
