//! Text, percent escapes and numbers.

use zaccounts_web::percent::{decode_path, path_can_be_decoded};
use zaccounts_web::text::{
    after_last, concat3, contains, parse_unsigned, same, same_ignoring_case, split_once,
    split_word, strip_end, strip_prefix, strip_start, to_decimal, to_lower, trim, trim_end,
};

fn pair(a: &str, b: &str) -> (String, String) {
    (a.to_string(), b.to_string())
}

#[test]
fn texts_are_compared_by_their_characters() {
    assert!(same("", ""));
    assert!(same("账号", "账号"));
    assert!(!same("a", "b"));
    assert!(!same("a", "ab"));
    assert!(same_ignoring_case("Content-Length", "content-LENGTH"));
    assert!(!same_ignoring_case("É", "é"));
}

#[test]
fn texts_are_put_together() {
    assert_eq!(zaccounts_web::text::concat("missing param: ", "id"), "missing param: id");
    assert_eq!(concat3("a", "", "c"), "ac");
}

#[test]
fn white_space_is_removed() {
    assert_eq!(trim("  \u{3000}a b\t\r\n"), "a b");
    assert_eq!(trim(" \u{85}\u{2028} "), "");
    assert_eq!(trim_end("  GET / \r\n"), "  GET /");
    assert_eq!(trim("\u{200b}x\u{200b}"), "\u{200b}x\u{200b}");
}

#[test]
fn words_and_pieces() {
    assert_eq!(split_word("  GET  /x HTTP/1.1"), pair("GET", "  /x HTTP/1.1"));
    assert_eq!(split_word("   "), pair("", ""));
    assert_eq!(split_once("/a?b?c", '?'), Some(pair("/a", "b?c")));
    assert_eq!(split_once("/a", '?'), None);
    assert_eq!(split_once("?", '?'), Some(pair("", "")));
    assert_eq!(after_last("https://host/flows/42", '/'), "42");
    assert_eq!(after_last("https://host/", '/'), "");
    assert_eq!(after_last("none", '/'), "none");
    assert_eq!(strip_end("get_state//", '/'), "get_state");
    assert_eq!(strip_end("//", '/'), "");
    assert_eq!(strip_start("//src/a", '/'), "src/a");
    assert_eq!(strip_prefix("/api/x", "/api/"), Some("x".to_string()));
    assert_eq!(strip_prefix("/ap", "/api/"), None);
    assert!(contains("keep-alive, close", "close"));
    assert!(contains("abc", ""));
    assert!(!contains("clo", "close"));
    assert_eq!(to_lower("Keep-ALIVE Ä"), "keep-alive Ä");
}

#[test]
fn numbers_are_written_and_read() {
    assert_eq!(to_decimal(0), "0");
    assert_eq!(to_decimal(8790), "8790");
    assert_eq!(
        to_decimal(u128::MAX),
        "340282366920938463463374607431768211455"
    );
    assert_eq!(parse_unsigned("42", 100), Some(42));
    assert_eq!(parse_unsigned("+007", 100), Some(7));
    assert_eq!(parse_unsigned("100", 100), Some(100));
    assert_eq!(parse_unsigned("101", 100), None);
    assert_eq!(parse_unsigned("", 100), None);
    assert_eq!(parse_unsigned("+", 100), None);
    assert_eq!(parse_unsigned("-1", 100), None);
    assert_eq!(parse_unsigned(" 1", 100), None);
    assert_eq!(parse_unsigned("18446744073709551615", usize::MAX), Some(usize::MAX));
    assert_eq!(parse_unsigned("18446744073709551616", usize::MAX), None);
}

#[test]
fn a_written_number_is_read_back() {
    for n in [0usize, 7, 10, 99, 8790, usize::MAX] {
        assert_eq!(parse_unsigned(&to_decimal(n as u128), usize::MAX), Some(n));
    }
}

#[test]
fn escapes_are_resolved() {
    assert_eq!(decode_path("/a%20b"), "/a b");
    assert_eq!(decode_path("/%E8%B4%A6"), "/账");
    assert_eq!(decode_path("/%e8%b4%a6"), "/账");
    assert_eq!(decode_path("/100%"), "/100%");
    assert_eq!(decode_path("/%2"), "/%2");
    assert_eq!(decode_path("/%zz"), "/%zz");
    assert_eq!(decode_path("/%+f"), "/\u{f}");
    assert_eq!(decode_path("/%25%32%35"), "/%25");
}

#[test]
fn a_path_without_escapes_stays() {
    assert_eq!(decode_path("/src/主页.js"), "/src/主页.js");
    assert_eq!(decode_path(""), "");
}

#[test]
fn bytes_that_are_no_text_are_replaced() {
    assert_eq!(decode_path("/%ff%41"), "/\u{fffd}A");
    assert_eq!(
        decode_path("/账%e8%b4x%f0%90%80"),
        String::from_utf8_lossy(b"/\xe8\xb4\xa6\xe8\xb4x\xf0\x90\x80")
    );
}

#[test]
fn a_prefix_without_escapes_stays() {
    for b in ["", "%41+", "%ff%41", "x%e8%b4%a6", "%+f%", "%e8z"] {
        assert!(path_can_be_decoded(b));
        for a in ["", "/a+b/", "/账号\u{fffd}"] {
            let both = a.to_string() + b;
            assert!(path_can_be_decoded(&both));
            assert_eq!(decode_path(&both), a.to_string() + &decode_path(b));
        }
    }
    assert_eq!(decode_path("%e8z"), "\u{fffd}z");
}

#[test]
fn escapes_may_be_in_either_case() {
    assert_eq!(decode_path("%E8%b4%A6/%2F%2f账"), "账///账");
}

#[test]
fn every_byte_can_be_escaped() {
    let mut escaped = String::new();
    for b in "账号 %/?".as_bytes() {
        escaped.push_str(&format!("%{:02X}", b));
    }
    assert!(path_can_be_decoded(&escaped));
    assert_eq!(decode_path(&escaped), "账号 %/?");
}

#[test]
fn an_escape_must_not_cut_a_character() {
    assert!(!path_can_be_decoded("/%2账"));
    assert!(!path_can_be_decoded("/%账"));
    assert!(path_can_be_decoded("/%é"));
    assert_eq!(decode_path("/%é1"), "/%é1");
    assert!(path_can_be_decoded("/%"));
}
