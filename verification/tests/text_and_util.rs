use tg_opossum::handlers::{plan_answer, Answer, Command, ImageKind};
use tg_opossum::text::{
    chars_of, contains_chars, decimal_text, parse_i32, same_chars, split_words, string_of,
};
use tg_opossum::util::{hiss_text, hiss_text_with, parse_some_num};

fn v(s: &str) -> Vec<char> {
    s.chars().collect()
}

#[test]
fn parse_some_num_takes_leading_digits() {
    assert_eq!(parse_some_num("123_opossum.jpg".to_string()), "123");
    assert_eq!(parse_some_num("opossum.jpg".to_string()), "");
    assert_eq!(parse_some_num("".to_string()), "");
    assert_eq!(parse_some_num("0042".to_string()), "0042");
    assert_eq!(parse_some_num("٣4".to_string()), "");
}

#[test]
fn parse_some_num_is_idempotent() {
    for s in ["12ab", "x1", "", "99", "7 8"] {
        let once = parse_some_num(s.to_string());
        assert_eq!(parse_some_num(once.clone()), once);
        assert!(s.starts_with(&once));
    }
}

#[test]
fn hiss_text_with_draws() {
    assert_eq!(hiss_text_with(1, 0), "hiss");
    assert_eq!(hiss_text_with(3, 5), "hissss");
    assert_eq!(hiss_text_with(2, 6), "HISSS");
    assert_eq!(hiss_text_with(7, 10), "HISSSSSSSS");
    assert_eq!(hiss_text_with(0, 0), "his");
}

#[test]
fn hiss_text_has_its_shape() {
    for _ in 0..200 {
        let h = hiss_text();
        assert!(h.len() >= 4 && h.len() <= 10, "{}", h);
        assert!(h == "his".to_string() + &"s".repeat(h.len() - 3)
            || h == "HIS".to_string() + &"S".repeat(h.len() - 3), "{}", h);
    }
}

#[test]
fn decimal_text_writes_numbers() {
    assert_eq!(decimal_text(0), "0");
    assert_eq!(decimal_text(7), "7");
    assert_eq!(decimal_text(10), "10");
    assert_eq!(decimal_text(65535), "65535");
    assert_eq!(decimal_text(-12), "-12");
    assert_eq!(decimal_text(i64::MIN), i64::MIN.to_string());
    assert_eq!(decimal_text(i64::MAX), i64::MAX.to_string());
}

fn number_answer(arg: &str) -> Result<u16, String> {
    match plan_answer(Command::Opossum, &format!("/opossum {}", arg)) {
        Answer::Specific(ImageKind::Opossum, n) => Ok(n),
        Answer::Send(r) => Err(r.text),
        other => panic!("{:?}", other),
    }
}

#[test]
fn decimal_parses_back() {
    for n in [0u16, 1, 9, 10, 123, 65535] {
        assert_eq!(number_answer(&decimal_text(n as i64)), Ok(n));
    }
}

#[test]
fn number_argument_cases() {
    assert_eq!(number_answer("12"), Ok(12));
    assert_eq!(number_answer("+12"), Ok(12));
    assert_eq!(number_answer("007"), Ok(7));
    assert_eq!(number_answer("65536"), Err("Come again?\n\"`number too large to fit in target type`\"".to_string()));
    assert_eq!(number_answer("-1"), Err("Come again?\n\"`invalid digit found in string`\"".to_string()));
    assert_eq!(number_answer("1a"), Err("Come again?\n\"`invalid digit found in string`\"".to_string()));
    assert_eq!(number_answer("+"), Err("Come again?\n\"`invalid digit found in string`\"".to_string()));
}

#[test]
fn chars_and_strings_round_trip() {
    let s = "héllo wörld";
    assert_eq!(chars_of(s), v(s));
    assert_eq!(string_of(&v(s)), s);
    assert_eq!(string_of(&vec![]), "");
}

#[test]
fn contains_chars_finds_substrings() {
    assert!(contains_chars(&v("an opossum"), &v("poss")));
    assert!(contains_chars(&v("abc"), &v("")));
    assert!(contains_chars(&v(""), &v("")));
    assert!(!contains_chars(&v("ab"), &v("abc")));
    assert!(contains_chars(&v("abc"), &v("abc")));
    assert!(!contains_chars(&v("abc"), &v("ac")));
}

#[test]
fn split_words_like_str_split() {
    for s in ["a b", "a  b", " a", "a ", "", " ", "one"] {
        let expected: Vec<Vec<char>> = s.split(" ").map(|w| w.chars().collect()).collect();
        assert_eq!(split_words(&v(s)), expected, "{:?}", s);
    }
}

#[test]
fn same_chars_compares() {
    assert!(same_chars(&v("ab"), &v("ab")));
    assert!(!same_chars(&v("ab"), &v("abc")));
    assert!(!same_chars(&v("ab"), &v("ba")));
}

#[test]
fn parse_i32_like_std() {
    for s in [
        "", "+", "-", "0", "-0", "+0", "12", "+12", "-12", "007", "2147483647", "2147483648",
        "-2147483648", "-2147483649", "99999999999999999999", "9999999999999999999x", "1a", "a1",
        "++1", "+-5", "-+5", " 1", "1 ", "٣", "1_000",
    ] {
        assert_eq!(parse_i32(s), s.parse::<i32>().ok(), "{:?}", s);
    }
}
