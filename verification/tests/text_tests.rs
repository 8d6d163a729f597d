use afd::module::regex::RegexContainer;
use afd::pattern::Pattern;
use afd::text::{
    after_last_str, before_first_str, before_last_str, contains_str, format_radix,
    join_strings, lines_of, nth_token, parse_bool_str, parse_radix, split_once_str, starts_with_str,
    str_eq, trim_str,
};

#[test]
fn lines_split_like_str_lines() {
    let v = lines_of("a\nb\r\n\nc");
    assert_eq!(v, vec!["a".to_string(), "b".to_string(), "".to_string(), "c".to_string()]);
    assert_eq!(lines_of("a\n"), vec!["a".to_string()]);
    assert!(lines_of("").is_empty());
}

#[test]
fn trim_and_cut() {
    assert_eq!(trim_str(" \t x y \n"), "x y");
    assert_eq!(before_first_str("mov x0 // set", "//"), "mov x0 ");
    assert_eq!(before_first_str("no comment", "//"), "no comment");
    assert!(contains_str("a//b", "//"));
    assert!(!contains_str("a/b", "//"));
    assert!(starts_with_str("Cti(x)", "Cti"));
    assert!(!starts_with_str("Ncti", "Cti"));
    assert!(str_eq("abc", "abc"));
    assert!(!str_eq("abc", "abd"));
}

#[test]
fn split_pieces() {
    assert_eq!(
        split_once_str("Direct(400580)", "("),
        Some(("Direct".to_string(), "400580)".to_string()))
    );
    assert_eq!(split_once_str("Ncti", "("), None);
    assert_eq!(after_last_str("a/b/c", '/'), "c");
    assert_eq!(after_last_str("abc", '/'), "abc");
    assert_eq!(before_last_str("a/b/c", '/'), Some("a/b".to_string()));
    assert_eq!(before_last_str("abc", '/'), None);
    assert_eq!(nth_token("400584:\t94000003 \tbl\t400590 <foo>", 3), Some("400590".to_string()));
    assert_eq!(nth_token("a b", 2), None);
}

#[test]
fn numbers_in_bases() {
    assert_eq!(parse_radix("400580", 16, usize::MAX), Some(0x400580));
    assert_eq!(parse_radix("+12", 10, usize::MAX), Some(12));
    assert_eq!(parse_radix("", 10, usize::MAX), None);
    assert_eq!(parse_radix("12x", 10, usize::MAX), None);
    assert_eq!(parse_radix("4294967296", 10, u32::MAX as usize), None);
    assert_eq!(format_radix(0x400584, 16), "400584");
    assert_eq!(format_radix(0, 10), "0");
    assert_eq!(format_radix(1234, 10), "1234");
}

#[test]
fn printed_numbers_parse_back() {
    for n in [0usize, 1, 9, 10, 255, 4096, 123456789] {
        for radix in [2u32, 8, 10, 16, 36] {
            assert_eq!(parse_radix(&format_radix(n, radix), radix, usize::MAX), Some(n));
        }
    }
}

#[test]
fn booleans_and_joins() {
    assert_eq!(parse_bool_str("true"), Some(true));
    assert_eq!(parse_bool_str("false"), Some(false));
    assert_eq!(parse_bool_str("True"), None);
    let parts = vec!["a".to_string(), "b".to_string(), "c".to_string()];
    assert_eq!(join_strings(&parts, ", "), "a, b, c");
    assert_eq!(join_strings(&Vec::new(), ", "), "");
}

#[test]
fn patterns_compile_and_match() {
    let p = Pattern::new(r"(\w+):(\d+)").unwrap();
    assert_eq!(p.as_str(), r"(\w+):(\d+)");
    assert!(p.is_match("x ab:12 y"));
    assert!(!p.is_match("ab-12"));
    let m = p.captures("x ab:12 y").unwrap();
    assert_eq!(m.before, "x ");
    assert_eq!(m.after, " y");
    assert_eq!(
        m.groups,
        vec![Some("ab:12".to_string()), Some("ab".to_string()), Some("12".to_string())]
    );
    assert_eq!(p.group("x ab:12 y", 2), Some("12".to_string()));
    assert_eq!(p.group("x ab:12 y", 3), None);
    assert_eq!(p.group("nothing", 1), None);
}

#[test]
fn optional_group_that_took_no_part() {
    let p = Pattern::new(r"a(b)?c").unwrap();
    let m = p.captures("ac").unwrap();
    assert_eq!(m.groups, vec![Some("ac".to_string()), None]);
}

#[test]
fn invalid_pattern_is_reported() {
    match Pattern::new("(unclosed") {
        Err(afd::module::error::AfdError::InvalidPattern(s)) => assert_eq!(s, "(unclosed"),
        _ => panic!("expected an invalid pattern"),
    }
}

#[test]
fn binary_extension_is_escaped_in_the_binary_pattern() {
    let rc = RegexContainer::new().unwrap();
    assert_eq!(rc.bin_file_regex.as_str(), r"(benchmarks(?:\w|\/)*)binaries((?:\w|\/)*)\.run$");
    assert!(rc.bin_file_regex.is_match("benchmarks/a/binaries/p.run"));
    assert!(!rc.bin_file_regex.is_match("benchmarks/a/binaries/p_run"));
}
