use cthulhu_server::str_utils::StrUtils;
use cthulhu_server::utils::{hash, match_text, mini_match};

#[test]
fn a() {
    println!("{}", mini_match("a\\*a", "a*a") == true);
    println!("{}", mini_match("*a.*g", "a.g") == true);
    println!("{}", mini_match("*a*.*g*", "a.g") == true);
    println!("{}", mini_match("*a**.*g*", "a.g") == true);
    println!("{}", mini_match("a.*.*com", "a.cff.555.com") == true);
}

fn check(pattern: &str, target: &str, expected: bool) {
    assert_eq!(mini_match(pattern, target), expected, "{:?} against {:?}", pattern, target);
    let p: Vec<char> = pattern.chars().collect();
    let t: Vec<char> = target.chars().collect();
    assert_eq!(match_text(&p, &t), expected, "{:?} against {:?}", pattern, target);
    assert_eq!(StrUtils::mini_match(pattern.to_string(), target.to_string()), expected);
}

#[test]
fn the_patterns_of_the_printed_test_match() {
    check("a\\*a", "a*a", true);
    check("*a.*g", "a.g", true);
    check("*a*.*g*", "a.g", true);
    check("*a**.*g*", "a.g", true);
    check("a.*.*com", "a.cff.555.com", true);
}

#[test]
fn plain_patterns_match_themselves_only() {
    check("", "", true);
    check("", "a", false);
    check("a", "", false);
    check("abc", "abc", true);
    check("abc", "abd", false);
    check("abc", "ab", false);
    check("ab", "abc", false);
}

#[test]
fn question_mark_stands_for_one_character() {
    check("?", "a", true);
    check("?", "", false);
    check("??", "a", false);
    check("a?c", "abc", true);
    check("*.cff.555.co?", "a.cff.555.com", true);
}

#[test]
fn star_runs_to_the_next_pattern_character() {
    check("*", "", true);
    check("*", "anything", true);
    check("**", "x", true);
    check("a*", "a", true);
    check("a*", "b", false);
    check("*a*", "a", true);
    check("a.cff.555.*", "a.cff.555.com", true);
    check("example.*", "example.com", true);
    check("*example*", "my.example.org", true);
    check("*.example.com", "www.example.com", true);
    check("*.example.com", "example.com", false);
    check("*.example.com", "a.b.example.com", false);
    check("www.*.com", "www.google.com", true);
    check("www.*.com", "www.google.org", false);
    check("*google*", "www.google.com", true);
    check("192.168.*.*", "192.168.1.20", true);
    check("*.cthulhu.server", "api.cthulhu.server", true);
    check("h*o w*d", "hello world", true);
    check("*o*o*", "foo boo", true);
    check("*.*", "a.b", true);
    check("*.*", "ab", false);
    check("*x*", "abc", false);
}

#[test]
fn star_edge_cases() {
    check("a*g", "aagg", false);
    check("a*aa", "aba", false);
    check("a*b", "a", true);
    check("a*b", "ab", true);
    check("a*b", "axxb", true);
    check("a*b", "axxbc", false);
    check("*a", "ba", true);
    check("*a", "baa", false);
    check("*ab", "aab", true);
    check("*ab", "abab", true);
    check("a*a*a", "aaa", true);
    check("a*a*a", "aaaa", true);
    check("a**b", "ab", true);
    check("a**b", "axb", true);
    check("a*bc", "abbc", true);
    check("a*bc", "abcbc", true);
    check("*aab", "aaab", true);
}

#[test]
fn backslash_protects_the_special_characters() {
    check("a\\?b", "a?b", true);
    check("a\\?b", "axb", false);
    check("a\\\\b", "a\\b", true);
    check("a\\b", "a\\b", true);
    check("\\*", "*", true);
    check("\\*", "x", false);
}

#[test]
fn a_backslash_at_the_end_stands_for_itself() {
    check("a\\", "a\\", true);
    check("a\\", "ab", false);
    check("\\", "\\", true);
}

#[test]
fn characters_beyond_ascii_count_as_one() {
    check("?", "é", true);
    check("é*", "été", true);
    check("*é", "caf", false);
    check("日?語", "日本語", true);
}

#[test]
fn hash_gives_the_known_identifiers() {
    assert_eq!(hash(b"bytes", 5, 1), "54369");
    assert_eq!(hash(b"a", 1, 2), "n");
    assert_eq!(hash(b"hello world", 16, 12), "cclyt67xkn4fwc8v");
    assert_eq!(hash(&[b'x'; 300], 8, 3), "OICWQKEU");
    assert_eq!(hash(b"abc", 10, 13), "PAYDYQ9UEX");
    assert_eq!(hash(b"abc", 4, 23), "ReuB");
    assert_eq!(
        hash(b"bytes", 255, 123),
        "HuTSnI76s65WyiAFh9WRVFsRae1yx2nMLfTKJd5ns4WJEQAnM594lkPaHy2Gxw0SanRJErDnazSWRofSdKB5JAz3VdqUMHuGqdCVZUriVgNE8MDC6YgtXPKxJtgFY2XmlYjQHbPGF91jo0SFAMwjI150hgL6DuYCBsWOejNFAnzj6vOSNkbO9Gx1FwvZRhmQIDqCm9yRVQneRcJA4Izy2UcpTLGtFpcBUYTqhUfMD7LCB5XfsWOJwIsfEX1WlkX"
    );
}

#[test]
fn hash_of_nothing_with_size_zero_is_empty() {
    assert_eq!(hash(b"", 0, 1), "");
}

#[test]
fn hash_has_the_size_and_alphabet_asked_for() {
    for size in [1u8, 2, 7, 16, 64, 255] {
        let digits = hash(b"some input", size, 1);
        assert_eq!(digits.len(), size as usize);
        assert!(digits.chars().all(|c| c.is_ascii_digit()));
        let lower = hash(b"some input", size, 2);
        assert!(lower.chars().all(|c| c.is_ascii_lowercase()));
        let upper = hash(b"some input", size, 3);
        assert!(upper.chars().all(|c| c.is_ascii_uppercase()));
        let mixed = hash(b"some input", size, 123);
        assert_eq!(mixed.len(), size as usize);
        assert!(mixed.chars().all(|c| c.is_ascii_alphanumeric()));
    }
}

#[test]
fn hash_is_a_function_of_its_input() {
    assert_eq!(hash(b"same", 16, 12), hash(b"same", 16, 12));
    assert_ne!(hash(b"same", 16, 12), hash(b"other", 16, 12));
}

#[test]
fn hashstr_uses_letters_and_digits() {
    assert_eq!(StrUtils::hashstr("bytes".to_string(), 255), hash(b"bytes", 255, 123));
    assert_eq!(StrUtils::hashstr("abc".to_string(), 4).len(), 4);
}
