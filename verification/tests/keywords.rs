use logquery::keyword::{replace_all, Keyword};

#[test]
fn wildcard_with_a_star_at_the_end() {
    let keyword = Keyword::new_wildcard("abc*".to_string());
    assert_eq!(keyword.regex_source(), "(?i)abc(.*?)$");
    let re = keyword.to_regex().unwrap();
    assert_eq!(re.as_str(), "(?i)abc(.*?)$");
    assert!(re.is_match("abcdef"));
    assert!(re.is_match("abc"));
    assert!(re.is_match("xx ABCdef"));
    assert!(!re.is_match("ab"));
    assert_eq!(re.find("abcdef").unwrap().as_str(), "abcdef");
}

#[test]
fn wildcard_with_stars_around() {
    let keyword = Keyword::new_wildcard("*abc*".to_string());
    assert_eq!(keyword.regex_source(), "(?i)(.*?)abc(.*?)$");
    let re = keyword.to_regex().unwrap();
    assert!(re.is_match("abc"));
    assert!(re.is_match("xxabcyy"));
    assert!(re.is_match("xxABCyy"));
    assert!(!re.is_match("xxabyy"));
}

#[test]
fn wildcard_with_a_star_inside() {
    let keyword = Keyword::new_wildcard("a*c".to_string());
    assert_eq!(keyword.regex_source(), "(?i)a(.*?)c");
    let re = keyword.to_regex().unwrap();
    assert!(re.is_match("abbbc and more"));
    assert!(!re.is_match("ab"));
}

#[test]
fn exact_keyword_is_a_literal() {
    let keyword = Keyword::new_exact("a.c*[x]".to_string());
    assert_eq!(keyword.regex_source(), "(?i)a\\.c\\*\\[x\\]");
    let re = keyword.to_regex().unwrap();
    assert!(re.is_match("see A.C*[X] here"));
    assert!(!re.is_match("abc"));
    assert!(!re.is_match("a.cc[x]"));
    let plain = Keyword::new_exact("abc".to_string());
    assert_eq!(plain.regex_source(), "(?i)abc");
    assert!(plain.to_regex().unwrap().is_match("xABCx"));
}

#[test]
fn escaped_quote_is_a_quote() {
    let keyword = Keyword::new_exact("say \\\"hi\\\"".to_string());
    assert_eq!(keyword.regex_source(), "(?i)say \"hi\"");
    assert!(keyword.to_regex().unwrap().is_match("they SAY \"hi\" now"));
}

#[test]
fn every_meta_character_is_escaped() {
    let keyword = Keyword::new_exact("\\.+*?()|[]{}^$#&-~%/!".to_string());
    assert_eq!(
        keyword.regex_source(),
        "(?i)\\\\\\.\\+\\*\\?\\(\\)\\|\\[\\]\\{\\}\\^\\$\\#\\&\\-\\~%/!"
    );
    assert!(keyword.to_regex().unwrap().is_match("\\.+*?()|[]{}^$#&-~%/!"));
}

#[test]
fn backslash_before_a_star() {
    let keyword = Keyword::new_wildcard("a\\*".to_string());
    assert_eq!(keyword.regex_source(), "(?i)a\\\\(.*?)$");
    assert!(keyword.to_regex().unwrap().is_match("a\\bc"));
}

#[test]
fn keyword_emptiness_and_equality() {
    assert!(Keyword::new_exact(String::new()).is_empty());
    assert!(Keyword::new_wildcard(String::new()).is_empty());
    assert!(!Keyword::new_wildcard("a".to_string()).is_empty());
    assert_eq!(Keyword::new_exact("a".to_string()), Keyword::new_exact("a".to_string()));
    assert_ne!(Keyword::new_exact("a".to_string()), Keyword::new_wildcard("a".to_string()));
    assert_ne!(Keyword::new_exact("a".to_string()), Keyword::new_exact("b".to_string()));
}

#[test]
fn replace_all_reads_from_left_to_right() {
    assert_eq!(replace_all("aaa", "aa", "b"), "ba");
    assert_eq!(replace_all("abcabc", "bc", ""), "aa");
    assert_eq!(replace_all("abc", "x", "y"), "abc");
    assert_eq!(replace_all("", "x", "y"), "");
    assert_eq!(replace_all("aaa", "aa", "b"), "aaa".replace("aa", "b"));
    assert_eq!(replace_all("x\\*y\\*", "\\*", "(.*?)"), "x(.*?)y(.*?)");
}
