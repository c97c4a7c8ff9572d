use webscrape::is_xpath;
use webscrape::strutil::{split_alias, split_on, stem_of_url, str_eq};

#[test]
fn xpath_rule_slash() {
    assert!(is_xpath("/html/body"));
    assert!(is_xpath("//h1"));
}

#[test]
fn xpath_rule_css() {
    assert!(!is_xpath(".foo"));
    assert!(!is_xpath("div#id"));
    assert!(!is_xpath(""));
}

#[test]
fn str_eq_basic() {
    assert!(str_eq("abc", "abc"));
    assert!(!str_eq("abc", "abd"));
    assert!(!str_eq("abc", "ab"));
    assert!(str_eq("", ""));
}

#[test]
fn alias_split_simple() {
    let r = split_alias("copy from base").unwrap();
    assert_eq!(r.0, "copy");
    assert_eq!(r.1, "base");
}

#[test]
fn alias_split_none() {
    assert!(split_alias("copy").is_none());
    assert!(split_alias("from").is_none());
    assert!(split_alias("").is_none());
}

#[test]
fn alias_split_first_occurrence() {
    let r = split_alias("a from b from c").unwrap();
    assert_eq!(r.0, "a");
    assert_eq!(r.1, "b from c");
}

#[test]
fn stem_last_segment_first_dot() {
    assert_eq!(stem_of_url("file:///p.html"), "p");
    assert_eq!(stem_of_url("http://host/dir/page.tar.gz"), "page");
    assert_eq!(stem_of_url("plain"), "plain");
    assert_eq!(stem_of_url("http://host/dir/"), "");
    assert_eq!(stem_of_url(".hidden"), "");
}

#[test]
fn split_on_separator() {
    let parts = split_on("a:b:c", ":");
    assert_eq!(parts, vec!["a", "b", "c"]);
}

#[test]
fn split_on_multichar_leftmost() {
    let parts = split_on("aXXXb", "XX");
    assert_eq!(parts, vec!["a", "Xb"]);
}

#[test]
fn split_on_empty_parts() {
    let parts = split_on("::", ":");
    assert_eq!(parts, vec!["", "", ""]);
    let parts = split_on("", ":");
    assert_eq!(parts, vec![""]);
}
