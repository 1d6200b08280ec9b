use cardinal::category::category_name;
use cardinal::utils::expand_tilde;

#[test]
fn category_from_stem() {
    assert_eq!(category_name("french-capitals_quiz"), "French Capitals Quiz");
    assert_eq!(category_name("  many   spaces "), "Many Spaces");
    assert_eq!(category_name("--__"), "");
    assert_eq!(category_name(""), "");
    assert_eq!(category_name("ärger-über"), "Ärger Über");
    assert_eq!(category_name("straße"), "Straße");
    assert_eq!(category_name("ß"), "SS");
}

#[test]
fn tilde_expands_with_home() {
    assert_eq!(expand_tilde("~/notes", Some("/home/ann")), "/home/ann/notes");
    assert_eq!(expand_tilde("~/notes", Some("/home/ann/")), "/home/ann/notes");
    assert_eq!(expand_tilde("~//notes/a.md", Some("/h")), "/h/notes/a.md");
    assert_eq!(expand_tilde("~", Some("/h")), "/h/");
}

#[test]
fn tilde_left_alone() {
    assert_eq!(expand_tilde("~/notes", None), "~/notes");
    assert_eq!(expand_tilde("/abs/~/x", Some("/h")), "/abs/~/x");
    assert_eq!(expand_tilde("~notes", Some("/h")), "~notes");
    assert_eq!(expand_tilde("", Some("/h")), "");
}
