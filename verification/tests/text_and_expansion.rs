use directory_pickers::expansion::{
    are_expandable, expand_directories, expansion_or_text, is_expandable, text_unless_expanded,
    try_expand_directories, try_expand_path,
};
use directory_pickers::text::contains_capital;
use directory_pickers::window::{key_hint_text, replaces_current_window};

#[test]
fn capitals() {
    for c in '\u{0}'..='\u{ffff}' {
        assert_eq!(contains_capital(&format!("a{}b", c)), c.is_uppercase());
    }
    assert!(!contains_capital(""));
}

#[test]
fn only_references_to_odd_names_cannot_be_expanded() {
    for text in [
        "$\u{e9}",
        "a$\u{e9}",
        "~/$\u{e9}",
        "${$\u{e9}",
        "$$$\u{e9}",
        "${NO_SUCH_VARIABLE_IS_SET:-b}$\u{e9}",
        "$\u{e9}/$NO_SUCH_VARIABLE_IS_SET",
    ] {
        assert!(!is_expandable(text), "{}", text);
        assert!(try_expand_path(text).is_none(), "{}", text);
    }
    for text in [
        "", "$", "$$", "/a", "~", "$$\u{e9}", "${\u{e9}}", "$\u{2014}", "$A\u{e9}", "$_\u{e9}", "${a$\u{e9}}",
    ] {
        assert!(is_expandable(text), "{}", text);
        assert!(try_expand_path(text).is_some(), "{}", text);
    }
}

#[test]
fn expansion_without_variables() {
    assert_eq!(try_expand_path("/some/path").unwrap(), "/some/path");
    assert_eq!(try_expand_path("~user/x").unwrap(), "~user/x");
    assert_eq!(try_expand_path("$$\u{e9}").unwrap(), "$\u{e9}");
    assert_eq!(try_expand_path("$\u{2014}").unwrap(), "$\u{2014}");
    assert_eq!(try_expand_path("").unwrap(), "");
}

#[test]
fn doubled_dollars_are_one() {
    assert_eq!(try_expand_path("/a$$b").unwrap(), "/a$b");
    assert_eq!(try_expand_path("$$$$").unwrap(), "$$");
    assert_eq!(try_expand_path("a$").unwrap(), "a$");
    assert_eq!(try_expand_path("${a$$").unwrap(), "${a$");
}

#[test]
fn variables_with_a_default_are_always_replaced() {
    assert_eq!(try_expand_path("/${NO_SUCH_VARIABLE_IS_SET:-}/c").unwrap(), "//c");
    assert_eq!(try_expand_path("${NO_SUCH_VARIABLE_IS_SET:-a:-b}").unwrap(), "a:-b");
    assert_eq!(try_expand_path("${:-b}").unwrap(), "${:-b}");
}

#[test]
fn unknown_variables_leave_the_text() {
    assert_eq!(
        try_expand_path("~/$NO_SUCH_VARIABLE_IS_SET/x").unwrap(),
        "~/$NO_SUCH_VARIABLE_IS_SET/x"
    );
    assert_eq!(try_expand_path("a${NO_SUCH_VARIABLE_IS_SET:-b}/c").unwrap(), "ab/c");
}

#[test]
fn unknown_variables_ahead_of_an_odd_name_leave_the_text() {
    for text in [
        "$NO_SUCH_VARIABLE_IS_SET/$\u{e9}",
        "$NO_SUCH_VARIABLE_IS_SET$\u{e9}/a",
        "~/${NO_SUCH_VARIABLE_IS_SET}$\u{e9}",
        "a${b$NO_SUCH_VARIABLE_IS_SET$$$\u{e9}$\u{e9}",
    ] {
        assert!(!is_expandable(text), "{}", text);
        assert_eq!(try_expand_path(text).unwrap(), text);
    }
    if shellexpand::env("$HOME").is_ok() {
        assert!(try_expand_path("$HOME/$\u{e9}").is_none());
        assert_eq!(
            try_expand_path("$HOME/$NO_SUCH_VARIABLE_IS_SET/$\u{e9}").unwrap(),
            "$HOME/$NO_SUCH_VARIABLE_IS_SET/$\u{e9}"
        );
    }
}

#[test]
fn text_ahead_of_an_odd_name() {
    assert_eq!(text_unless_expanded("$A/$\u{e9}", None).unwrap(), "$A/$\u{e9}");
    assert!(text_unless_expanded("$A/$\u{e9}", Some("/a/".to_string())).is_none());
}

#[test]
fn trailing_components_and_leading_text_are_kept() {
    if let Ok(home) = shellexpand::env("$HOME") {
        assert_eq!(
            try_expand_path("/mnt$HOME/a/b").unwrap(),
            format!("/mnt{}/a/b", home)
        );
        assert_ne!(home, "$HOME");
    }
}

#[test]
fn expansion_or_the_text_itself() {
    assert_eq!(expansion_or_text("$A", Some("/a".to_string())), "/a");
    assert_eq!(expansion_or_text("$A", None), "$A");
}

#[test]
fn lists_of_directories() {
    let good = vec!["/a".to_string(), "b".to_string()];
    assert!(are_expandable(&good));
    let paths: Vec<String> = expand_directories(&good).iter().map(|p| p.to_text()).collect();
    assert_eq!(paths, vec!["/a", "b"]);
    assert_eq!(try_expand_directories(&good).unwrap().len(), 2);
    let bad = vec!["/a".to_string(), "$\u{e9}".to_string()];
    assert!(!are_expandable(&bad));
    assert!(try_expand_directories(&bad).is_none());
    let kept = vec!["/a".to_string(), "$NO_SUCH_VARIABLE_IS_SET/$\u{e9}".to_string()];
    assert!(!are_expandable(&kept));
    let paths: Vec<String> = try_expand_directories(&kept)
        .unwrap()
        .iter()
        .map(|p| p.to_text())
        .collect();
    assert_eq!(paths, vec!["/a", "$NO_SUCH_VARIABLE_IS_SET/$\u{e9}"]);
    assert!(expand_directories(&vec![]).is_empty());
}

#[test]
fn windows() {
    assert!(replaces_current_window(false, false));
    assert!(!replaces_current_window(false, true));
    assert!(!replaces_current_window(true, false));
    assert!(replaces_current_window(true, true));
    assert_eq!(
        key_hint_text("", false, "a", "b"),
        "a reuses this window, b opens a new one"
    );
}
