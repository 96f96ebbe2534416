use shared_code::name::{extension_of, has_extension, str_equal};

#[test]
fn extension_is_what_follows_the_last_dot() {
    assert_eq!(extension_of("main.rs"), Some("rs"));
    assert_eq!(extension_of("archive.tar.gz"), Some("gz"));
    assert_eq!(extension_of("a.b"), Some("b"));
}

#[test]
fn name_without_dot_has_no_extension() {
    assert_eq!(extension_of("Makefile"), None);
    assert_eq!(extension_of("rs"), None);
    assert_eq!(extension_of(""), None);
}

#[test]
fn leading_dot_alone_gives_no_extension() {
    assert_eq!(extension_of(".gitignore"), None);
    assert_eq!(extension_of("."), None);
}

#[test]
fn leading_dot_with_a_later_dot_gives_an_extension() {
    assert_eq!(extension_of(".hidden.py"), Some("py"));
    assert_eq!(extension_of("..py"), Some("py"));
}

#[test]
fn trailing_dot_gives_the_empty_extension() {
    assert_eq!(extension_of("trailing."), Some(""));
    assert!(has_extension("trailing.", ""));
    assert!(!has_extension("trailing", ""));
}

#[test]
fn extension_of_a_name_with_wide_characters() {
    assert_eq!(extension_of("na\u{ef}ve.py"), Some("py"));
    assert_eq!(extension_of("\u{65e5}\u{672c}.\u{8a9e}"), Some("\u{8a9e}"));
    assert_eq!(extension_of("\u{1f980}"), None);
}

#[test]
fn has_extension_wants_the_exact_extension() {
    assert!(has_extension("script.py", "py"));
    assert!(!has_extension("script.pyc", "py"));
    assert!(!has_extension("script.py", "y"));
    assert!(!has_extension("script.py", ".py"));
    assert!(!has_extension("script.PY", "py"));
    assert!(!has_extension("py", "py"));
    assert!(!has_extension(".py", "py"));
}

#[test]
fn has_extension_takes_a_whole_name_as_extension() {
    assert!(has_extension("x.Cargo.toml", "toml"));
    assert!(!has_extension("x.Cargo.toml", "Cargo.toml"));
}

#[test]
fn str_equal_compares_every_character() {
    assert!(str_equal("", ""));
    assert!(str_equal("Cargo.toml", "Cargo.toml"));
    assert!(!str_equal("Cargo.toml", "Cargo.tom"));
    assert!(!str_equal("Cargo.toml", "cargo.toml"));
    assert!(!str_equal("abc", "abd"));
    assert!(!str_equal("", "a"));
    assert!(str_equal("na\u{ef}ve", "na\u{ef}ve"));
    assert!(!str_equal("na\u{ef}ve", "naive"));
}

#[test]
fn extension_agrees_with_paths_of_one_component() {
    let names = [
        "main.rs",
        "Makefile",
        ".gitignore",
        ".hidden.py",
        "archive.tar.gz",
        "trailing.",
        "a.b.",
        "...",
        "a..b",
        "na\u{ef}ve.py",
        "with space.txt",
        "Cargo.toml",
    ];
    for name in names {
        let expected = std::path::Path::new(name).extension().and_then(|found| found.to_str());
        assert_eq!(extension_of(name), expected);
    }
}
