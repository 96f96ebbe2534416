use shared_code::classify::get_language_type;
use shared_code::language::LanguageType;
use shared_code::resolve::{check_source, shared_code_argument, shared_code_path, Failure, SourceKind};
use shared_code::tree::{Entry, Node};

#[test]
fn first_argument_names_the_shared_code() {
    let args = vec!["algo/sort.rs".to_string(), "ignored".to_string()];
    let chosen = shared_code_argument(&args);
    assert!(matches!(chosen, Ok(shared) if shared == "algo/sort.rs"));
}

#[test]
fn missing_argument_is_refused() {
    let args: Vec<String> = Vec::new();
    match shared_code_argument(&args) {
        Err(failure) => {
            assert!(matches!(failure, Failure::MissingArgument));
            assert_eq!(failure.message(), "You're missing arguments");
        }
        Ok(_) => panic!("an argument was chosen from none"),
    }
}

#[test]
fn path_joins_root_category_and_argument() {
    let root = "/srv/shared-code/";
    assert_eq!(shared_code_path(root, LanguageType::Cpp, "io/fast.hpp"), "/srv/shared-code/c-cpp/io/fast.hpp");
    assert_eq!(shared_code_path(root, LanguageType::Rs, "algo/sort.rs"), "/srv/shared-code/rs/algo/sort.rs");
    assert_eq!(shared_code_path(root, LanguageType::Py, "util.py"), "/srv/shared-code/py/util.py");
    assert_eq!(shared_code_path(root, LanguageType::Rb, "util.rb"), "/srv/shared-code/rb/util.rb");
    assert_eq!(shared_code_path(root, LanguageType::Csharp, "Util.cs"), "/srv/shared-code/c#/Util.cs");
}

#[test]
fn path_adds_no_separator_of_its_own() {
    assert_eq!(shared_code_path("root", LanguageType::Rs, "x"), "rootrs/x");
    assert_eq!(shared_code_path("", LanguageType::Py, ""), "py/");
}

#[test]
fn a_file_may_be_copied() {
    assert!(matches!(check_source(Ok(SourceKind::File)), Ok(())));
}

#[test]
fn a_directory_is_refused() {
    match check_source(Ok(SourceKind::Directory)) {
        Err(failure) => {
            assert!(matches!(failure, Failure::SourceIsDirectory));
            assert_eq!(failure.message(), "Path exits but is neither no file");
        }
        Ok(()) => panic!("a directory was accepted"),
    }
}

#[test]
fn what_is_neither_file_nor_directory_is_refused() {
    match check_source(Ok(SourceKind::Other)) {
        Err(failure) => {
            assert!(matches!(failure, Failure::SourceIsNeither));
            assert_eq!(failure.message(), "Path exits but is neither file nor directory");
        }
        Ok(()) => panic!("something that is no file was accepted"),
    }
}

#[test]
fn a_source_that_cannot_be_looked_at_is_refused_with_its_reason() {
    match check_source(Err("No such file or directory (os error 2)".to_string())) {
        Err(failure) => {
            assert!(matches!(failure, Failure::SourceUnavailable(_)));
            assert_eq!(failure.message(), "No such file or directory (os error 2)");
        }
        Ok(()) => panic!("a missing source was accepted"),
    }
}

#[test]
fn manifest_project_resolves_below_the_rust_directory() {
    let cwd = Node::directory(vec![Entry::file("Cargo.toml")]);
    let args = vec!["algo/sort.rs".to_string()];
    let shared = shared_code_argument(&args).unwrap();
    let language = get_language_type(&cwd).unwrap();
    assert_eq!(language, LanguageType::Rs);
    let path = shared_code_path("/srv/shared-code/", language, shared);
    assert_eq!(path, "/srv/shared-code/rs/algo/sort.rs");
    assert!(check_source(Ok(SourceKind::File)).is_ok());
}
