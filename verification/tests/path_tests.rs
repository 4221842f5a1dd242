use vql::notation::{get_asset_type_from_ref, get_type_name_from_short_name};
use vql::paths::PathResolver;
use vql::paths::{colorize_output, expand_tilde};

#[test]
fn test_normalize_paths() {
    let resolver = PathResolver::with_root(String::from("/home/user/project"));

    // Forward slashes remain unchanged.
    assert_eq!(resolver.normalize("src/lib.rs"), "src/lib.rs");

    // Backslashes are converted.
    assert_eq!(resolver.normalize("src\\lib.rs"), "src/lib.rs");
}

#[test]
fn test_project_relative_conversion() {
    let resolver = PathResolver::with_root(String::from("/home/user/project"));

    // Absolute to project-relative.
    let result = resolver.to_project_relative("/home/user/project/src/lib.rs").unwrap();
    assert_eq!(result, "src/lib.rs");

    // Already project-relative.
    let result = resolver.to_project_relative("src/lib.rs").unwrap();
    assert_eq!(result, "src/lib.rs");
}

#[test]
fn test_absolute_conversion() {
    let resolver = PathResolver::with_root(String::from("/home/user/project"));

    // Project-relative to absolute.
    let result = resolver.to_absolute("src/lib.rs");
    assert_eq!(result, String::from("/home/user/project/src/lib.rs"));

    // Already absolute.
    let result = resolver.to_absolute("/home/user/project/src/lib.rs");
    assert_eq!(result, String::from("/home/user/project/src/lib.rs"));
}

#[test]
fn test_project_relative_outside_root() {
    let resolver = PathResolver::with_root(String::from("/home/user/project"));
    let result = resolver.to_project_relative("/elsewhere/src/lib.rs");
    assert!(result.is_err());
}

#[test]
fn test_expand_tilde_with_home() {
    assert_eq!(expand_tilde("~/docs/p.md", Some("/home/user")), "/home/user/docs/p.md");
}

#[test]
fn test_expand_tilde_without_home() {
    assert_eq!(expand_tilde("~/docs/p.md", None), "~/docs/p.md");
    assert_eq!(expand_tilde("/abs/p.md", Some("/home/user")), "/abs/p.md");
}

#[test]
fn test_colorize_output() {
    assert_eq!(colorize_output("hi", "31", false), "hi");
    assert_eq!(colorize_output("hi", "31", true), "\u{1b}[31mhi\u{1b}[0m");
}

#[test]
fn test_type_names() {
    assert_eq!(get_type_name_from_short_name("m"), "model");
    assert_eq!(get_type_name_from_short_name("c"), "controller");
    assert_eq!(get_type_name_from_short_name("g"), "config");
    assert_eq!(get_type_name_from_short_name("z"), "ztype");
}

#[test]
fn test_asset_type_from_ref() {
    assert_eq!(get_asset_type_from_ref("+uc").unwrap(), "^c");
    assert_eq!(get_asset_type_from_ref("uc").unwrap(), "^c");
    assert!(get_asset_type_from_ref("u7").is_err());
    assert!(get_asset_type_from_ref("+").is_err());
}
