use pj::paths::{absolute_path_in, is_absolute, join_path, parent_of};
use std::path::{Path, PathBuf};

const PATHS: [&str; 26] = [
    "", "/", ".", "..", "a", "a/", "a/b", "a//b", "/a", "/a/", "/a/b", "/a//b//", "./a", "./",
    "a/.", "a/./b", "a/..", "../a", "//a", "/.", "/./a", "a/b/.", "a/b/./", ".//", "././a", "a/./.",
];

#[test]
fn parents_are_those_of_std() {
    for path in PATHS {
        let wanted = Path::new(path).parent().map(|p| p.to_string_lossy().to_string());
        assert_eq!(parent_of(path), wanted, "parent of {path:?}");
    }
}

#[test]
fn joined_paths_are_those_of_std() {
    for base in PATHS {
        for path in PATHS {
            let mut wanted = PathBuf::from(base);
            wanted.push(path);
            assert_eq!(join_path(base, path), wanted.to_string_lossy().to_string());
        }
    }
}

#[test]
fn absolute_paths_are_told() {
    for path in PATHS {
        assert_eq!(is_absolute(path), Path::new(path).is_absolute());
    }
}

#[test]
fn the_base_goes_before_the_working_directory() {
    assert_eq!(absolute_path_in("x", Some("/b"), Some("/c")), "/b/x");
    assert_eq!(absolute_path_in("x", None, Some("/c/")), "/c/x");
    assert_eq!(absolute_path_in("x", None, None), "x");
    assert_eq!(absolute_path_in("/x", Some("/b"), Some("/c")), "/x");
}

#[test]
fn an_absolute_path_stays() {
    let once = absolute_path_in("x/y", Some("/b"), None);
    assert_eq!(absolute_path_in(&once, Some("/b"), None), once);
}
