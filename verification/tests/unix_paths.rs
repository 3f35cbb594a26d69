use antigravity_client::unix_path::{bundle_around_path, path_has_app_extension, path_parent};
use std::path::Path;

const SAMPLES: &[&str] = &[
    "", "/", "//", "a", "a/", "a/b", "a/b/", "a//b", "a/./b", "a/b/.", "a/b/..", "/a", "/a/", "/a/b",
    "/a//b/", "/a/./", ".", "./", "./a", "./a/b", "..", "../a", "a/..", ".a", ".app", "x.app",
    "/A/Foo.app", "/A/Foo.app/", "/A/Foo.app/.", "/A/Foo.app/Contents/MacOS/foo", "foo.", "a.b.app",
    "a.appx", "/x/.app", "/x/y.app/..", "///a///b///", "/./a", "./.", "a/.app/b",
];

#[test]
fn parent_matches_std_path() {
    for s in SAMPLES {
        let expected = Path::new(s).parent().map(|p| p.to_str().unwrap().to_string());
        assert_eq!(path_parent(s).map(|p| p.to_string()), expected, "parent of {:?}", s);
    }
}

#[test]
fn app_extension_matches_std_path() {
    for s in SAMPLES {
        let expected = Path::new(s).extension().map_or(false, |e| e == "app");
        assert_eq!(path_has_app_extension(s), expected, "extension of {:?}", s);
    }
}

fn bundle_by_std(path: &str) -> String {
    let p = Path::new(path);
    if p.extension().map_or(false, |e| e == "app") {
        return path.to_string();
    }
    let mut current = p;
    while let Some(parent) = current.parent() {
        if parent.extension().map_or(false, |e| e == "app") {
            return parent.to_str().unwrap().to_string();
        }
        current = parent;
    }
    path.to_string()
}

#[test]
fn bundle_matches_ancestor_walk() {
    for s in SAMPLES {
        assert_eq!(bundle_around_path(s), bundle_by_std(s), "bundle of {:?}", s);
    }
    assert_eq!(
        bundle_around_path("/Applications/Outer.app/Contents/Inner.app/Contents/MacOS/bin"),
        "/Applications/Outer.app/Contents/Inner.app"
    );
    assert_eq!(bundle_around_path("/usr/bin/agy"), "/usr/bin/agy");
}
