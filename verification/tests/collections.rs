//! Texts, sorted maps and paths.

use openshell::ordered;
use openshell::paths::{extension, file_name, join_path};

fn text(value: &str) -> String {
    value.to_string()
}

#[test]
fn maps_are_kept_in_order() {
    let mut map: Vec<(String, u32)> = vec![];
    for (key, value) in [("b", 1), ("a", 2), ("c", 3), ("a", 4)] {
        ordered::insert(&mut map, text(key), value);
    }
    assert_eq!(map, vec![(text("a"), 4), (text("b"), 1), (text("c"), 3)]);
    assert_eq!(ordered::get(&map, "b"), Some(&1));
    assert_eq!(ordered::get(&map, "d"), None);
    assert_eq!(ordered::remove(&mut map, "b"), Some(1));
    assert_eq!(ordered::remove(&mut map, "b"), None);
    assert_eq!(map, vec![(text("a"), 4), (text("c"), 3)]);
}

#[test]
fn keys_are_ordered_as_texts_are() {
    let names = vec![text("é"), text("z"), text("Z"), text("a"), text("aa"), text("a")];
    let mut expected = names.clone();
    expected.sort();
    expected.dedup();
    assert_eq!(ordered::sort_unique(&names), expected);
}

#[test]
fn paths_are_taken_apart_as_std_does() {
    for path in [
        "", "/", "a", "a.b", "a/b.c", "/a/b/", ".hidden", "a.", "a.b.c", "..", "a/..", "x/.b.sif",
    ] {
        let std_path = std::path::Path::new(path);
        let name = std_path.file_name().map(|name| name.to_str().unwrap().to_string());
        assert_eq!(file_name(path), name, "{path:?}");
        let suffix = std_path.extension().map(|name| name.to_str().unwrap().to_string());
        assert_eq!(extension(path), suffix, "{path:?}");
    }
    for dir in ["", "/", "a", "a/", "/a/b"] {
        let joined = std::path::Path::new(dir).join("name");
        assert_eq!(join_path(dir, "name"), joined.to_str().unwrap(), "{dir:?}");
    }
}
