use kaeo::helpers::{find_ancestor, nearest_ancestor, texts_of, FilePath};
use std::path::{Component, Path};

fn path(text: &str) -> FilePath {
    let mut anchor = String::new();
    let mut names = Vec::new();
    for component in Path::new(text).components() {
        let part = component.as_os_str().to_str().unwrap();
        match component {
            Component::Prefix(_) | Component::RootDir => anchor.push_str(part),
            _ => names.push(part.to_string()),
        }
    }
    FilePath { text: text.to_string(), anchor, names }
}

fn paths(items: &[&str]) -> Vec<FilePath> {
    items.iter().map(|s| path(s)).collect()
}

fn on_drive(text: &str, drive: &str, names: &[&str]) -> FilePath {
    FilePath {
        text: text.to_string(),
        anchor: drive.to_string(),
        names: names.iter().map(|s| s.to_string()).collect(),
    }
}

#[test]
fn nearest_ancestor_wins() {
    let roots = paths(&["/a/b", "/a"]);
    assert_eq!(find_ancestor(&path("/a/b/c/file.txt"), &roots), path("/a/b"));
    let other_order = paths(&["/a", "/a/b"]);
    assert_eq!(find_ancestor(&path("/a/b/c/file.txt"), &other_order), path("/a/b"));
}

#[test]
fn outer_root_when_inner_is_not_above() {
    let roots = paths(&["/a/b", "/a"]);
    assert_eq!(find_ancestor(&path("/a/c/file.txt"), &roots), path("/a"));
}

#[test]
fn the_path_itself_counts() {
    let roots = paths(&["/a/b/file.txt", "/a"]);
    assert_eq!(find_ancestor(&path("/a/b/file.txt"), &roots), path("/a/b/file.txt"));
}

#[test]
fn the_root_directory_counts() {
    let roots = paths(&["/"]);
    assert_eq!(find_ancestor(&path("/a/b"), &roots), path("/"));
    assert_eq!(find_ancestor(&path("/"), &roots), path("/"));
}

#[test]
fn a_prefix_inside_a_component_is_no_ancestor() {
    let roots = paths(&["/a/b"]);
    assert_eq!(nearest_ancestor(&path("/a/bc/file"), &roots), None);
    assert_eq!(nearest_ancestor(&path("/a/b"), &roots), Some(path("/a/b")));
    assert_eq!(nearest_ancestor(&path("/a"), &roots), None);
}

#[test]
fn no_ancestor_among_the_roots() {
    assert_eq!(nearest_ancestor(&path("/x/y"), &paths(&["/a", "/b"])), None);
    assert_eq!(nearest_ancestor(&path("/x/y"), &[]), None);
    assert_eq!(nearest_ancestor(&path(""), &paths(&["/a"])), None);
}

#[test]
fn the_answer_is_written_as_the_watched_path_is() {
    let roots = paths(&["/a/b/"]);
    assert_eq!(roots[0].names, vec!["a", "b"]);
    let found = find_ancestor(&path("/a//b/./x"), &roots);
    assert_eq!(found.text, "/a/b/");
    assert_eq!(found, roots[0]);
}

#[test]
fn the_first_of_two_names_for_one_place_is_taken() {
    let roots = paths(&["/a", "/a/b/", "/a/b"]);
    assert_eq!(find_ancestor(&path("/a/b/x"), &roots).text, "/a/b/");
    let other_order = paths(&["/a/b", "/a/b/", "/a"]);
    assert_eq!(find_ancestor(&path("/a/b/x"), &other_order).text, "/a/b");
}

#[test]
fn relative_paths_end_at_the_empty_path() {
    assert_eq!(nearest_ancestor(&path("a/b/c"), &paths(&["a"])), Some(path("a")));
    assert_eq!(nearest_ancestor(&path("a/b/c"), &paths(&["a", ""])), Some(path("a")));
    assert_eq!(nearest_ancestor(&path("x/y"), &paths(&["a", ""])), Some(path("")));
    assert_eq!(nearest_ancestor(&path("/x/y"), &paths(&["x", ""])), None);
    assert_eq!(nearest_ancestor(&path("x/y"), &paths(&["/x", "/"])), None);
}

#[test]
fn anchors_keep_drives_apart() {
    let roots = vec![on_drive("D:\\a", "D:\\", &["a"]), on_drive("C:\\a", "C:\\", &["a"])];
    let child = on_drive("C:\\a\\b\\f.txt", "C:\\", &["a", "b", "f.txt"]);
    assert_eq!(find_ancestor(&child, &roots).text, "C:\\a");
    let elsewhere = on_drive("E:\\a\\b", "E:\\", &["a", "b"]);
    assert_eq!(nearest_ancestor(&elsewhere, &roots), None);
    let drive = vec![on_drive("C:\\", "C:\\", &[])];
    assert_eq!(find_ancestor(&child, &drive).text, "C:\\");
}

#[test]
fn paths_outside_ascii() {
    let roots = paths(&["/données"]);
    assert_eq!(find_ancestor(&path("/données/été/f.txt"), &roots), path("/données"));
}

#[test]
fn texts_of_gives_the_texts_in_order() {
    assert_eq!(texts_of(&paths(&["/b/c", "/a", "rel/x"])), vec!["/b/c", "/a", "rel/x"]);
    assert_eq!(texts_of(&[]), Vec::<String>::new());
}

#[test]
fn a_copy_of_a_path_is_the_same_path() {
    let first = path("/a/b/c");
    let copy = first.clone();
    assert_eq!(copy, first);
    assert_eq!(copy.text, "/a/b/c");
    assert_eq!(copy.anchor, "/");
    assert_eq!(copy.names, vec!["a", "b", "c"]);
}
