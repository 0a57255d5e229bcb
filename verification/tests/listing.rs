use unofficial_neuro_kar_manager::api::gdrive::list::{arrange_listing, synthesize_directories};
use unofficial_neuro_kar_manager::api::gdrive::types::GdriveFile;

fn file(path: &str, name: &str) -> GdriveFile {
    GdriveFile::new(
        path.to_string(),
        name.to_string(),
        false,
        Some(10),
        Some("audio/mpeg".to_string()),
    )
}

fn dir(path: &str, name: &str) -> GdriveFile {
    GdriveFile::new(
        path.to_string(),
        name.to_string(),
        true,
        None,
        Some("inode/directory".to_string()),
    )
}

fn paths(files: &[GdriveFile]) -> Vec<String> {
    files.iter().map(|f| f.path.clone()).collect()
}

#[test]
fn entry_from_a_listing_item() {
    let f = GdriveFile::new("a/b".to_string(), "b".to_string(), false, None, None);
    assert_eq!(f.path, "a/b");
    assert_eq!(f.name, "b");
    assert!(!f.is_dir);
    assert_eq!(f.size, 0);
    assert_eq!(f.mime_type, "");
    let g = GdriveFile::new("a".to_string(), "a".to_string(), true, Some(7), Some("x/y".to_string()));
    assert_eq!(g.size, 7);
    assert_eq!(g.mime_type, "x/y");
    let h = g.duplicate();
    assert_eq!((h.path, h.name, h.is_dir, h.size, h.mime_type), ("a".to_string(), "a".to_string(), true, 7, "x/y".to_string()));
}

#[test]
fn missing_parents_are_added_once() {
    let files = vec![file("a/b/c.mp3", "c.mp3"), file("a/d.mp3", "d.mp3"), file("e.mp3", "e.mp3")];
    let dirs = synthesize_directories(&files);
    assert_eq!(paths(&dirs), vec!["a", "a/b"]);
    assert_eq!(dirs[1].name, "b");
    assert_eq!(dirs[0].name, "a");
    for d in &dirs {
        assert!(d.is_dir);
        assert_eq!(d.size, 0);
        assert_eq!(d.mime_type, "inode/directory");
    }
}

#[test]
fn listed_directories_are_not_added() {
    let files = vec![dir("a", "a"), file("a/b/c.mp3", "c.mp3"), dir("x/y", "y")];
    assert_eq!(paths(&synthesize_directories(&files)), vec!["a/b", "x"]);
    assert!(synthesize_directories(&Vec::new()).is_empty());
}

#[test]
fn odd_paths() {
    let files = vec![file("/a", "a"), file("b//c", "c"), file("d/", "")];
    let dirs = synthesize_directories(&files);
    assert_eq!(paths(&dirs), vec!["", "b", "b/", "d"]);
    assert_eq!(dirs[0].name, "");
    assert_eq!(dirs[2].name, "");
}

#[test]
fn listing_has_directories_first_then_names_without_case() {
    let files = vec![
        file("zeta.mp3", "zeta.mp3"),
        file("Songs/b.mp3", "b.mp3"),
        file("Alpha.mp3", "Alpha.mp3"),
        dir("extras", "extras"),
        file("Songs/Live/a.mp3", "a.mp3"),
    ];
    let listing = arrange_listing(&files);
    assert_eq!(
        paths(&listing),
        vec!["extras", "Songs/Live", "Songs", "Songs/Live/a.mp3", "Alpha.mp3", "Songs/b.mp3", "zeta.mp3"]
    );
    assert!(listing[0].is_dir && listing[1].is_dir && listing[2].is_dir && !listing[3].is_dir);
    assert_eq!(listing[1].name, "Live");
    assert_eq!(listing[3].size, 10);
    assert_eq!(listing[3].mime_type, "audio/mpeg");
}

#[test]
fn equal_names_keep_their_order() {
    let files = vec![
        file("x/README", "README"),
        file("readme", "readme"),
        file("y/ReadMe", "ReadMe"),
        file("\u{c9}t\u{e9}", "\u{c9}T\u{c9}"),
        file("\u{e9}t\u{e9}2", "\u{e9}t\u{e9}"),
    ];
    let listing = arrange_listing(&files);
    assert_eq!(
        paths(&listing),
        vec!["x", "y", "x/README", "readme", "y/ReadMe", "\u{c9}t\u{e9}", "\u{e9}t\u{e9}2"]
    );
}

#[test]
fn listing_agrees_with_a_stable_sort() {
    let files = vec![
        file("b/2", "2"),
        file("a/10", "10"),
        dir("b", "b"),
        file("c/B", "B"),
        file("c/a", "a"),
        file("A", "A"),
    ];
    let mut expected: Vec<GdriveFile> = files.iter().map(|f| f.duplicate()).collect();
    expected.extend(synthesize_directories(&files));
    expected.sort_by(|a, b| match (a.is_dir, b.is_dir) {
        (true, false) => std::cmp::Ordering::Less,
        (false, true) => std::cmp::Ordering::Greater,
        _ => a.name.to_lowercase().cmp(&b.name.to_lowercase()),
    });
    assert_eq!(paths(&arrange_listing(&files)), paths(&expected));
}
