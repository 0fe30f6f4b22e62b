use directory_pickers::order::{compare_names, find_place, NameOrder};
use directory_pickers::path::{list_shown, DirectoryPath};

#[test]
fn file_names_are_those_of_the_standard_library() {
    let parts = ["", "/", ".", "..", "a", "bc", "...", ".git"];
    for a in parts {
        for b in parts {
            for c in parts {
                for d in parts {
                    let text = format!("{}{}{}{}", a, b, c, d);
                    let expected = std::path::Path::new(&text)
                        .file_name()
                        .map(|name| name.as_encoded_bytes().to_vec());
                    assert_eq!(DirectoryPath::from_text(&text).file_name(), expected, "{:?}", text);
                }
            }
        }
    }
}

#[test]
fn paths_without_a_name() {
    for text in ["", "/", "//", ".", "./", "..", "a/..", "a/../", "/."] {
        assert!(DirectoryPath::from_text(text).file_name().is_none(), "{:?}", text);
        assert!(DirectoryPath::from_text(text).key().is_empty());
        assert_eq!(DirectoryPath::from_text(text).listed_name(), text);
        assert_eq!(DirectoryPath::from_text(text).plain_name(), "");
    }
    assert_eq!(DirectoryPath::from_text("a/./").file_name().unwrap(), b"a");
}

#[test]
fn text_of_a_path() {
    let path = DirectoryPath::from_text("/tmp/\u{e4}\u{1f600}");
    assert_eq!(path.bytes, "/tmp/\u{e4}\u{1f600}".as_bytes());
    assert_eq!(path.to_text(), "/tmp/\u{e4}\u{1f600}");
    assert_eq!(path.listed_name(), "\u{e4}\u{1f600}");
    assert_eq!(path.plain_name(), "\u{e4}\u{1f600}");
    assert_eq!(path.duplicate().bytes, path.bytes);
    let path = DirectoryPath { bytes: vec![b'/', b'x', 0xc3, b'/', b'y', 0xff] };
    assert_eq!(path.to_text(), "/x\u{fffd}/y\u{fffd}");
    assert_eq!(path.listed_name(), "y\u{fffd}");
    assert_eq!(path.plain_name(), "");
}

#[test]
fn lists_of_paths() {
    assert_eq!(list_shown(&vec![]), "");
    assert_eq!(list_shown(&vec![DirectoryPath::from_text("/a")]), "/a");
    assert_eq!(
        list_shown(&vec![DirectoryPath::from_text("/a"), DirectoryPath::from_text("/b")]),
        "/a, /b"
    );
}

#[test]
fn names_compare_as_byte_strings() {
    let names: [&[u8]; 7] = [b"", b"a", b"ab", b"b", b"B", b"\xff", b"a\x00"];
    for a in names {
        for b in names {
            let order = compare_names(&a.to_vec(), &b.to_vec());
            match a.cmp(b) {
                std::cmp::Ordering::Less => assert!(matches!(order, NameOrder::Before)),
                std::cmp::Ordering::Equal => assert!(matches!(order, NameOrder::Same)),
                std::cmp::Ordering::Greater => assert!(matches!(order, NameOrder::After)),
            }
        }
    }
}

#[test]
fn places_in_a_sorted_list() {
    let directories: Vec<DirectoryPath> =
        ["/b", "/x/d", "/f"].iter().map(|t| DirectoryPath::from_text(t)).collect();
    for (name, place) in [("a", 0), ("b", 0), ("c", 1), ("d", 1), ("e", 2), ("f", 2), ("g", 3)] {
        assert_eq!(find_place(&directories, &name.as_bytes().to_vec()), place);
    }
    assert_eq!(find_place(&vec![], &b"a".to_vec()), 0);
}
