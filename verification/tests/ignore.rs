use clang_binding::is_ignore::{is_ignored, same_bytes};

fn walked(paths: &[&str]) -> Vec<Vec<u8>> {
    paths.iter().map(|p| p.as_bytes().to_vec()).collect()
}

#[test]
fn a_path_that_the_walk_yielded_is_not_ignored() {
    let entries = walked(&["src", "src/a.c", "src/b.c"]);
    assert!(!is_ignored(b"src/a.c", &entries));
    assert!(!is_ignored(b"src/b.c", &entries));
    assert!(!is_ignored(b"src", &entries));
}

#[test]
fn a_path_that_the_walk_did_not_yield_is_ignored() {
    let entries = walked(&["src", "src/a.c", "src/b.c"]);
    assert!(is_ignored(b"src/c.c", &entries));
    assert!(is_ignored(b"other/a.c", &entries));
}

#[test]
fn an_empty_walk_ignores_every_path() {
    assert!(is_ignored(b"src/a.c", &Vec::new()));
    assert!(is_ignored(b"", &Vec::new()));
}

#[test]
fn a_path_is_found_by_all_of_its_bytes() {
    let entries = walked(&["src/a.c"]);
    assert!(is_ignored(b"src/a.", &entries));
    assert!(is_ignored(b"src/a.cc", &entries));
    assert!(is_ignored(b"rc/a.c", &entries));
    assert!(is_ignored(b"src/A.c", &entries));
    assert!(is_ignored(b"./src/a.c", &entries));
}

#[test]
fn a_path_that_is_no_text_can_be_found() {
    let entries: Vec<Vec<u8>> = vec![vec![b'd', b'/', 0xff, b'.', b'c']];
    assert!(!is_ignored(&[b'd', b'/', 0xff, b'.', b'c'], &entries));
    assert!(is_ignored(&[b'd', b'/', 0xfe, b'.', b'c'], &entries));
}

#[test]
fn a_path_yielded_twice_is_not_ignored() {
    let entries = walked(&["a.c", "b.c", "a.c"]);
    assert!(!is_ignored(b"a.c", &entries));
}

#[test]
fn same_bytes_compares_length_and_content() {
    assert!(same_bytes(b"", b""));
    assert!(same_bytes(b"abc", b"abc"));
    assert!(!same_bytes(b"abc", b"abd"));
    assert!(!same_bytes(b"abc", b"ab"));
    assert!(!same_bytes(b"", b"a"));
    assert!(!same_bytes(b"xbc", b"abc"));
}
