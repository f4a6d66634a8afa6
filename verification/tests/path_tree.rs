use aetherment::paths::{
    branch_in_bounds, build_path_tree, load_branch, paths_file_from_gz, split_bytes, write_branch, LazyTree,
    PathListError,
};
use std::io::Write;

fn gz(data: &[u8]) -> Vec<u8> {
    let mut e = flate2::write::GzEncoder::new(Vec::new(), flate2::Compression::default());
    e.write_all(data).unwrap();
    e.finish().unwrap()
}

const STORED: [u8; 28] = [
    2, 0, 1, b'a', 14, 0, 0, 0, 1, b'd', 0, 0, 0, 0, //
    2, 0, 1, b'b', 0, 0, 0, 0, 1, b'c', 0, 0, 0, 0,
];

#[test]
fn split_keeps_empty_pieces() {
    let p = split_bytes(b"a//b/", b'/');
    assert_eq!(p, vec![b"a".to_vec(), vec![], b"b".to_vec(), vec![]]);
    assert_eq!(split_bytes(b"", b'/'), vec![Vec::<u8>::new()]);
}

#[test]
fn path_list_becomes_a_tree() {
    let t = build_path_tree(b"a/b\na/c\nd");
    assert_eq!(t.len(), 2);
    assert_eq!(t[0].name, b"a".to_vec());
    assert_eq!(t[0].children.len(), 2);
    assert_eq!(t[0].children[1].name, b"c".to_vec());
    assert_eq!(t[1].name, b"d".to_vec());
    assert!(t[1].children.is_empty());
}

#[test]
fn tree_is_stored_list_first_then_children() {
    let t = build_path_tree(b"a/b\na/c\nd");
    let mut out = Vec::new();
    write_branch(&t, &mut out);
    assert_eq!(out, STORED.to_vec());
}

#[test]
fn stored_tree_reads_back_sorted() {
    assert!(branch_in_bounds(&STORED, 0));
    let top = load_branch(&STORED, 0).unwrap();
    assert_eq!(top.len(), 2);
    assert_eq!((top[0].name.as_str(), top[0].offset), ("a", 14));
    assert_eq!((top[1].name.as_str(), top[1].offset), ("d", 0));
    assert!(top[0].branches.is_none());
    let sub = load_branch(&STORED, 14).unwrap();
    let names: Vec<&str> = sub.iter().map(|b| b.name.as_str()).collect();
    assert_eq!(names, vec!["b", "c"]);
}

#[test]
fn entries_with_children_come_first() {
    // "z" has no children, "Y" has; "b" sorts before "C" only when lowercased
    let data: Vec<u8> = vec![
        4, 0, 1, b'z', 0, 0, 0, 0, 1, b'C', 0, 0, 0, 0, 1, b'b', 0, 0, 0, 0, 1, b'Y', 30, 0, 0, 0, //
        0, 0, 0, 0,
    ];
    let l = load_branch(&data, 0).unwrap();
    let names: Vec<&str> = l.iter().map(|b| b.name.as_str()).collect();
    assert_eq!(names, vec!["Y", "b", "C", "z"]);
}

#[test]
fn out_of_bounds_lists_are_detected() {
    assert!(!branch_in_bounds(&STORED[..13], 0));
    assert!(!branch_in_bounds(&STORED, 40));
    assert!(!branch_in_bounds(&[1, 0, 5, b'a'], 0));
}

#[test]
fn invalid_names_are_refused() {
    let data = [1u8, 0, 1, 0xFF, 0, 0, 0, 0];
    assert!(load_branch(&data, 0).is_err());
}

#[test]
fn downloaded_list_becomes_stored_tree() {
    assert_eq!(paths_file_from_gz(&gz(b"a/b\na/c\nd")).unwrap(), STORED.to_vec());
}

#[test]
fn download_errors_are_told_apart() {
    assert!(matches!(paths_file_from_gz(b"not gzip at all"), Err(PathListError::Decompress)));
    assert!(matches!(paths_file_from_gz(&gz(&[0x61, 0xFF, 0x0A])), Err(PathListError::NotText)));
}

#[test]
fn lazy_tree_loads_top_level() {
    let mut t = LazyTree::new();
    assert!(t.branches.is_empty());
    t.load(STORED.to_vec()).unwrap();
    assert_eq!(t.data, STORED.to_vec());
    assert_eq!(t.branches.len(), 2);
    assert_eq!(t.branches[0].name, "a");
}

#[test]
fn lazy_tree_keeps_state_on_error() {
    let mut t = LazyTree::new();
    t.load(STORED.to_vec()).unwrap();
    assert!(t.load(vec![1, 0, 1, 0xFF, 0, 0, 0, 0]).is_err());
    assert_eq!(t.data, STORED.to_vec());
    assert_eq!(t.branches.len(), 2);
}
