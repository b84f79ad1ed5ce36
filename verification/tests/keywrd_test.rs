use armventure::keywrd::{Error, Tree};

#[test]
fn build_str_tree_simple() {
    let mut tree = Tree::new();
    tree.insert(b"abc").unwrap();
    tree.insert(b"abd").unwrap();
    tree.insert(b"abdd").unwrap();
    println!("{:?}", tree);
}

#[test]
fn keyword_set_rejects_duplicates() {
    let mut tree = Tree::new();
    assert!(tree.is_empty());
    assert_eq!(tree.insert(b"abc"), Ok(()));
    assert_eq!(tree.insert(b"abd"), Ok(()));
    assert_eq!(tree.insert(b"abdd"), Ok(()));
    assert!(!tree.is_empty());
    assert_eq!(tree.insert(b"abd"), Err(Error::Duplicate));
}
