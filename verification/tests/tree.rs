use rgit::error::GitError;
use rgit::tree::{
    BlobRead, EntryQuery, EntryRead, EntryStep, ItemObject, ItemRead, ListQuery, PathDestination,
    PathQuery, RootRead, RootStep, TreeItem, TreeRoot,
};
use syntect::parsing::{SyntaxSet, SyntaxSetBuilder};

fn query(tree_id: Option<&str>, branch: Option<&str>) -> Result<PathQuery, GitError> {
    PathQuery::new(Some(b"src".to_vec()), tree_id, branch.map(|b| b.to_string()))
}

fn blob(name: &[u8], content: &[u8]) -> EntryRead {
    EntryRead::Blob(BlobRead {
        name: name.to_vec(),
        mode: 0o100644,
        size: content.len(),
        content: content.to_vec(),
    })
}

fn item(name: &[u8], mode: i32, object: ItemObject) -> ItemRead {
    ItemRead { name: name.to_vec(), mode, object }
}

fn entry(path: &[u8]) -> EntryQuery {
    EntryQuery { path: path.to_vec() }
}

#[test]
fn hash_goes_before_branch_before_head() {
    let mut id = [0; 20];
    id[0] = 0xbe;
    id[1] = 0xef;
    let by_hash = query(Some("beef"), Some("main")).unwrap();
    assert!(matches!(by_hash.root, TreeRoot::Id(found) if found == id));
    assert_eq!(by_hash.path, Some(b"src".to_vec()));
    let by_branch = query(None, Some("main")).unwrap();
    assert!(matches!(by_branch.root, TreeRoot::Branch(name) if name == "main"));
    assert!(matches!(query(None, None).unwrap().root, TreeRoot::Head));
}

#[test]
fn bad_hash_is_refused_at_once() {
    assert_eq!(query(Some("nope"), Some("main")).unwrap_err(), GitError::BadTreeHash);
    assert_eq!(query(Some(""), None).unwrap_err(), GitError::BadTreeHash);
}

#[test]
fn root_that_is_not_read_is_reported() {
    let error = |id, branch, read| query(id, branch).unwrap().rooted(read).unwrap_err();
    assert_eq!(error(Some("a"), None, RootRead::NoTree), GitError::TreeNotFound);
    assert_eq!(error(Some("a"), None, RootRead::NoReference), GitError::TreeNotFound);
    assert_eq!(error(None, Some("b"), RootRead::NoReference), GitError::BranchNotFound);
    assert_eq!(error(None, Some("b"), RootRead::NoTree), GitError::NoTreeForBranch);
    assert_eq!(error(None, None, RootRead::NoReference), GitError::HeadNotFound);
    assert_eq!(error(None, None, RootRead::NoTree), GitError::NoTreeForHead);
}

#[test]
fn path_is_looked_up_and_the_root_is_listed() {
    let step = query(None, None).unwrap().rooted(RootRead::Read).unwrap();
    assert!(matches!(step, RootStep::Entry(next) if next.path == b"src"));
    let root = PathQuery::new(None, None, None).unwrap().rooted(RootRead::Read).unwrap();
    assert!(matches!(root, RootStep::List(next) if next.path.is_none()));
}

#[test]
fn file_is_shown() {
    let set = SyntaxSet::load_defaults_newlines();
    let step = entry(b"doc").resolve(&blob(b"a.txt", b"x\n"), &set).unwrap();
    match step {
        EntryStep::Done(PathDestination::File(file)) => {
            assert_eq!(file.metadata.mode, 0o100644);
            assert_eq!(file.metadata.size, 2);
            assert_eq!(file.metadata.name, "a.txt");
            assert_eq!(file.metadata.path, b"doc/a.txt");
            assert_eq!(
                file.content,
                "<code><span class=\"text plain\">x</code>\n<code></span></code>"
            );
        }
        _ => panic!("not a file"),
    }
}

#[test]
fn file_is_highlighted_by_its_name() {
    let set = SyntaxSet::load_defaults_newlines();
    let content = |path: &[u8], name: &[u8]| {
        match entry(path).resolve(&blob(name, b"fn x() {}\n"), &set).unwrap() {
            EntryStep::Done(PathDestination::File(file)) => file.content,
            _ => panic!("not a file"),
        }
    };
    assert!(content(b"src/main.rs", b"main.rs").contains("source rust"));
    assert_eq!(content(b"a.txt", b"main.rs"), content(b"", b"main.rs"));
    assert!(content(b"src/main.rs", b"LICENSE").contains("text plain"));
    assert!(content(b"x", b"Makefile").contains("source makefile"));
}

#[test]
fn name_that_is_not_utf8_is_replaced() {
    let set = SyntaxSet::load_defaults_newlines();
    match entry(b"d").resolve(&blob(b"a\xff", b""), &set).unwrap() {
        EntryStep::Done(PathDestination::File(file)) => {
            assert_eq!(file.metadata.name, "a\u{fffd}");
            assert_eq!(file.metadata.path, "d/a\u{fffd}".as_bytes());
        }
        _ => panic!("not a file"),
    }
}

#[test]
fn tree_is_listed_next() {
    let set = SyntaxSet::load_defaults_newlines();
    let step = entry(b"src").resolve(&EntryRead::Tree, &set).unwrap();
    assert!(matches!(step, EntryStep::List(next) if next.path == Some(b"src".to_vec())));
}

#[test]
fn entry_that_is_not_read_is_reported() {
    let set = SyntaxSet::load_defaults_newlines();
    let error = |read| entry(b"src").resolve(&read, &set).unwrap_err();
    assert_eq!(error(EntryRead::NotInTree), GitError::PathNotInTree);
    assert_eq!(error(EntryRead::NotObject), GitError::EntryNotObject);
    assert_eq!(error(EntryRead::Other), GitError::NotTreeOrBlob);
}

#[test]
fn lack_of_a_syntax_gives_nothing() {
    let empty = SyntaxSetBuilder::new().build();
    assert!(entry(b"src").try_resolve(&blob(b"a.rs", b""), &empty).is_none());
    assert!(matches!(
        entry(b"src").try_resolve(&EntryRead::Tree, &empty),
        Some(Ok(EntryStep::List(_)))
    ));
    let set = SyntaxSet::load_defaults_newlines();
    assert!(matches!(
        entry(b"src").try_resolve(&blob(b"a.rs", b""), &set),
        Some(Ok(EntryStep::Done(_)))
    ));
}

#[test]
fn files_and_trees_are_listed_in_order() {
    let items = vec![
        item(b"b.rs", 0o100755, ItemObject::Blob(7)),
        item(b"sub", 0o160000, ItemObject::Other),
        item(b"a\xff", 0o040000, ItemObject::Tree),
    ];
    match (ListQuery { path: Some(b"src".to_vec()) }).finish(&items).unwrap() {
        PathDestination::Tree(listed) => {
            assert_eq!(listed.len(), 2);
            match &listed[0] {
                TreeItem::File(file) => {
                    assert_eq!(file.mode, 0o100755);
                    assert_eq!(file.size, 7);
                    assert_eq!(file.name, "b.rs");
                    assert_eq!(file.path, b"src/b.rs");
                }
                TreeItem::Tree(_) => panic!("not a file"),
            }
            match &listed[1] {
                TreeItem::Tree(tree) => {
                    assert_eq!(tree.mode, 0o040000);
                    assert_eq!(tree.name, "a\u{fffd}");
                    assert_eq!(tree.path, "src/a\u{fffd}".as_bytes());
                }
                TreeItem::File(_) => panic!("not a tree"),
            }
        }
        PathDestination::File(_) => panic!("not a tree"),
    }
}

#[test]
fn items_of_the_root_have_their_names_as_paths() {
    let items = vec![item(b"b.rs", 0, ItemObject::Blob(0))];
    match (ListQuery { path: None }).finish(&items).unwrap() {
        PathDestination::Tree(listed) => {
            assert!(matches!(&listed[0], TreeItem::File(file) if file.path == b"b.rs"));
        }
        PathDestination::File(_) => panic!("not a tree"),
    }
}

#[test]
fn empty_tree_is_listed() {
    let listed = (ListQuery { path: None }).finish(&vec![]).unwrap();
    assert!(matches!(listed, PathDestination::Tree(items) if items.is_empty()));
}

#[test]
fn one_missing_item_fails_the_listing() {
    let items = vec![
        item(b"a", 0, ItemObject::Tree),
        item(b"b", 0, ItemObject::Missing),
        item(b"c", 0, ItemObject::Tree),
    ];
    assert_eq!((ListQuery { path: None }).finish(&items).unwrap_err(), GitError::ItemNotObject);
}

#[test]
fn request_is_taken_to_its_answer() {
    let set = SyntaxSet::load_defaults_newlines();
    let items = vec![
        item(b"a.txt", 0o100644, ItemObject::Blob(3)),
        item(b"sub", 0o160000, ItemObject::Other),
        item(b"dir", 0o040000, ItemObject::Tree),
    ];
    let answer = |path: Option<&[u8]>, root_read, entry_read: EntryRead| {
        PathQuery::new(path.map(<[u8]>::to_vec), None, None)
            .unwrap()
            .answer(root_read, &entry_read, &items, &set)
    };
    let listed = |destination| match destination {
        Ok(PathDestination::Tree(items)) => items
            .into_iter()
            .map(|item| match item {
                TreeItem::File(file) => file.path,
                TreeItem::Tree(tree) => tree.path,
            })
            .collect::<Vec<_>>(),
        _ => panic!("no tree"),
    };
    let root = answer(None, RootRead::Read, EntryRead::NotInTree);
    assert_eq!(listed(root), [b"a.txt".to_vec(), b"dir".to_vec()]);
    let tree = answer(Some(b"src"), RootRead::Read, EntryRead::Tree);
    assert_eq!(listed(tree), [b"src/a.txt".to_vec(), b"src/dir".to_vec()]);
    match answer(Some(b"a.txt"), RootRead::Read, blob(b"a.txt", b"hi\n")) {
        Ok(PathDestination::File(file)) => {
            assert_eq!(file.metadata.path, b"a.txt/a.txt");
            assert_eq!(file.metadata.name, "a.txt");
            assert!(file.content.contains("hi"));
        }
        _ => panic!("no file"),
    }
    let error = |path, root, entry| answer(path, root, entry).unwrap_err();
    assert_eq!(error(None, RootRead::NoTree, EntryRead::Tree), GitError::NoTreeForHead);
    assert_eq!(
        error(Some(b"x"), RootRead::Read, EntryRead::NotInTree),
        GitError::PathNotInTree
    );
}
