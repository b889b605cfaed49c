//! What is at a path of a repository: a file or a tree.
//!
//! A request for a path is answered in steps, and what a step asks for is read from the repository
//! between them: [`PathQuery`] asks for the tree to start from, [`EntryQuery`] for what that tree
//! has at the path, and [`ListQuery`] for the items of the tree that is shown.
use vstd::prelude::*;
use syntect::parsing::SyntaxSet;

use crate::error::GitError;
use crate::highlight::{format_file, has_syntax};
use crate::oid::{parse_id, ObjectId};
use crate::paths::{join, syntax_token};
use crate::text::from_utf8_lossy;

verus! {

use vstd::utf8::{decode_utf8_encode_utf8, encode_utf8, valid_utf8};
use crate::highlight::{can_highlight, file_html, highlighting_ends};
use crate::oid::{id_bytes, is_hex_id};
use crate::paths::{is_component, joined, joined_syntax_token, syntax_token_of, token_is_lossless};
use crate::text::{lossless, utf8_lossy};

/// A tree in a tree.
#[derive(Debug)]
pub struct Tree {
    /// The mode.
    pub mode: i32,
    /// The name.
    pub name: String,
    /// The path from the root.
    pub path: Vec<u8>,
}

/// A file in a tree.
#[derive(Debug)]
pub struct File {
    /// The mode.
    pub mode: i32,
    /// The number of bytes.
    pub size: usize,
    /// The name.
    pub name: String,
    /// The path from the root.
    pub path: Vec<u8>,
}

/// A file and its contents as HTML.
#[derive(Debug)]
pub struct FileWithContent {
    /// The file.
    pub metadata: File,
    /// The contents.
    pub content: String,
}

/// An item of a tree.
#[derive(Debug)]
pub enum TreeItem {
    /// A tree.
    Tree(Tree),
    /// A file.
    File(File),
}

/// What is at a path.
#[derive(Debug)]
pub enum PathDestination {
    /// A tree, by its items.
    Tree(Vec<TreeItem>),
    /// A file.
    File(FileWithContent),
}

/// What a [`Tree`] says.
pub struct TreeModel {
    /// The mode.
    pub mode: i32,
    /// The name.
    pub name: Seq<char>,
    /// The path from the root.
    pub path: Seq<u8>,
}

/// What a [`File`] says.
pub struct FileModel {
    /// The mode.
    pub mode: i32,
    /// The number of bytes.
    pub size: usize,
    /// The name.
    pub name: Seq<char>,
    /// The path from the root.
    pub path: Seq<u8>,
}

/// What a [`TreeItem`] says.
pub enum TreeItemModel {
    /// A tree.
    Tree(TreeModel),
    /// A file.
    File(FileModel),
}

/// What a [`PathDestination`] says.
pub enum DestinationModel {
    /// A tree, by its items.
    Tree(Seq<TreeItemModel>),
    /// A file and its contents.
    File(FileModel, Seq<char>),
}

impl View for Tree {
    type V = TreeModel;

    open spec fn view(&self) -> TreeModel {
        TreeModel { mode: self.mode, name: self.name@, path: self.path@ }
    }
}

impl View for File {
    type V = FileModel;

    open spec fn view(&self) -> FileModel {
        FileModel { mode: self.mode, size: self.size, name: self.name@, path: self.path@ }
    }
}

impl View for TreeItem {
    type V = TreeItemModel;

    open spec fn view(&self) -> TreeItemModel {
        match self {
            TreeItem::Tree(tree) => TreeItemModel::Tree(tree@),
            TreeItem::File(file) => TreeItemModel::File(file@),
        }
    }
}

impl View for PathDestination {
    type V = DestinationModel;

    open spec fn view(&self) -> DestinationModel {
        match self {
            PathDestination::Tree(items) => DestinationModel::Tree(
                items@.map_values(|item: TreeItem| item@),
            ),
            PathDestination::File(file) => DestinationModel::File(file.metadata@, file.content@),
        }
    }
}

/// The tree that a path starts from.
#[derive(Debug)]
pub enum TreeRoot {
    /// The tree with an id.
    Id(ObjectId),
    /// The tree of a branch of the repository.
    Branch(String),
    /// The tree of HEAD.
    Head,
}

/// What a [`TreeRoot`] says.
pub enum TreeRootModel {
    /// The tree with an id.
    Id(Seq<u8>),
    /// The tree of a branch.
    Branch(Seq<char>),
    /// The tree of HEAD.
    Head,
}

impl View for TreeRoot {
    type V = TreeRootModel;

    open spec fn view(&self) -> TreeRootModel {
        match self {
            TreeRoot::Id(id) => TreeRootModel::Id(id@),
            TreeRoot::Branch(name) => TreeRootModel::Branch(name@),
            TreeRoot::Head => TreeRootModel::Head,
        }
    }
}

/// What came of reading the tree that a path starts from.
#[derive(Clone, Copy, Debug, PartialEq, Eq, Structural)]
pub enum RootRead {
    /// There is no such branch, or no HEAD.
    NoReference,
    /// There is no such tree.
    NoTree,
    /// The tree was read.
    Read,
}

/// A file at a path.
#[derive(Debug)]
pub struct BlobRead {
    /// The name.
    pub name: Vec<u8>,
    /// The mode.
    pub mode: i32,
    /// The number of bytes.
    pub size: usize,
    /// The contents.
    pub content: Vec<u8>,
}

/// What came of reading what a tree has at a path.
#[derive(Debug)]
pub enum EntryRead {
    /// The tree has nothing at the path.
    NotInTree,
    /// The object cannot be read.
    NotObject,
    /// It is a file.
    Blob(BlobRead),
    /// It is a tree.
    Tree,
    /// It is something else.
    Other,
}

/// What an item of a tree is.
#[derive(Clone, Copy, Debug, PartialEq, Eq, Structural)]
pub enum ItemObject {
    /// The object cannot be read.
    Missing,
    /// A file with a number of bytes.
    Blob(usize),
    /// A tree.
    Tree,
    /// Something else.
    Other,
}

/// What is read of an item of a tree.
#[derive(Debug)]
pub struct ItemRead {
    /// The name.
    pub name: Vec<u8>,
    /// The mode.
    pub mode: i32,
    /// What it is.
    pub object: ItemObject,
}

/// A request for a path; the tree to start from is to be read.
#[derive(Debug)]
pub struct PathQuery {
    /// The path, if it is not the root.
    pub path: Option<Vec<u8>>,
    /// The tree to start from.
    pub root: TreeRoot,
}

/// A request for a path whose tree was read; what the tree has at the path is to be read.
#[derive(Debug)]
pub struct EntryQuery {
    /// The path.
    pub path: Vec<u8>,
}

/// A request for a path at which there is a tree; the items of the tree are to be read.
#[derive(Debug)]
pub struct ListQuery {
    /// The path, if it is not the root.
    pub path: Option<Vec<u8>>,
}

/// What a request goes on with once the tree to start from was read.
#[derive(Debug)]
pub enum RootStep {
    /// What the tree has at the path is read.
    Entry(EntryQuery),
    /// The items of the tree are read.
    List(ListQuery),
}

/// What a request goes on with once what is at the path was read.
#[derive(Debug)]
pub enum EntryStep {
    /// The request is answered.
    Done(PathDestination),
    /// The items of the tree at the path are read.
    List(ListQuery),
}

/// What an [`EntryStep`] says.
pub enum EntryStepModel {
    /// The request is answered.
    Done(DestinationModel),
    /// The items of the tree at the path are read.
    List,
}

/// The text of a path that may be missing.
pub open spec fn path_view(path: Option<Vec<u8>>) -> Option<Seq<u8>> {
    match path {
        Some(bytes) => Some(bytes@),
        None => None,
    }
}

/// The tree that a request starts from: a hash goes before a branch, and a branch before HEAD.
pub open spec fn root_of(tree_id: Option<Seq<char>>, branch: Option<Seq<char>>) -> Result<
    TreeRootModel,
    GitError,
> {
    match (tree_id, branch) {
        (Some(hash), _) => if is_hex_id(hash) {
            Ok(TreeRootModel::Id(id_bytes(hash)))
        } else {
            Err(GitError::BadTreeHash)
        },
        (None, Some(name)) => Ok(TreeRootModel::Branch(name)),
        (None, None) => Ok(TreeRootModel::Head),
    }
}

/// What is reported where the tree to start from cannot be read.
pub open spec fn root_error(root: TreeRootModel, read: RootRead) -> Option<GitError> {
    match (root, read) {
        (_, RootRead::Read) => None,
        (TreeRootModel::Id(_), _) => Some(GitError::TreeNotFound),
        (TreeRootModel::Branch(_), RootRead::NoReference) => Some(GitError::BranchNotFound),
        (TreeRootModel::Branch(_), RootRead::NoTree) => Some(GitError::NoTreeForBranch),
        (TreeRootModel::Head, RootRead::NoReference) => Some(GitError::HeadNotFound),
        (TreeRootModel::Head, RootRead::NoTree) => Some(GitError::NoTreeForHead),
    }
}

/// The path of an item with a name in the tree at a path.
pub open spec fn item_path(path: Seq<u8>, name: Seq<u8>) -> Seq<u8> {
    joined(path, encode_utf8(utf8_lossy(name)))
}

/// What names the syntax of a file that was read at a path.
pub open spec fn blob_token(path: Seq<u8>, blob: BlobRead) -> Seq<char> {
    syntax_token_of(item_path(path, blob.name@))
}

/// What a request goes on with once what is at the path was read.
pub open spec fn entry_step(set: SyntaxSet, path: Seq<u8>, read: EntryRead) -> Result<
    EntryStepModel,
    GitError,
> {
    match read {
        EntryRead::NotInTree => Err(GitError::PathNotInTree),
        EntryRead::NotObject => Err(GitError::EntryNotObject),
        EntryRead::Blob(blob) => match file_html(set, blob_token(path, blob), blob.content@) {
            Ok(html) => Ok(
                EntryStepModel::Done(
                    DestinationModel::File(
                        FileModel {
                            mode: blob.mode,
                            size: blob.size,
                            name: utf8_lossy(blob.name@),
                            path: item_path(path, blob.name@),
                        },
                        html,
                    ),
                ),
            ),
            Err(e) => Err(e),
        },
        EntryRead::Tree => Ok(EntryStepModel::List),
        EntryRead::Other => Err(GitError::NotTreeOrBlob),
    }
}

/// Whether a set has the syntax for what was read at a path.
pub open spec fn can_show(set: SyntaxSet, path: Seq<u8>, read: EntryRead) -> bool {
    read matches EntryRead::Blob(blob) ==> can_highlight(set, blob_token(path, blob))
}

/// Whether highlighting what was read at a path with a set comes to an end.
pub open spec fn showing_ends(set: SyntaxSet, read: EntryRead) -> bool {
    read is Blob ==> highlighting_ends(set)
}

/// Whether the texts of what was read at a path are kept as they are, where they are UTF-8.
pub open spec fn entry_is_lossless(path: Seq<u8>, read: EntryRead) -> bool {
    read matches EntryRead::Blob(blob) ==> {
        &&& lossless(blob.name@, utf8_lossy(blob.name@))
        &&& lossless(blob.content@, utf8_lossy(blob.content@))
        &&& token_is_lossless(item_path(path, blob.name@))
    }
}

/// The path that the items of a tree are joined to.
pub open spec fn path_or_root(path: Option<Seq<u8>>) -> Seq<u8> {
    match path {
        Some(bytes) => bytes,
        None => seq![],
    }
}

/// What an item is listed as; what is neither a file nor a tree is not listed.
pub open spec fn listed_item(path: Option<Seq<u8>>, item: ItemRead) -> Option<TreeItemModel> {
    let name = utf8_lossy(item.name@);
    let whole = item_path(path_or_root(path), item.name@);
    match item.object {
        ItemObject::Blob(size) => Some(
            TreeItemModel::File(FileModel { mode: item.mode, size, name, path: whole }),
        ),
        ItemObject::Tree => Some(
            TreeItemModel::Tree(TreeModel { mode: item.mode, name, path: whole }),
        ),
        ItemObject::Missing | ItemObject::Other => None,
    }
}

/// What items are listed as, in order.
pub open spec fn listed_items(path: Option<Seq<u8>>, items: Seq<ItemRead>) -> Seq<TreeItemModel>
    decreases items.len(),
{
    if items.len() == 0 {
        seq![]
    } else {
        let front = listed_items(path, items.drop_last());
        match listed_item(path, items.last()) {
            Some(item) => front.push(item),
            None => front,
        }
    }
}

/// Whether each item can be read.
pub open spec fn all_objects(items: Seq<ItemRead>) -> bool {
    forall|i: int| 0 <= i < items.len() ==> (#[trigger] items[i]).object != ItemObject::Missing
}

/// What is answered where there is a tree at the path.
pub open spec fn listing(path: Option<Seq<u8>>, items: Seq<ItemRead>) -> Result<
    DestinationModel,
    GitError,
> {
    if all_objects(items) {
        Ok(DestinationModel::Tree(listed_items(path, items)))
    } else {
        Err(GitError::ItemNotObject)
    }
}

/// Whether the names of items are kept as they are, where they are UTF-8.
pub open spec fn items_are_lossless(items: Seq<ItemRead>) -> bool {
    forall|i: int|
        0 <= i < items.len() ==> lossless((#[trigger] items[i]).name@, utf8_lossy(items[i].name@))
}

/// What is answered to a request that starts from a tree, given all that is read for it.
pub open spec fn answer_of(
    set: SyntaxSet,
    path: Option<Seq<u8>>,
    root: TreeRootModel,
    root_read: RootRead,
    entry_read: EntryRead,
    items: Seq<ItemRead>,
) -> Result<DestinationModel, GitError> {
    match root_error(root, root_read) {
        Some(e) => Err(e),
        None => match path {
            None => listing(None, items),
            Some(bytes) => match entry_step(set, bytes, entry_read) {
                Err(e) => Err(e),
                Ok(EntryStepModel::Done(destination)) => Ok(destination),
                Ok(EntryStepModel::List) => listing(path, items),
            },
        },
    }
}

impl PathQuery {
    /// Asks for a path in the tree with a hash, or else of a branch, or else of HEAD. It fails
    /// where the hash is not one.
    pub fn new(path: Option<Vec<u8>>, tree_id: Option<&str>, branch: Option<String>) -> (query:
        Result<PathQuery, GitError>)
        ensures
            ({
                let root = root_of(
                    match tree_id {
                        Some(hash) => Some(hash@),
                        None => None,
                    },
                    match branch {
                        Some(name) => Some(name@),
                        None => None,
                    },
                );
                match query {
                    Ok(value) => root == Ok::<_, GitError>(value.root@) && value.path == path,
                    Err(e) => root == Err::<TreeRootModel, _>(e),
                }
            }),
    {
        let root = match tree_id {
            Some(hash) => match parse_id(hash, GitError::BadTreeHash) {
                Ok(id) => TreeRoot::Id(id),
                Err(e) => return Err(e),
            },
            None => match branch {
                Some(name) => TreeRoot::Branch(name),
                None => TreeRoot::Head,
            },
        };
        Ok(PathQuery { path, root })
    }

    /// Goes on with what came of reading the tree to start from.
    pub fn rooted(self, read: RootRead) -> (step: Result<RootStep, GitError>)
        ensures
            (match step {
                Ok(RootStep::Entry(query)) => self.path == Some(query.path),
                Ok(RootStep::List(query)) => self.path is None && query.path is None,
                Err(e) => root_error(self.root@, read) == Some(e),
            }),
            step is Ok <==> root_error(self.root@, read) is None,
    {
        match (&self.root, read) {
            (_, RootRead::Read) => {},
            (TreeRoot::Id(_), _) => return Err(GitError::TreeNotFound),
            (TreeRoot::Branch(_), RootRead::NoReference) => return Err(GitError::BranchNotFound),
            (TreeRoot::Branch(_), RootRead::NoTree) => return Err(GitError::NoTreeForBranch),
            (TreeRoot::Head, RootRead::NoReference) => return Err(GitError::HeadNotFound),
            (TreeRoot::Head, RootRead::NoTree) => return Err(GitError::NoTreeForHead),
        }
        match self.path {
            Some(path) => Ok(RootStep::Entry(EntryQuery { path })),
            None => Ok(RootStep::List(ListQuery { path: None })),
        }
    }

    /// Takes the request to its answer, given all that is read for it. What was read of an entry
    /// counts only where a path is asked for, and the items only where there is a tree at it.
    pub fn answer(
        self,
        root_read: RootRead,
        entry_read: &EntryRead,
        items: &Vec<ItemRead>,
        syntax_set: &SyntaxSet,
    ) -> (destination: Result<PathDestination, GitError>)
        requires
            root_error(self.root@, root_read) is None ==> (self.path matches Some(path)
                ==> can_show(*syntax_set, path@, *entry_read) && showing_ends(
                *syntax_set,
                *entry_read,
            )),
        ensures
            ({
                let expected = answer_of(
                    *syntax_set,
                    path_view(self.path),
                    self.root@,
                    root_read,
                    *entry_read,
                    items@,
                );
                match destination {
                    Ok(value) => expected == Ok::<_, GitError>(value@),
                    Err(e) => expected == Err::<DestinationModel, _>(e),
                }
            }),
            destination matches Ok(PathDestination::File(_)) ==> (self.path matches Some(path)
                && entry_is_lossless(path@, *entry_read)),
            destination matches Ok(PathDestination::Tree(_)) ==> items_are_lossless(items@),
    {
        let list = match self.rooted(root_read) {
            Err(e) => return Err(e),
            Ok(RootStep::List(list)) => list,
            Ok(RootStep::Entry(entry)) => match entry.resolve(entry_read, syntax_set) {
                Err(e) => return Err(e),
                Ok(EntryStep::Done(destination)) => return Ok(destination),
                Ok(EntryStep::List(list)) => list,
            },
        };
        list.finish(items)
    }
}

impl EntryQuery {
    /// Goes on with what came of reading what the tree has at the path: a file is the answer, of a
    /// tree the items are read.
    pub fn resolve(self, read: &EntryRead, syntax_set: &SyntaxSet) -> (step: Result<
        EntryStep,
        GitError,
    >)
        requires
            can_show(*syntax_set, self.path@, *read),
            showing_ends(*syntax_set, *read),
        ensures
            (match step {
                Ok(EntryStep::Done(destination)) => entry_step(*syntax_set, self.path@, *read)
                    == Ok::<_, GitError>(EntryStepModel::Done(destination@)),
                Ok(EntryStep::List(query)) => entry_step(*syntax_set, self.path@, *read) == Ok::<
                    _,
                    GitError,
                >(EntryStepModel::List) && path_view(query.path) == Some(self.path@),
                Err(e) => entry_step(*syntax_set, self.path@, *read) == Err::<EntryStepModel, _>(
                    e,
                ),
            }),
            entry_is_lossless(self.path@, *read),
    {
        match read {
            EntryRead::NotInTree => Err(GitError::PathNotInTree),
            EntryRead::NotObject => Err(GitError::EntryNotObject),
            EntryRead::Blob(blob) => {
                let name = from_utf8_lossy(blob.name.as_slice());
                let path = join(self.path.as_slice(), name.as_str().as_bytes());
                let extension = syntax_token(path.as_slice());
                let content = match format_file(
                    blob.content.as_slice(),
                    extension.as_str(),
                    syntax_set,
                ) {
                    Ok(html) => html,
                    Err(e) => return Err(e),
                };
                let metadata = File { mode: blob.mode, size: blob.size, name, path };
                Ok(EntryStep::Done(PathDestination::File(FileWithContent { metadata, content })))
            },
            EntryRead::Tree => Ok(EntryStep::List(ListQuery { path: Some(self.path) })),
            EntryRead::Other => Err(GitError::NotTreeOrBlob),
        }
    }

    /// Goes on as [`EntryQuery::resolve`] does, or gives nothing where the set lacks the syntax
    /// for the file.
    pub fn try_resolve(self, read: &EntryRead, syntax_set: &SyntaxSet) -> (step: Option<
        Result<EntryStep, GitError>,
    >)
        requires
            showing_ends(*syntax_set, *read),
        ensures
            step is Some <==> can_show(*syntax_set, self.path@, *read),
            step is Some ==> entry_is_lossless(self.path@, *read),
            (match step {
                Some(Ok(EntryStep::Done(destination))) => entry_step(
                    *syntax_set,
                    self.path@,
                    *read,
                ) == Ok::<_, GitError>(EntryStepModel::Done(destination@)),
                Some(Ok(EntryStep::List(query))) => entry_step(*syntax_set, self.path@, *read)
                    == Ok::<_, GitError>(EntryStepModel::List) && path_view(query.path) == Some(
                    self.path@,
                ),
                Some(Err(e)) => entry_step(*syntax_set, self.path@, *read) == Err::<
                    EntryStepModel,
                    _,
                >(e),
                None => true,
            }),
    {
        if let EntryRead::Blob(blob) = read {
            let name = from_utf8_lossy(blob.name.as_slice());
            let path = join(self.path.as_slice(), name.as_str().as_bytes());
            let extension = syntax_token(path.as_slice());
            if !has_syntax(syntax_set, extension.as_str()) {
                return None;
            }
        }
        Some(self.resolve(read, syntax_set))
    }
}

impl ListQuery {
    /// Answers the request with the items that were read: files and trees are listed in order, and
    /// all else is left out. It fails where an item cannot be read.
    pub fn finish(self, items: &Vec<ItemRead>) -> (destination: Result<PathDestination, GitError>)
        ensures
            (match destination {
                Ok(value) => listing(path_view(self.path), items@) == Ok::<_, GitError>(value@),
                Err(e) => listing(path_view(self.path), items@) == Err::<DestinationModel, _>(e),
            }),
            destination is Ok ==> items_are_lossless(items@),
    {
        let root: Vec<u8> = Vec::new();
        let base: &[u8] = match &self.path {
            Some(path) => path.as_slice(),
            None => root.as_slice(),
        };
        let ghost path = path_view(self.path);
        proof {
            assert(base@ =~= path_or_root(path));
        }
        let mut tree_items: Vec<TreeItem> = Vec::new();
        let mut i: usize = 0;
        proof {
            assert(items@.take(0) =~= seq![]);
            assert(tree_items@.map_values(|item: TreeItem| item@) =~= seq![]);
        }
        while i < items.len()
            invariant
                i <= items@.len(),
                base@ == path_or_root(path),
                path == path_view(self.path),
                forall|j: int|
                    0 <= j < i ==> (#[trigger] items@[j]).object != ItemObject::Missing
                        && lossless(items@[j].name@, utf8_lossy(items@[j].name@)),
                tree_items@.map_values(|item: TreeItem| item@) == listed_items(
                    path,
                    items@.take(i as int),
                ),
            decreases items@.len() - i,
        {
            let item = &items[i];
            let name = from_utf8_lossy(item.name.as_slice());
            let whole = join(base, name.as_str().as_bytes());
            let ghost before = tree_items@.map_values(|item: TreeItem| item@);
            match item.object {
                ItemObject::Missing => {
                    proof {
                        assert(!all_objects(items@));
                    }
                    return Err(GitError::ItemNotObject);
                },
                ItemObject::Blob(size) => {
                    tree_items.push(
                        TreeItem::File(File { mode: item.mode, size, name, path: whole }),
                    );
                },
                ItemObject::Tree => {
                    tree_items.push(TreeItem::Tree(Tree { mode: item.mode, name, path: whole }));
                },
                ItemObject::Other => {},
            }
            proof {
                assert(items@.take(i + 1).drop_last() =~= items@.take(i as int));
                match listed_item(path, *item) {
                    Some(shown) => {
                        assert(tree_items@.map_values(|item: TreeItem| item@) =~= before.push(
                            shown,
                        ));
                    },
                    None => {},
                }
            }
            i = i + 1;
        }
        proof {
            assert(items@.take(i as int) =~= items@);
        }
        Ok(PathDestination::Tree(tree_items))
    }
}

/// What is answered to a request for a path in all, from the hash and the branch on: the request's
/// steps, one after the other.
pub open spec fn destination_of(
    set: SyntaxSet,
    path: Option<Seq<u8>>,
    tree_id: Option<Seq<char>>,
    branch: Option<Seq<char>>,
    root_read: RootRead,
    entry_read: EntryRead,
    items: Seq<ItemRead>,
) -> Result<DestinationModel, GitError> {
    match root_of(tree_id, branch) {
        Err(e) => Err(e),
        Ok(root) => answer_of(set, path, root, root_read, entry_read, items),
    }
}

/// A request is answered with a file exactly where it starts from a tree that can be read, asks
/// for a path, finds a file there, and the syntax of the file can parse its lines. It is answered
/// with a tree exactly where it starts from a tree that can be read, asks for the root or finds a
/// tree at its path, and each item of that tree can be read.
pub proof fn destinations(
    set: SyntaxSet,
    path: Option<Seq<u8>>,
    tree_id: Option<Seq<char>>,
    branch: Option<Seq<char>>,
    root_read: RootRead,
    entry_read: EntryRead,
    items: Seq<ItemRead>,
)
    ensures
        ({
            let answer = destination_of(
                set,
                path,
                tree_id,
                branch,
                root_read,
                entry_read,
                items,
            );
            let rooted = root_read is Read && (tree_id matches Some(hash) ==> is_hex_id(hash));
            &&& (answer matches Ok(DestinationModel::File(..))) <==> rooted && path is Some && (
            entry_read matches EntryRead::Blob(blob) && file_html(
                set,
                blob_token(path->0, blob),
                blob.content@,
            ) is Ok)
            &&& (answer matches Ok(DestinationModel::Tree(_))) <==> rooted && (path is None
                || entry_read is Tree) && all_objects(items)
        }),
{
}

/// A hash that is not one is refused, whatever the repository holds.
pub proof fn bad_hash_is_refused(
    set: SyntaxSet,
    path: Option<Seq<u8>>,
    hash: Seq<char>,
    branch: Option<Seq<char>>,
    root_read: RootRead,
    entry_read: EntryRead,
    items: Seq<ItemRead>,
)
    requires
        !is_hex_id(hash),
    ensures
        destination_of(set, path, Some(hash), branch, root_read, entry_read, items) == Err::<
            DestinationModel,
            _,
        >(GitError::BadTreeHash),
{
}

/// Each file and each tree is listed, in the order in which they were read, and nothing else is:
/// what is listed is what the items are listed as, without those that are not.
pub proof fn listing_is_complete(path: Option<Seq<u8>>, items: Seq<ItemRead>)
    ensures
        listed_items(path, items) == items.map_values(
            |item: ItemRead| listed_item(path, item),
        ).filter(|shown: Option<TreeItemModel>| shown is Some).map_values(
            |shown: Option<TreeItemModel>| shown->0,
        ),
    decreases items.len(),
{
    reveal(Seq::filter);
    let shown = |item: ItemRead| listed_item(path, item);
    let is_shown = |model: Option<TreeItemModel>| model is Some;
    let inner = |model: Option<TreeItemModel>| model->0;
    let all = items.map_values(shown);
    if items.len() == 0 {
        assert(all.filter(is_shown).map_values(inner) =~= seq![]);
    } else {
        let front = items.drop_last();
        listing_is_complete(path, front);
        assert(all.drop_last() =~= front.map_values(shown));
        assert(all.last() == listed_item(path, items.last()));
        if listed_item(path, items.last()) is Some {
            assert(all.filter(is_shown) =~= all.drop_last().filter(is_shown).push(all.last()));
            assert(all.filter(is_shown).map_values(inner) =~= all.drop_last().filter(
                is_shown,
            ).map_values(inner).push(all.last()->0));
        } else {
            assert(all.filter(is_shown) =~= all.drop_last().filter(is_shown));
        }
    }
}

/// The path of an item whose name is UTF-8 is the path of its tree with the name joined to it.
pub proof fn utf8_item_path(path: Seq<u8>, name: Seq<u8>)
    requires
        valid_utf8(name),
        lossless(name, utf8_lossy(name)),
    ensures
        item_path(path, name) == joined(path, name),
{
    decode_utf8_encode_utf8(name);
}

/// A file whose name is UTF-8 and one component is highlighted by its name alone, wherever it is.
pub proof fn file_syntax_by_name(path: Seq<u8>, blob: BlobRead)
    requires
        valid_utf8(blob.name@),
        lossless(blob.name@, utf8_lossy(blob.name@)),
        is_component(blob.name@),
    ensures
        blob_token(path, blob) == syntax_token_of(blob.name@),
{
    utf8_item_path(path, blob.name@);
    joined_syntax_token(path, blob.name@);
}

/// Where a request starts: a hash decides alone, and is refused where it is not one; without a hash
/// a branch decides alone; without either it is HEAD.
pub proof fn roots(hash: Seq<char>, name: Seq<char>, branch: Option<Seq<char>>)
    ensures
        root_of(Some(hash), branch) is Ok <==> is_hex_id(hash),
        is_hex_id(hash) ==> root_of(Some(hash), branch)->Ok_0 == TreeRootModel::Id(id_bytes(hash)),
        !is_hex_id(hash) ==> root_of(Some(hash), branch)->Err_0 == GitError::BadTreeHash,
        root_of(None, Some(name)) == Ok::<_, GitError>(TreeRootModel::Branch(name)),
        root_of(None, None) == Ok::<_, GitError>(TreeRootModel::Head),
{
}

/// A request goes on exactly where the tree that it starts from was read. A tree with a hash fails
/// in one way; a branch and HEAD fail in one way where they do not exist, and in another where they
/// lead to no tree.
pub proof fn roots_that_fail(root: TreeRootModel, read: RootRead)
    ensures
        root_error(root, read) is None <==> read is Read,
        root is Id && read !is Read ==> root_error(root, read) == Some(GitError::TreeNotFound),
        root is Branch && read is NoReference ==> root_error(root, read) == Some(
            GitError::BranchNotFound,
        ),
        root is Branch && read is NoTree ==> root_error(root, read) == Some(
            GitError::NoTreeForBranch,
        ),
        root is Head && read is NoReference ==> root_error(root, read) == Some(
            GitError::HeadNotFound,
        ),
        root is Head && read is NoTree ==> root_error(root, read) == Some(GitError::NoTreeForHead),
{
}

/// A listing has one entry for each file and each tree that was read, whatever its name and its
/// mode, in the order in which they were read, and no other entry. The entry has the mode, the
/// decoded name, the path that the name makes behind that of the listing, and for a file its size.
/// There is a listing exactly where every item could be read.
pub proof fn listing_has_all_files_and_trees(path: Option<Seq<u8>>, items: Seq<ItemRead>)
    ensures
        listing(path, items) is Ok <==> forall|i: int|
            0 <= i < items.len() ==> (#[trigger] items[i]).object !is Missing,
        listing(path, items) matches Err(e) ==> e == GitError::ItemNotObject,
        listing(path, items) matches Ok(shown) ==> (shown matches DestinationModel::Tree(entries)
            && entries == items.filter(
            |item: ItemRead| item.object is Blob || item.object is Tree,
        ).map_values(
            |item: ItemRead|
                {
                    let base = match path {
                        Some(bytes) => bytes,
                        None => seq![],
                    };
                    let name = utf8_lossy(item.name@);
                    let whole = joined(base, encode_utf8(name));
                    match item.object {
                        ItemObject::Blob(size) => TreeItemModel::File(
                            FileModel { mode: item.mode, size, name, path: whole },
                        ),
                        _ => TreeItemModel::Tree(
                            TreeModel { mode: item.mode, name, path: whole },
                        ),
                    }
                },
        ) && entries.len() == items.filter(
            |item: ItemRead| item.object is Blob || item.object is Tree,
        ).len()),
{
    lemma_listed_items(path, items);
    assert(all_objects(items) <==> forall|i: int|
        0 <= i < items.len() ==> (#[trigger] items[i]).object !is Missing);
}

proof fn lemma_listed_items(path: Option<Seq<u8>>, items: Seq<ItemRead>)
    ensures
        listed_items(path, items) == items.filter(
            |item: ItemRead| item.object is Blob || item.object is Tree,
        ).map_values(
            |item: ItemRead|
                {
                    let base = match path {
                        Some(bytes) => bytes,
                        None => seq![],
                    };
                    let name = utf8_lossy(item.name@);
                    let whole = joined(base, encode_utf8(name));
                    match item.object {
                        ItemObject::Blob(size) => TreeItemModel::File(
                            FileModel { mode: item.mode, size, name, path: whole },
                        ),
                        _ => TreeItemModel::Tree(
                            TreeModel { mode: item.mode, name, path: whole },
                        ),
                    }
                },
        ),
    decreases items.len(),
{
    let is_listed = |item: ItemRead| item.object is Blob || item.object is Tree;
    let entry = |item: ItemRead|
        {
            let base = match path {
                Some(bytes) => bytes,
                None => seq![],
            };
            let name = utf8_lossy(item.name@);
            let whole = joined(base, encode_utf8(name));
            match item.object {
                ItemObject::Blob(size) => TreeItemModel::File(
                    FileModel { mode: item.mode, size, name, path: whole },
                ),
                _ => TreeItemModel::Tree(TreeModel { mode: item.mode, name, path: whole }),
            }
        };
    reveal(Seq::filter);
    if items.len() == 0 {
        assert(listed_items(path, items) =~= items.filter(is_listed).map_values(entry));
    } else {
        let front = items.drop_last();
        let last = items.last();
        lemma_listed_items(path, front);
        if is_listed(last) {
            assert(listed_item(path, last) == Some(entry(last)));
            assert(items.filter(is_listed) =~= front.filter(is_listed).push(last));
            assert(items.filter(is_listed).map_values(entry) =~= front.filter(
                is_listed,
            ).map_values(entry).push(entry(last)));
        } else {
            assert(listed_item(path, last) is None);
        }
    }
}

/// A listing by parts: the entries of items that stand behind others stand behind the entries of
/// those, and are what they are without them.
pub proof fn listing_of_parts(path: Option<Seq<u8>>, front: Seq<ItemRead>, back: Seq<ItemRead>)
    ensures
        listed_items(path, front + back) == listed_items(path, front) + listed_items(path, back),
    decreases back.len(),
{
    if back.len() == 0 {
        assert(front + back =~= front);
        assert(listed_items(path, front) + listed_items(path, back) =~= listed_items(path, front));
    } else {
        listing_of_parts(path, front, back.drop_last());
        assert((front + back).drop_last() =~= front + back.drop_last());
        assert(listed_items(path, front + back) =~= listed_items(path, front) + listed_items(
            path,
            back,
        ));
    }
}

/// What is at a path. A file is shown with its mode, its size, its decoded name, the path that the
/// name makes behind the path that was asked for, and its contents, highlighted by the syntax that
/// this path names; it fails only where these cannot be parsed. A tree is listed. All else fails.
pub proof fn what_is_at_a_path(set: SyntaxSet, path: Seq<u8>, read: EntryRead)
    ensures
        ({
            let step = entry_step(set, path, read);
            &&& read is NotInTree ==> step == Err::<EntryStepModel, _>(GitError::PathNotInTree)
            &&& read is NotObject ==> step == Err::<EntryStepModel, _>(GitError::EntryNotObject)
            &&& read is Other ==> step == Err::<EntryStepModel, _>(GitError::NotTreeOrBlob)
            &&& read is Tree ==> step == Ok::<_, GitError>(EntryStepModel::List)
            &&& read matches EntryRead::Blob(blob) ==> {
                let name = utf8_lossy(blob.name@);
                let whole = joined(path, encode_utf8(name));
                match file_html(set, syntax_token_of(whole), blob.content@) {
                    Err(e) => step == Err::<EntryStepModel, _>(e),
                    Ok(html) => step matches Ok(
                        EntryStepModel::Done(DestinationModel::File(file, shown)),
                    ) && {
                        &&& shown == html
                        &&& file.mode == blob.mode
                        &&& file.size == blob.size
                        &&& file.name == name
                        &&& file.path == whole
                    },
                }
            }
        }),
        can_show(set, path, read) <==> (read matches EntryRead::Blob(blob) ==> can_highlight(
            set,
            syntax_token_of(joined(path, encode_utf8(utf8_lossy(blob.name@)))),
        )),
        highlighting_ends(set) ==> showing_ends(set, read),
{
}

/// What counts for an answer. Where the tree to start from was not read, nothing else does. The
/// root is listed whatever was read of an entry. At a path a tree is listed with that path, and a
/// file is shown whatever items were read.
pub proof fn what_counts_for_an_answer(
    set: SyntaxSet,
    path: Seq<u8>,
    root: TreeRootModel,
    entry_read: EntryRead,
    items: Seq<ItemRead>,
)
    ensures
        answer_of(set, None, root, RootRead::Read, entry_read, items) == listing(None, items),
        entry_read is Tree ==> answer_of(
            set,
            Some(path),
            root,
            RootRead::Read,
            entry_read,
            items,
        ) == listing(Some(path), items),
        entry_read !is Tree ==> (match entry_step(set, path, entry_read) {
            Ok(EntryStepModel::Done(shown)) => answer_of(
                set,
                Some(path),
                root,
                RootRead::Read,
                entry_read,
                items,
            ) == Ok::<_, GitError>(shown),
            Ok(EntryStepModel::List) => false,
            Err(e) => answer_of(set, Some(path), root, RootRead::Read, entry_read, items) == Err::<
                DestinationModel,
                _,
            >(e),
        }),
        forall|asked: Option<Seq<u8>>, read: RootRead|
            read !is Read ==> #[trigger] answer_of(set, asked, root, read, entry_read, items)
                == Err::<DestinationModel, _>(root_error(root, read)->0),
{
}

/// What files, trees and destinations say is what their fields hold.
pub proof fn destinations_say_their_fields(file: File, tree: Tree, shown: FileWithContent)
    ensures
        file@.mode == file.mode && file@.size == file.size,
        file@.name == file.name@ && file@.path == file.path@,
        tree@.mode == tree.mode && tree@.name == tree.name@ && tree@.path == tree.path@,
        TreeItem::File(file)@ == TreeItemModel::File(file@),
        TreeItem::Tree(tree)@ == TreeItemModel::Tree(tree@),
        PathDestination::File(shown)@ == DestinationModel::File(
            shown.metadata@,
            shown.content@,
        ),
{
}

/// What a listing and a root say is what they hold, one entry for each.
pub proof fn listings_say_their_items(items: Vec<TreeItem>, root: TreeRoot, path: Option<Vec<u8>>)
    ensures
        PathDestination::Tree(items)@ matches DestinationModel::Tree(entries) && entries.len()
            == items@.len() && (forall|i: int|
            0 <= i < items@.len() ==> #[trigger] entries[i] == items@[i]@),
        root matches TreeRoot::Id(id) ==> root@ == TreeRootModel::Id(id@),
        root matches TreeRoot::Branch(name) ==> root@ == TreeRootModel::Branch(name@),
        root is Head ==> root@ is Head,
        path matches Some(bytes) ==> path_view(path) == Some(bytes@),
        path is None ==> path_view(path) is None,
{
}

} // verus!
