//! What can go wrong when a repository is read.
use vstd::prelude::*;

verus! {

/// Why a request for something in a repository is not answered.
#[derive(Clone, Copy, Debug, PartialEq, Eq, Structural)]
pub enum GitError {
    /// The hash of a tree is not one.
    BadTreeHash,
    /// No tree has the hash.
    TreeNotFound,
    /// No branch has the name.
    BranchNotFound,
    /// The branch leads to no tree.
    NoTreeForBranch,
    /// The repository has no HEAD that a path could start from.
    HeadNotFound,
    /// HEAD leads to no tree.
    NoTreeForHead,
    /// The tree has nothing at the path.
    PathNotInTree,
    /// What the tree has at the path cannot be read.
    EntryNotObject,
    /// The syntax of a file cannot parse one of its lines.
    LineNotParsed,
    /// What the tree has at the path is neither a file nor a tree.
    NotTreeOrBlob,
    /// An item of a tree cannot be read.
    ItemNotObject,
    /// No tag has the name.
    ReferenceNotFound,
    /// The reference leads to no annotated tag.
    NotATag,
    /// The tag has no target.
    NoTaggedObject,
    /// A time is outside the years that can be shown.
    TimeOutOfRange,
    /// The repository has no HEAD.
    NoHead,
    /// HEAD leads to no commit whose readme could be shown.
    NoReadmeCommit,
    /// The commit of HEAD has no tree.
    NoHeadTree,
    /// HEAD leads to no commit.
    NoHeadCommit,
    /// The hash of a commit is not one.
    BadCommitHash,
    /// No commit has the hash.
    CommitNotFound,
    /// The commit has no tree.
    NoCommitTree,
    /// The trees of the commit and of its parent cannot be compared.
    DiffFailed,
    /// The diff cannot be written as an email.
    EmailFailed,
    /// The diff cannot be counted.
    StatsFailed,
    /// The lines of the diff cannot be read.
    DiffNotPrinted,
}

/// The sentence that a failure is reported with, if it has one of its own; the other failures are
/// reported with what Git says about them.
pub open spec fn message_of(error: GitError) -> Option<Seq<char>> {
    match error {
        GitError::BadTreeHash => Some("Failed to parse tree hash"@),
        GitError::TreeNotFound => Some("Couldn't find tree with given id"@),
        GitError::NoTreeForBranch => Some("Couldn't find tree for branch"@),
        GitError::NoTreeForHead => Some("Couldn't find tree from HEAD"@),
        GitError::PathNotInTree => Some("Path doesn't exist in tree"@),
        GitError::EntryNotObject => Some("Path in tree isn't an object"@),
        GitError::LineNotParsed => Some("Couldn't parse line of file"@),
        GitError::NotTreeOrBlob => Some("Given path not tree nor blob... what is it?!"@),
        GitError::ItemNotObject => Some("Expected item in tree to be object but it wasn't"@),
        GitError::ReferenceNotFound => Some("Given reference does not exist in repository"@),
        GitError::NotATag => Some("Couldn't get to a tag from the given reference"@),
        GitError::NoTaggedObject => Some("Couldn't find tagged object"@),
        GitError::NoHead => Some("Couldn't find HEAD of repository"@),
        GitError::NoReadmeCommit => Some(
            "Couldn't find the commit that the HEAD of the repository refers to"@,
        ),
        GitError::NoHeadTree => Some("Couldn't get the tree that the HEAD refers to"@),
        GitError::NoHeadCommit => Some("Couldn't find commit HEAD of repository refers to"@),
        GitError::NoCommitTree => Some("Couldn't get tree for the commit"@),
        GitError::EmailFailed => Some("Couldn't build diff for commit"@),
        GitError::DiffNotPrinted => Some("Failed to prepare diff"@),
        GitError::BranchNotFound | GitError::HeadNotFound | GitError::TimeOutOfRange
        | GitError::BadCommitHash | GitError::CommitNotFound | GitError::DiffFailed
        | GitError::StatsFailed => None,
    }
}

impl GitError {
    /// The sentence that the failure is reported with, if it has one of its own.
    pub fn message(&self) -> (message: Option<&'static str>)
        ensures
            (match message {
                Some(text) => message_of(*self) == Some(text@),
                None => message_of(*self) is None,
            }),
    {
        match self {
            GitError::BadTreeHash => Some("Failed to parse tree hash"),
            GitError::TreeNotFound => Some("Couldn't find tree with given id"),
            GitError::NoTreeForBranch => Some("Couldn't find tree for branch"),
            GitError::NoTreeForHead => Some("Couldn't find tree from HEAD"),
            GitError::PathNotInTree => Some("Path doesn't exist in tree"),
            GitError::EntryNotObject => Some("Path in tree isn't an object"),
            GitError::LineNotParsed => Some("Couldn't parse line of file"),
            GitError::NotTreeOrBlob => Some("Given path not tree nor blob... what is it?!"),
            GitError::ItemNotObject => Some("Expected item in tree to be object but it wasn't"),
            GitError::ReferenceNotFound => Some("Given reference does not exist in repository"),
            GitError::NotATag => Some("Couldn't get to a tag from the given reference"),
            GitError::NoTaggedObject => Some("Couldn't find tagged object"),
            GitError::NoHead => Some("Couldn't find HEAD of repository"),
            GitError::NoReadmeCommit => Some(
                "Couldn't find the commit that the HEAD of the repository refers to",
            ),
            GitError::NoHeadTree => Some("Couldn't get the tree that the HEAD refers to"),
            GitError::NoHeadCommit => Some("Couldn't find commit HEAD of repository refers to"),
            GitError::NoCommitTree => Some("Couldn't get tree for the commit"),
            GitError::EmailFailed => Some("Couldn't build diff for commit"),
            GitError::DiffNotPrinted => Some("Failed to prepare diff"),
            GitError::BranchNotFound | GitError::HeadNotFound | GitError::TimeOutOfRange
            | GitError::BadCommitHash | GitError::CommitNotFound | GitError::DiffFailed
            | GitError::StatsFailed => None,
        }
    }
}

} // verus!
