//! The repositories that are shown, and what is kept of them for a while.
use std::sync::Arc;

use vstd::prelude::*;
use moka::future::Cache;
use syntect::parsing::SyntaxSet;

use crate::commit::{Commit, RawCommit};
use crate::diff::{has_diff_syntaxes, DiffRead};
use crate::error::GitError;
use crate::highlight::plain_text_set;
use crate::oid::{parse_id, ObjectId};
use crate::paths::component_key;
use crate::readme::{HeadTreeRead, ReadmeFormat, ReadmeSearch};
use crate::tag::TagQuery;
use crate::tree::PathQuery;

verus! {

use crate::commit::{
    commit_ids_parse, commit_is_lossless, commit_of, commit_with_diff, utc_datetime, CommitModel,
};
use crate::diff::{can_render, diff_html, diff_is_lossless, rendering_ends};
use crate::highlight::{by_name, highlighting_ends, syntaxes};
use crate::oid::{full_digits, hex_of, id_bytes, is_hex_id, parsed_id_formats};
use crate::paths::{components_of, is_absolute, keys_go_by_components, path_key};
use crate::tag::tag_reference;
use crate::text::utf8_lossy;
use crate::tree::{root_of, TreeRootModel};

/// A cache, of moka.
#[verifier::external_type_specification]
#[verifier::external_body]
#[verifier::reject_recursive_types(K)]
#[verifier::reject_recursive_types(V)]
#[verifier::reject_recursive_types(S)]
pub struct ExCache<K, V, S>(Cache<K, V, S>);

/// The commits that are kept, by id.
pub type CommitCache = Cache<ObjectId, Arc<Commit>>;

/// The readmes that are kept, by the path of the repository.
pub type ReadmeCache = Cache<Vec<u8>, Option<(ReadmeFormat, Arc<str>)>>;

/// What a cache of commits holds: what each commit says, by the bytes of its id.
pub type CommitEntries = Map<Seq<u8>, CommitModel>;

/// What a cache of readmes holds: what is shown, by the key of the path.
pub type ReadmeEntries = Map<Seq<u8>, Option<(ReadmeFormat, Seq<char>)>>;

/// How long an entry is kept, in seconds.
pub const CACHE_SECONDS: u64 = 10;

/// How many entries are kept.
pub const CACHE_ENTRIES: u64 = 100;

/// The longest time that an entry can be kept, in seconds: 1000 years of 365 days.
pub const MAX_CACHE_SECONDS: u64 = 31536000000;

/// How many entries a cache of commits may keep, and for how many seconds.
pub uninterp spec fn commit_cache_limits(cache: CommitCache) -> (u64, u64);

/// How many entries a cache of readmes may keep, and for how many seconds.
pub uninterp spec fn readme_cache_limits(cache: ReadmeCache) -> (u64, u64);

/// What a cache of commits held when it was built. What it holds later is not named: that changes
/// through shared references, and with time.
pub uninterp spec fn commits_when_built(cache: CommitCache) -> CommitEntries;

/// What a cache of readmes held when it was built. What it holds later is not named: that changes
/// through shared references, and with time.
pub uninterp spec fn readmes_when_built(cache: ReadmeCache) -> ReadmeEntries;

/// Calls [`Cache::builder`], and on the builder `time_to_live`, `max_capacity` and `build`.
///
/// The limits of the cache are those that it was built with, and it was built with no entries. The
/// call panics where entries are to be kept longer than 1000 years.
#[verifier::external_body]
fn new_commit_cache(entries: u64, seconds: u64) -> (cache: CommitCache)
    requires
        seconds <= MAX_CACHE_SECONDS,
    ensures
        commit_cache_limits(cache) == (entries, seconds),
        commits_when_built(cache) == CommitEntries::empty(),
{
    Cache::builder().time_to_live(std::time::Duration::from_secs(seconds)).max_capacity(
        entries,
    ).build()
}

/// Calls [`Cache::builder`], and on the builder `time_to_live`, `max_capacity` and `build`.
///
/// The limits of the cache are those that it was built with, and it was built with no entries. The
/// call panics where entries are to be kept longer than 1000 years.
#[verifier::external_body]
fn new_readme_cache(entries: u64, seconds: u64) -> (cache: ReadmeCache)
    requires
        seconds <= MAX_CACHE_SECONDS,
    ensures
        readme_cache_limits(cache) == (entries, seconds),
        readmes_when_built(cache) == ReadmeEntries::empty(),
{
    Cache::builder().time_to_live(std::time::Duration::from_secs(seconds)).max_capacity(
        entries,
    ).build()
}

/// What is shared by all repositories.
pub struct Git {
    /// The commits that were shown lately.
    pub commits: CommitCache,
    /// The readmes that were shown lately.
    pub readme_cache: ReadmeCache,
    /// The syntaxes that code is highlighted by.
    pub syntax_set: SyntaxSet,
}

impl Git {
    /// Keeps up to 100 commits and up to 100 readmes, each for ten seconds, and none to start with.
    pub fn new(syntax_set: SyntaxSet) -> (git: Git)
        ensures
            git.syntax_set == syntax_set,
            commit_cache_limits(git.commits) == (100u64, 10u64),
            readme_cache_limits(git.readme_cache) == (100u64, 10u64),
            commits_when_built(git.commits) == CommitEntries::empty(),
            readmes_when_built(git.readme_cache) == ReadmeEntries::empty(),
    {
        Git {
            commits: new_commit_cache(CACHE_ENTRIES, CACHE_SECONDS),
            readme_cache: new_readme_cache(CACHE_ENTRIES, CACHE_SECONDS),
            syntax_set,
        }
    }

    /// As [`Git::new`] does, with plain text as the one syntax.
    pub fn plain_text() -> (git: Git)
        ensures
            syntaxes(git.syntax_set) == seq![("Plain Text"@, seq!["txt"@])],
            by_name(syntaxes(git.syntax_set), "Plain Text"@) is Some,
            highlighting_ends(git.syntax_set),
            commit_cache_limits(git.commits) == (100u64, 10u64),
            readme_cache_limits(git.readme_cache) == (100u64, 10u64),
            commits_when_built(git.commits) == CommitEntries::empty(),
            readmes_when_built(git.readme_cache) == ReadmeEntries::empty(),
    {
        Git::new(plain_text_set())
    }

    /// A repository that was opened, by its path. However the path is written, the readme is kept
    /// by its components.
    pub fn repo(self: Arc<Self>, repo_path: Vec<u8>) -> (repo: OpenRepository)
        ensures
            repo.git == self,
            repo.cache_key@ == path_key(repo_path@),
    {
        OpenRepository { git: self, cache_key: component_key(repo_path.as_slice()) }
    }
}

/// A repository that was opened.
pub struct OpenRepository {
    /// What is shared by all repositories.
    pub git: Arc<Git>,
    /// The path of the repository, written the shortest way, by which its readme is kept.
    pub cache_key: Vec<u8>,
}

/// What came of reading the commit of HEAD.
pub enum HeadCommitRead {
    /// The repository has no HEAD.
    NoHead,
    /// HEAD leads to no commit.
    NoCommit,
    /// The commit was read, and so was, or was not, its diff.
    Read(RawCommit, DiffRead),
}

/// What came of reading a commit by its id.
pub enum CommitRead {
    /// There is no such commit.
    NotFound,
    /// The commit was read, and so was, or was not, its diff.
    Read(RawCommit, DiffRead),
}

/// A request for a commit; the commit with the id is to be read.
pub struct CommitQuery {
    /// The id.
    pub id: ObjectId,
}

/// What is answered to a request for the commit of HEAD.
pub open spec fn latest_commit_of(set: SyntaxSet, read: HeadCommitRead) -> Result<
    CommitModel,
    GitError,
> {
    match read {
        HeadCommitRead::NoHead => Err(GitError::NoHead),
        HeadCommitRead::NoCommit => Err(GitError::NoHeadCommit),
        HeadCommitRead::Read(raw, diff) => commit_with_diff(set, raw, diff),
    }
}

/// What is answered to a request for a commit whose hash is one.
pub open spec fn found_commit_of(set: SyntaxSet, read: CommitRead) -> Result<
    CommitModel,
    GitError,
> {
    match read {
        CommitRead::NotFound => Err(GitError::CommitNotFound),
        CommitRead::Read(raw, diff) => commit_with_diff(set, raw, diff),
    }
}

impl OpenRepository {
    /// Asks for what is at a path of the tree with a hash, or else of a branch, or else of HEAD.
    pub fn path(
        &self,
        path: Option<Vec<u8>>,
        tree_id: Option<&str>,
        branch: Option<String>,
    ) -> (query: Result<PathQuery, GitError>)
        ensures
            ({
                let root = root_of(
                    match tree_id {
                        Some(hash) => Some(hash@),
                        None => None,
                    },
                    match branch {
                        Some(name) => Some(name@),
                        None => None,
                    },
                );
                match query {
                    Ok(value) => root == Ok::<_, GitError>(value.root@) && value.path == path,
                    Err(e) => root == Err::<TreeRootModel, _>(e),
                }
            }),
    {
        PathQuery::new(path, tree_id, branch)
    }

    /// Asks for a tag by its name.
    pub fn tag_info(&self, tag_name: &str) -> (query: TagQuery)
        ensures
            query.name@ == tag_name@,
            query.reference@ == tag_reference(tag_name@),
    {
        TagQuery::new(tag_name)
    }

    /// Asks for the readme, once the tree of HEAD was read.
    pub fn readme(&self, read: HeadTreeRead) -> (search: Result<ReadmeSearch, GitError>)
        ensures
            search is Ok <==> read is Read,
            search matches Ok(started) ==> started.wf() && started.at() == 0,
            search matches Err(e) ==> e == match read {
                HeadTreeRead::NoHead => GitError::NoHead,
                HeadTreeRead::NoCommit => GitError::NoReadmeCommit,
                _ => GitError::NoHeadTree,
            },
    {
        ReadmeSearch::start(read)
    }

    /// The commit of HEAD with its diff, once it was read.
    pub fn latest_commit(&self, read: &HeadCommitRead) -> (commit: Result<Commit, GitError>)
        requires
            read matches HeadCommitRead::Read(_, diff) ==> can_render(self.git.syntax_set, *diff)
                && rendering_ends(self.git.syntax_set, *diff),
        ensures
            (match commit {
                Ok(value) => latest_commit_of(self.git.syntax_set, *read) == Ok::<_, GitError>(
                    value@,
                ),
                Err(e) => latest_commit_of(self.git.syntax_set, *read) == Err::<CommitModel, _>(e),
            }),
            commit matches Ok(value) ==> (read matches HeadCommitRead::Read(raw, _)
                && commit_is_lossless(*raw, value@)),
            read matches HeadCommitRead::Read(_, diff) ==> diff_is_lossless(*diff),
    {
        match read {
            HeadCommitRead::NoHead => Err(GitError::NoHead),
            HeadCommitRead::NoCommit => Err(GitError::NoHeadCommit),
            HeadCommitRead::Read(raw, diff) => Commit::with_diff(raw, diff, &self.git.syntax_set),
        }
    }

    /// Answers as [`OpenRepository::latest_commit`] does, or gives nothing where
    /// the syntaxes lack one for a line of the diff.
    pub fn try_latest_commit(&self, read: &HeadCommitRead) -> (commit: Option<
        Result<Commit, GitError>,
    >)
        requires
            read matches HeadCommitRead::Read(_, diff) ==> rendering_ends(
                self.git.syntax_set,
                *diff,
            ),
        ensures
            commit is Some <==> (read matches HeadCommitRead::Read(_, diff) ==> can_render(
                self.git.syntax_set,
                *diff,
            )),
            commit is Some ==> (read matches HeadCommitRead::Read(_, diff) ==> diff_is_lossless(
                *diff,
            )),
            (match commit {
                Some(Ok(value)) => latest_commit_of(self.git.syntax_set, *read) == Ok::<
                    _,
                    GitError,
                >(value@) && (read matches HeadCommitRead::Read(raw, _) && commit_is_lossless(
                    *raw,
                    value@,
                )),
                Some(Err(e)) => latest_commit_of(self.git.syntax_set, *read) == Err::<
                    CommitModel,
                    _,
                >(e),
                None => true,
            }),
    {
        if let HeadCommitRead::Read(_, diff) = read {
            if !has_diff_syntaxes(diff, &self.git.syntax_set) {
                return None;
            }
        }
        Some(self.latest_commit(read))
    }

    /// Asks for a commit by its hash. It fails where the hash is not one.
    pub fn commit(&self, commit: &str) -> (query: Result<CommitQuery, GitError>)
        ensures
            query is Ok <==> is_hex_id(commit@),
            query matches Ok(value) ==> value.id@ == id_bytes(commit@),
            query matches Err(e) ==> e == GitError::BadCommitHash,
    {
        match parse_id(commit, GitError::BadCommitHash) {
            Ok(id) => Ok(CommitQuery { id }),
            Err(e) => Err(e),
        }
    }

    /// The commit that was asked for with its diff, once it was read.
    pub fn found_commit(&self, read: &CommitRead) -> (commit: Result<Commit, GitError>)
        requires
            read matches CommitRead::Read(_, diff) ==> can_render(self.git.syntax_set, *diff)
                && rendering_ends(self.git.syntax_set, *diff),
        ensures
            (match commit {
                Ok(value) => found_commit_of(self.git.syntax_set, *read) == Ok::<_, GitError>(
                    value@,
                ),
                Err(e) => found_commit_of(self.git.syntax_set, *read) == Err::<CommitModel, _>(e),
            }),
            commit matches Ok(value) ==> (read matches CommitRead::Read(raw, _)
                && commit_is_lossless(*raw, value@)),
            read matches CommitRead::Read(_, diff) ==> diff_is_lossless(*diff),
    {
        match read {
            CommitRead::NotFound => Err(GitError::CommitNotFound),
            CommitRead::Read(raw, diff) => Commit::with_diff(raw, diff, &self.git.syntax_set),
        }
    }

    /// Answers as [`OpenRepository::found_commit`] does, or gives nothing where
    /// the syntaxes lack one for a line of the diff.
    pub fn try_found_commit(&self, read: &CommitRead) -> (commit: Option<
        Result<Commit, GitError>,
    >)
        requires
            read matches CommitRead::Read(_, diff) ==> rendering_ends(self.git.syntax_set, *diff),
        ensures
            commit is Some <==> (read matches CommitRead::Read(_, diff) ==> can_render(
                self.git.syntax_set,
                *diff,
            )),
            commit is Some ==> (read matches CommitRead::Read(_, diff) ==> diff_is_lossless(*diff)),
            (match commit {
                Some(Ok(value)) => found_commit_of(self.git.syntax_set, *read) == Ok::<
                    _,
                    GitError,
                >(value@) && (read matches CommitRead::Read(raw, _) && commit_is_lossless(
                    *raw,
                    value@,
                )),
                Some(Err(e)) => found_commit_of(self.git.syntax_set, *read) == Err::<
                    CommitModel,
                    _,
                >(e),
                None => true,
            }),
    {
        if let CommitRead::Read(_, diff) = read {
            if !has_diff_syntaxes(diff, &self.git.syntax_set) {
                return None;
            }
        }
        Some(self.found_commit(read))
    }
}

/// Asking for a commit by the digits that a commit shows of its own id asks for that commit; asking
/// for a tree by the digits that it shows of its tree asks for that tree.
pub proof fn shown_ids_are_asked_for(raw: RawCommit, branch: Option<Seq<char>>)
    requires
        commit_of(raw) is Ok,
    ensures
        is_hex_id(commit_of(raw)->Ok_0.oid),
        id_bytes(commit_of(raw)->Ok_0.oid) == raw.id@,
        root_of(Some(commit_of(raw)->Ok_0.tree), branch) == Ok::<_, GitError>(
            TreeRootModel::Id(raw.tree_id@),
        ),
{
    commit_ids_parse(raw);
}

/// A commit that was asked for by a hash shows as its id the digits of the hash, in lower case and
/// filled up with zeros.
pub proof fn asked_for_id_is_shown(text: Seq<char>, raw: RawCommit)
    requires
        is_hex_id(text),
        raw.id@ == id_bytes(text),
        commit_of(raw) is Ok,
    ensures
        commit_of(raw)->Ok_0.oid == full_digits(text),
{
    parsed_id_formats(text);
}

/// The readmes of repositories at two paths are kept under the same key exactly where both or
/// neither of the paths start at the root and they have the same components.
pub proof fn readmes_are_kept_by_components(
    a: OpenRepository,
    b: OpenRepository,
    path_a: Seq<u8>,
    path_b: Seq<u8>,
)
    requires
        a.cache_key@ == path_key(path_a),
        b.cache_key@ == path_key(path_b),
    ensures
        a.cache_key@ == b.cache_key@ <==> is_absolute(path_a) == is_absolute(path_b)
            && components_of(path_a) == components_of(path_b),
{
    keys_go_by_components(path_a, path_b);
}

/// The commit of HEAD is answered just as it is when it is asked for by its hash.
pub proof fn latest_commit_as_found(set: SyntaxSet, raw: RawCommit, diff: DiffRead)
    ensures
        latest_commit_of(set, HeadCommitRead::Read(raw, diff)) == found_commit_of(
            set,
            CommitRead::Read(raw, diff),
        ),
{
}

/// What comes of reading a commit. Where it was not read, that is reported, and each way apart.
/// Where it was, it shows the id that was read, and author and committer at the times of their own
/// signatures, with the diff that was read of it.
pub proof fn commits_that_are_shown(set: SyntaxSet, raw: RawCommit, diff: DiffRead)
    ensures
        latest_commit_of(set, HeadCommitRead::NoHead) == Err::<CommitModel, _>(GitError::NoHead),
        latest_commit_of(set, HeadCommitRead::NoCommit) == Err::<CommitModel, _>(
            GitError::NoHeadCommit,
        ),
        found_commit_of(set, CommitRead::NotFound) == Err::<CommitModel, _>(
            GitError::CommitNotFound,
        ),
        ({
            let shown = found_commit_of(set, CommitRead::Read(raw, diff));
            &&& shown == latest_commit_of(set, HeadCommitRead::Read(raw, diff))
            &&& shown is Ok <==> diff is Read && -377705116800 <= raw.author.seconds
                <= 253402300799 && -377705116800 <= raw.committer.seconds <= 253402300799
            &&& shown matches Ok(commit) ==> {
                &&& commit.oid == hex_of(raw.id@)
                &&& commit.tree == hex_of(raw.tree_id@)
                &&& commit.author.time == utc_datetime(raw.author.seconds)
                &&& commit.committer.time == utc_datetime(raw.committer.seconds)
                &&& commit.author.name == utf8_lossy(raw.author.name@)
                &&& commit.committer.name == utf8_lossy(raw.committer.name@)
                &&& commit.diff == diff_html(set, diff->Read_0.lines@)
                &&& commit.diff_plain == diff->Read_0.email@
            }
        }),
{
}

} // verus!
