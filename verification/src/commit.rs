//! Commits and the people who make them.
use vstd::prelude::*;
use bytes::Bytes;
use syntect::parsing::SyntaxSet;
use time::OffsetDateTime;

use crate::diff::{fetch_diff_and_stats, DiffRead};
use crate::error::GitError;
use crate::oid::{format_id, ObjectId};
use crate::text::from_utf8_lossy;

verus! {

use crate::diff::{bytes_contents, can_render, diff_is_lossless, rendered_diff, rendering_ends};
use crate::oid::{formatted_id_parses, hex_of, id_bytes, is_hex_id};
use crate::text::{lossless, utf8_lossy};

/// A date and time with an offset, of time.
#[verifier::external_type_specification]
#[verifier::external_body]
pub struct ExOffsetDateTime(OffsetDateTime);

/// The error of time for a value out of range.
#[verifier::external_type_specification]
#[verifier::external_body]
pub struct ExComponentRange(time::error::ComponentRange);

/// The first second of the year -9999, counted from the start of 1970.
pub const MIN_SECONDS: i64 = -377705116800;

/// The last second of the year 9999, counted from the start of 1970.
pub const MAX_SECONDS: i64 = 253402300799;

/// The date and time in UTC that lies a number of seconds from the start of 1970.
pub uninterp spec fn utc_datetime(seconds: i64) -> OffsetDateTime;

/// Specifies [`OffsetDateTime::from_unix_timestamp`]: it succeeds exactly for the seconds of the
/// years -9999 to 9999, which are all the years there are without the feature `large-dates` of
/// time. The result is a function of the seconds, named [`utc_datetime`].
pub assume_specification[ OffsetDateTime::from_unix_timestamp ](timestamp: i64) -> (datetime:
    Result<OffsetDateTime, time::error::ComponentRange>)
    ensures
        datetime is Ok <==> MIN_SECONDS <= timestamp <= MAX_SECONDS,
        datetime matches Ok(value) ==> value == utc_datetime(timestamp),
;

/// What is read of the signature of a commit or a tag.
#[derive(Debug)]
pub struct RawSignature {
    /// The name.
    pub name: Vec<u8>,
    /// The address.
    pub email: Vec<u8>,
    /// The time, in seconds from the start of 1970.
    pub seconds: i64,
}

/// Who made a commit or a tag, and when.
#[derive(Debug)]
pub struct CommitUser {
    name: String,
    email: String,
    time: OffsetDateTime,
}

/// What a [`CommitUser`] says.
pub struct CommitUserModel {
    /// The name.
    pub name: Seq<char>,
    /// The address.
    pub email: Seq<char>,
    /// The time.
    pub time: OffsetDateTime,
}

impl View for CommitUser {
    type V = CommitUserModel;

    closed spec fn view(&self) -> CommitUserModel {
        CommitUserModel { name: self.name@, email: self.email@, time: self.time }
    }
}

/// Whether the texts of a user are those of a signature, where these are UTF-8.
pub open spec fn user_is_lossless(signature: RawSignature, user: CommitUserModel) -> bool {
    lossless(signature.name@, user.name) && lossless(signature.email@, user.email)
}

/// What a signature says: its texts, with what is not UTF-8 replaced, and its time in UTC.
pub open spec fn user_of(signature: RawSignature) -> Result<CommitUserModel, GitError> {
    if MIN_SECONDS <= signature.seconds <= MAX_SECONDS {
        Ok(
            CommitUserModel {
                name: utf8_lossy(signature.name@),
                email: utf8_lossy(signature.email@),
                time: utc_datetime(signature.seconds),
            },
        )
    } else {
        Err(GitError::TimeOutOfRange)
    }
}

impl CommitUser {
    /// Reads a signature. It fails where the time is outside the years -9999 to 9999.
    pub fn try_from(signature: &RawSignature) -> (user: Result<CommitUser, GitError>)
        ensures
            (match user {
                Ok(value) => user_of(*signature) == Ok::<_, GitError>(value@),
                Err(e) => user_of(*signature) == Err::<CommitUserModel, _>(e),
            }),
            user matches Ok(value) ==> user_is_lossless(*signature, value@),
            user matches Ok(value) ==> value@.time == utc_datetime(signature.seconds),
    {
        match OffsetDateTime::from_unix_timestamp(signature.seconds) {
            Ok(time) => Ok(
                CommitUser {
                    name: from_utf8_lossy(signature.name.as_slice()),
                    email: from_utf8_lossy(signature.email.as_slice()),
                    time,
                },
            ),
            Err(_) => Err(GitError::TimeOutOfRange),
        }
    }

    /// The name.
    pub fn name(&self) -> (name: &str)
        ensures
            name@ == self@.name,
    {
        self.name.as_str()
    }

    /// The address.
    pub fn email(&self) -> (email: &str)
        ensures
            email@ == self@.email,
    {
        self.email.as_str()
    }

    /// The time.
    pub fn time(&self) -> (time: OffsetDateTime)
        ensures
            time == self@.time,
    {
        self.time
    }
}

/// What is read of a commit.
#[derive(Debug)]
pub struct RawCommit {
    /// Who wrote the change.
    pub author: RawSignature,
    /// Who made the commit.
    pub committer: RawSignature,
    /// The id of the commit.
    pub id: ObjectId,
    /// The id of its tree.
    pub tree_id: ObjectId,
    /// The ids of its parents, in order.
    pub parent_ids: Vec<ObjectId>,
    /// The first paragraph of the message, if there is one.
    pub summary: Option<Vec<u8>>,
    /// The rest of the message, if there is one.
    pub body: Option<Vec<u8>>,
}

/// A commit, with its diff to its first parent.
#[derive(Debug)]
pub struct Commit {
    /// Who wrote the change.
    pub author: CommitUser,
    /// Who made the commit.
    pub committer: CommitUser,
    /// The digits of its id.
    pub oid: String,
    /// The digits of the id of its tree.
    pub tree: String,
    /// The digits of the ids of its parents, in order.
    pub parents: Vec<String>,
    /// The first paragraph of the message.
    pub summary: String,
    /// The rest of the message.
    pub body: String,
    /// The summary of the changes of each file.
    pub diff_stats: String,
    /// The diff as HTML.
    pub diff: String,
    /// The diff as an email.
    pub diff_plain: Bytes,
}

/// A branch and the commit that it names.
#[derive(Debug)]
pub struct Branch {
    /// The name.
    pub name: String,
    /// The commit.
    pub commit: Commit,
}

/// Another repository that this one knows.
#[derive(Debug)]
pub struct Remote {
    /// The name.
    pub name: String,
}

/// What a [`Commit`] says.
pub struct CommitModel {
    /// Who wrote the change.
    pub author: CommitUserModel,
    /// Who made the commit.
    pub committer: CommitUserModel,
    /// The digits of its id.
    pub oid: Seq<char>,
    /// The digits of the id of its tree.
    pub tree: Seq<char>,
    /// The digits of the ids of its parents.
    pub parents: Seq<Seq<char>>,
    /// The first paragraph of the message.
    pub summary: Seq<char>,
    /// The rest of the message.
    pub body: Seq<char>,
    /// The summary of the changes of each file.
    pub diff_stats: Seq<char>,
    /// The diff as HTML.
    pub diff: Seq<char>,
    /// The diff as an email.
    pub diff_plain: Seq<u8>,
}

impl View for Commit {
    type V = CommitModel;

    open spec fn view(&self) -> CommitModel {
        CommitModel {
            author: self.author@,
            committer: self.committer@,
            oid: self.oid@,
            tree: self.tree@,
            parents: self.parents@.map_values(|parent: String| parent@),
            summary: self.summary@,
            body: self.body@,
            diff_stats: self.diff_stats@,
            diff: self.diff@,
            diff_plain: bytes_contents(self.diff_plain),
        }
    }
}

/// The text of bytes that may be missing: with what is not UTF-8 replaced, or empty.
pub open spec fn lossy_or_empty(bytes: Option<Vec<u8>>) -> Seq<char> {
    match bytes {
        Some(found) => utf8_lossy(found@),
        None => ""@,
    }
}

/// What a commit says, without a diff.
pub open spec fn commit_of(raw: RawCommit) -> Result<CommitModel, GitError> {
    match (user_of(raw.author), user_of(raw.committer)) {
        (Ok(author), Ok(committer)) => Ok(
            CommitModel {
                author,
                committer,
                oid: hex_of(raw.id@),
                tree: hex_of(raw.tree_id@),
                parents: raw.parent_ids@.map_values(|id: ObjectId| hex_of(id@)),
                summary: lossy_or_empty(raw.summary),
                body: lossy_or_empty(raw.body),
                diff_stats: seq![],
                diff: seq![],
                diff_plain: seq![],
            },
        ),
        (Err(e), _) => Err(e),
        (_, Err(e)) => Err(e),
    }
}

/// Whether the texts of a commit are what was read, where that is UTF-8.
pub open spec fn commit_is_lossless(raw: RawCommit, commit: CommitModel) -> bool {
    &&& user_is_lossless(raw.author, commit.author)
    &&& user_is_lossless(raw.committer, commit.committer)
    &&& raw.summary matches Some(bytes) ==> lossless(bytes@, commit.summary)
    &&& raw.body matches Some(bytes) ==> lossless(bytes@, commit.body)
}

/// What a commit says with its diff; where both fail, the diff is what is reported.
pub open spec fn commit_with_diff(set: SyntaxSet, raw: RawCommit, read: DiffRead) -> Result<
    CommitModel,
    GitError,
> {
    match rendered_diff(set, read) {
        Err(e) => Err(e),
        Ok((plain, output, stats)) => match commit_of(raw) {
            Err(e) => Err(e),
            Ok(commit) => Ok(
                CommitModel { diff_stats: stats, diff: output, diff_plain: plain, ..commit },
            ),
        },
    }
}

/// The text of bytes that may be missing.
pub(crate) fn lossy_text(bytes: &Option<Vec<u8>>) -> (text: String)
    ensures
        text@ == lossy_or_empty(*bytes),
        bytes matches Some(found) ==> lossless(found@, text@),
{
    match bytes {
        Some(found) => from_utf8_lossy(found.as_slice()),
        None => "".to_owned(),
    }
}

impl Commit {
    /// Reads a commit, with an empty diff. It fails where the time of either signature is outside
    /// the years -9999 to 9999.
    pub fn try_from(raw: &RawCommit) -> (commit: Result<Commit, GitError>)
        ensures
            (match commit {
                Ok(value) => commit_of(*raw) == Ok::<_, GitError>(value@),
                Err(e) => commit_of(*raw) == Err::<CommitModel, _>(e),
            }),
            commit matches Ok(value) ==> commit_is_lossless(*raw, value@),
            commit matches Ok(value) ==> value@.author.time == utc_datetime(raw.author.seconds)
                && value@.committer.time == utc_datetime(raw.committer.seconds),
    {
        let author = match CommitUser::try_from(&raw.author) {
            Ok(user) => user,
            Err(e) => return Err(e),
        };
        let committer = match CommitUser::try_from(&raw.committer) {
            Ok(user) => user,
            Err(e) => return Err(e),
        };
        let mut parents: Vec<String> = Vec::new();
        let mut i: usize = 0;
        while i < raw.parent_ids.len()
            invariant
                i <= raw.parent_ids@.len(),
                parents@.len() == i,
                forall|j: int| 0 <= j < i ==> #[trigger] parents@[j]@ == hex_of(raw.parent_ids@[j]@),
            decreases raw.parent_ids@.len() - i,
        {
            parents.push(format_id(&raw.parent_ids[i]));
            i = i + 1;
        }
        let commit = Commit {
            author,
            committer,
            oid: format_id(&raw.id),
            tree: format_id(&raw.tree_id),
            parents,
            summary: lossy_text(&raw.summary),
            body: lossy_text(&raw.body),
            diff_stats: String::new(),
            diff: String::new(),
            diff_plain: Bytes::new(),
        };
        proof {
            assert(commit@.parents =~= raw.parent_ids@.map_values(|id: ObjectId| hex_of(id@)));
        }
        Ok(commit)
    }

    /// Reads a commit and its diff to its first parent.
    pub fn with_diff(raw: &RawCommit, read: &DiffRead, syntax_set: &SyntaxSet) -> (commit: Result<
        Commit,
        GitError,
    >)
        requires
            can_render(*syntax_set, *read),
            rendering_ends(*syntax_set, *read),
        ensures
            (match commit {
                Ok(value) => commit_with_diff(*syntax_set, *raw, *read) == Ok::<_, GitError>(
                    value@,
                ),
                Err(e) => commit_with_diff(*syntax_set, *raw, *read) == Err::<CommitModel, _>(e),
            }),
            commit matches Ok(value) ==> commit_is_lossless(*raw, value@),
            commit matches Ok(value) ==> value@.author.time == utc_datetime(raw.author.seconds)
                && value@.committer.time == utc_datetime(raw.committer.seconds),
            diff_is_lossless(*read),
    {
        let (diff_plain, diff_output, diff_stats) = match fetch_diff_and_stats(read, syntax_set) {
            Ok(rendered) => rendered,
            Err(e) => return Err(e),
        };
        let mut commit = match Commit::try_from(raw) {
            Ok(commit) => commit,
            Err(e) => return Err(e),
        };
        commit.diff_stats = diff_stats;
        commit.diff = diff_output;
        commit.diff_plain = diff_plain;
        Ok(commit)
    }

    /// Who wrote the change.
    pub fn author(&self) -> (author: &CommitUser)
        ensures
            author@ == self@.author,
    {
        &self.author
    }

    /// Who made the commit.
    pub fn committer(&self) -> (committer: &CommitUser)
        ensures
            committer@ == self@.committer,
    {
        &self.committer
    }

    /// The digits of its id.
    pub fn oid(&self) -> (oid: &str)
        ensures
            oid@ == self@.oid,
    {
        self.oid.as_str()
    }

    /// The digits of the id of its tree.
    pub fn tree(&self) -> (tree: &str)
        ensures
            tree@ == self@.tree,
    {
        self.tree.as_str()
    }

    /// The digits of the ids of its parents, in order.
    pub fn parents(&self) -> (parents: Vec<&str>)
        ensures
            parents@.map_values(|parent: &str| parent@) == self@.parents,
    {
        let mut parents: Vec<&str> = Vec::new();
        let mut i: usize = 0;
        while i < self.parents.len()
            invariant
                i <= self.parents@.len(),
                parents@.len() == i,
                forall|j: int| 0 <= j < i ==> #[trigger] parents@[j]@ == self.parents@[j]@,
            decreases self.parents@.len() - i,
        {
            parents.push(self.parents[i].as_str());
            i = i + 1;
        }
        proof {
            assert(parents@.map_values(|parent: &str| parent@) =~= self@.parents);
        }
        parents
    }

    /// The first paragraph of the message.
    pub fn summary(&self) -> (summary: &str)
        ensures
            summary@ == self@.summary,
    {
        self.summary.as_str()
    }

    /// The rest of the message.
    pub fn body(&self) -> (body: &str)
        ensures
            body@ == self@.body,
    {
        self.body.as_str()
    }
}

/// The digits that a commit shows of its own id, of its tree and of its parents name just these
/// objects.
pub proof fn commit_ids_parse(raw: RawCommit)
    requires
        commit_of(raw) is Ok,
    ensures
        is_hex_id(commit_of(raw)->Ok_0.oid),
        id_bytes(commit_of(raw)->Ok_0.oid) == raw.id@,
        is_hex_id(commit_of(raw)->Ok_0.tree),
        id_bytes(commit_of(raw)->Ok_0.tree) == raw.tree_id@,
        commit_of(raw)->Ok_0.parents.len() == raw.parent_ids@.len(),
        forall|i: int|
            #![trigger commit_of(raw)->Ok_0.parents[i]]
            0 <= i < raw.parent_ids@.len() ==> is_hex_id(commit_of(raw)->Ok_0.parents[i])
                && id_bytes(commit_of(raw)->Ok_0.parents[i]) == raw.parent_ids@[i]@,
{
    formatted_id_parses(raw.id@);
    formatted_id_parses(raw.tree_id@);
    assert forall|i: int|
        #![trigger commit_of(raw)->Ok_0.parents[i]]
        0 <= i < raw.parent_ids@.len() implies is_hex_id(commit_of(raw)->Ok_0.parents[i])
        && id_bytes(commit_of(raw)->Ok_0.parents[i]) == raw.parent_ids@[i]@ by {
        formatted_id_parses(raw.parent_ids@[i]@);
    }
}

/// The diff of a commit changes nothing else of it, and a commit without times out of range is
/// shown whenever its diff was read.
pub proof fn diff_leaves_commit(set: SyntaxSet, raw: RawCommit, diff: crate::diff::RawDiff)
    ensures
        commit_with_diff(set, raw, DiffRead::Read(diff)) is Ok <==> commit_of(raw) is Ok,
        commit_of(raw) matches Ok(plain) ==> commit_with_diff(set, raw, DiffRead::Read(diff)) == Ok::<
            _,
            GitError,
        >(
            CommitModel {
                diff_stats: crate::diff::text_or_empty(diff.stats@),
                diff: crate::diff::diff_html(set, diff.lines@),
                diff_plain: diff.email@,
                ..plain
            },
        ),
{
}

/// A user is who a signature names, at the time that this signature gives: a signature is shown
/// exactly where its time is in the years -9999 to 9999, and name, address and time are each its
/// own.
pub proof fn user_is_of_the_signature(signature: RawSignature)
    ensures
        user_of(signature) is Ok <==> -377705116800 <= signature.seconds <= 253402300799,
        user_of(signature) matches Ok(user) ==> {
            &&& user.name == utf8_lossy(signature.name@)
            &&& user.email == utf8_lossy(signature.email@)
            &&& user.time == utc_datetime(signature.seconds)
        },
        user_of(signature) matches Err(e) ==> e == GitError::TimeOutOfRange,
{
}

/// A commit shows what was read of it, each part in its own place. The author has the name, the
/// address and the time of the author's signature, and the committer those of the committer's. The
/// ids are those of the commit, of its tree, and of its parents in order. The message is cut as it
/// was read, and a part that is missing is empty. It is shown exactly where both times are in the
/// years -9999 to 9999.
pub proof fn commit_shows_what_was_read(raw: RawCommit)
    ensures
        commit_of(raw) is Ok <==> -377705116800 <= raw.author.seconds <= 253402300799
            && -377705116800 <= raw.committer.seconds <= 253402300799,
        commit_of(raw) matches Err(e) ==> e == GitError::TimeOutOfRange,
        commit_of(raw) matches Ok(commit) ==> {
            &&& commit.author.name == utf8_lossy(raw.author.name@)
            &&& commit.author.email == utf8_lossy(raw.author.email@)
            &&& commit.author.time == utc_datetime(raw.author.seconds)
            &&& commit.committer.name == utf8_lossy(raw.committer.name@)
            &&& commit.committer.email == utf8_lossy(raw.committer.email@)
            &&& commit.committer.time == utc_datetime(raw.committer.seconds)
            &&& commit.oid == hex_of(raw.id@)
            &&& commit.tree == hex_of(raw.tree_id@)
            &&& commit.parents.len() == raw.parent_ids@.len()
            &&& forall|i: int|
                0 <= i < raw.parent_ids@.len() ==> #[trigger] commit.parents[i] == hex_of(
                    raw.parent_ids@[i]@,
                )
            &&& raw.summary matches Some(bytes) ==> commit.summary == utf8_lossy(bytes@)
            &&& raw.summary is None ==> commit.summary.len() == 0
            &&& raw.body matches Some(bytes) ==> commit.body == utf8_lossy(bytes@)
            &&& raw.body is None ==> commit.body.len() == 0
            &&& commit.diff_stats.len() == 0
            &&& commit.diff.len() == 0
            &&& commit.diff_plain.len() == 0
        },
{
    reveal_strlit("");
}

/// Author and committer are shown apart from each other: of two commits with the same signature of
/// the author the same author is shown, whoever committed them, and of two with the same signature
/// of the committer the same committer.
pub proof fn author_and_committer_are_apart(a: RawCommit, b: RawCommit)
    requires
        commit_of(a) is Ok,
        commit_of(b) is Ok,
    ensures
        a.author == b.author ==> commit_of(a)->Ok_0.author == commit_of(b)->Ok_0.author,
        a.committer == b.committer ==> commit_of(a)->Ok_0.committer == commit_of(b)->Ok_0.committer,
        a.author.seconds == b.committer.seconds ==> commit_of(a)->Ok_0.author.time == commit_of(
            b,
        )->Ok_0.committer.time,
{
}

/// Where the diff cannot be shown, that is what is reported of the commit, whatever else is wrong
/// with it; where it can, the commit fails just as it does without its diff, and shows what the
/// diff gives and otherwise just what it shows without.
pub proof fn diff_fails_first(set: SyntaxSet, raw: RawCommit, read: DiffRead)
    ensures
        rendered_diff(set, read) matches Err(e) ==> commit_with_diff(set, raw, read) == Err::<
            CommitModel,
            _,
        >(e),
        read is Read ==> (commit_of(raw) matches Err(e) ==> commit_with_diff(set, raw, read)
            == Err::<CommitModel, _>(e)),
        read !is Read ==> commit_with_diff(set, raw, read) is Err,
        commit_with_diff(set, raw, read) matches Ok(commit) ==> (rendered_diff(set, read)
            matches Ok((plain, output, stats)) && commit_of(raw) matches Ok(bare) && {
            &&& commit.diff_plain == plain
            &&& commit.diff == output
            &&& commit.diff_stats == stats
            &&& commit.author == bare.author
            &&& commit.committer == bare.committer
            &&& commit.oid == bare.oid
            &&& commit.tree == bare.tree
            &&& commit.parents == bare.parents
            &&& commit.summary == bare.summary
            &&& commit.body == bare.body
        }),
{
}

/// What a commit says is what its fields hold.
pub proof fn commit_says_its_fields(commit: Commit)
    ensures
        commit@.author == commit.author@,
        commit@.committer == commit.committer@,
        commit@.oid == commit.oid@,
        commit@.tree == commit.tree@,
        commit@.parents.len() == commit.parents@.len(),
        forall|i: int|
            0 <= i < commit.parents@.len() ==> #[trigger] commit@.parents[i]
                == commit.parents@[i]@,
        commit@.summary == commit.summary@,
        commit@.body == commit.body@,
        commit@.diff_stats == commit.diff_stats@,
        commit@.diff == commit.diff@,
        commit@.diff_plain == bytes_contents(commit.diff_plain),
{
}

} // verus!
