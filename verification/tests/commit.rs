use rgit::commit::{Commit, CommitUser, RawCommit, RawSignature, MAX_SECONDS, MIN_SECONDS};
use rgit::diff::{DiffLine, DiffLineKind, DiffRead, RawDiff};
use rgit::error::GitError;
use rgit::oid::parse_id;
use syntect::parsing::SyntaxSet;
use time::{OffsetDateTime, UtcOffset};

fn signature(name: &[u8], seconds: i64) -> RawSignature {
    RawSignature { name: name.to_vec(), email: b"a@example.org".to_vec(), seconds }
}

fn raw() -> RawCommit {
    RawCommit {
        author: signature(b"Ada", 1_600_000_000),
        committer: signature(b"Bob", 1_700_000_000),
        id: [0xab; 20],
        tree_id: [0x01; 20],
        parent_ids: vec![[0x02; 20], [0xf3; 20]],
        summary: Some(b"Fix \xff".to_vec()),
        body: None,
    }
}

fn diff() -> DiffRead {
    DiffRead::Read(RawDiff {
        email: b"email".to_vec(),
        stats: b"stats".to_vec(),
        lines: vec![DiffLine {
            kind: DiffLineKind::Deletion,
            content: b"a\n".to_vec(),
            new_path: Some(b"a.txt".to_vec()),
        }],
    })
}

#[test]
fn user_is_read() {
    let user = CommitUser::try_from(&signature(b"Ad\xe9", 1_546_300_800)).unwrap();
    assert_eq!(user.name(), "Ad\u{fffd}");
    assert_eq!(user.email(), "a@example.org");
    assert_eq!(user.time().unix_timestamp(), 1_546_300_800);
    assert_eq!(user.time().year(), 2019);
    assert_eq!(user.time().offset(), UtcOffset::UTC);
    assert_eq!(user.time(), OffsetDateTime::from_unix_timestamp(1_546_300_800).unwrap());
}

#[test]
fn name_in_utf8_is_kept() {
    let user = CommitUser::try_from(&signature("Ad\u{e9}l\u{4e2d}".as_bytes(), 0)).unwrap();
    assert_eq!(user.name(), "Ad\u{e9}l\u{4e2d}");
    assert_eq!(user.time(), OffsetDateTime::UNIX_EPOCH);
}

#[test]
fn times_end_with_the_year_9999() {
    let year = |seconds| CommitUser::try_from(&signature(b"", seconds)).map(|u| u.time().year());
    assert_eq!(year(MIN_SECONDS), Ok(-9999));
    assert_eq!(year(MAX_SECONDS), Ok(9999));
    assert_eq!(year(MIN_SECONDS - 1), Err(GitError::TimeOutOfRange));
    assert_eq!(year(MAX_SECONDS + 1), Err(GitError::TimeOutOfRange));
    assert_eq!(year(i64::MIN), Err(GitError::TimeOutOfRange));
    assert_eq!(year(i64::MAX), Err(GitError::TimeOutOfRange));
}

#[test]
fn commit_is_read_without_diff() {
    let commit = Commit::try_from(&raw()).unwrap();
    assert_eq!(commit.author().name(), "Ada");
    assert_eq!(commit.committer().name(), "Bob");
    assert_eq!(commit.committer().time().unix_timestamp(), 1_700_000_000);
    assert_eq!(commit.oid(), "ab".repeat(20));
    assert_eq!(commit.tree(), "01".repeat(20));
    assert_eq!(commit.parents(), vec!["02".repeat(20), "f3".repeat(20)]);
    assert_eq!(commit.summary(), "Fix \u{fffd}");
    assert_eq!(commit.body(), "");
    assert_eq!(commit.diff_stats, "");
    assert_eq!(commit.diff, "");
    assert!(commit.diff_plain.is_empty());
}

#[test]
fn body_is_read() {
    let commit = Commit::try_from(&RawCommit {
        summary: None,
        body: Some(b"two\nlines".to_vec()),
        ..raw()
    })
    .unwrap();
    assert_eq!(commit.summary(), "");
    assert_eq!(commit.body(), "two\nlines");
}

#[test]
fn root_commit_has_no_parents() {
    let commit = Commit::try_from(&RawCommit { parent_ids: vec![], ..raw() }).unwrap();
    assert!(commit.parents().is_empty());
}

#[test]
fn either_time_can_fail_a_commit() {
    let author = RawCommit { author: signature(b"", i64::MAX), ..raw() };
    assert_eq!(Commit::try_from(&author).unwrap_err(), GitError::TimeOutOfRange);
    let committer = RawCommit { committer: signature(b"", i64::MIN), ..raw() };
    assert_eq!(Commit::try_from(&committer).unwrap_err(), GitError::TimeOutOfRange);
}

#[test]
fn diff_is_added() {
    let set = SyntaxSet::load_defaults_newlines();
    let plain = Commit::try_from(&raw()).unwrap();
    let commit = Commit::with_diff(&raw(), &diff(), &set).unwrap();
    assert_eq!(commit.diff_stats, "stats");
    assert_eq!(&commit.diff_plain[..], b"email");
    assert_eq!(
        commit.diff,
        "<span class=\"diff-remove-line\"><span class=\"text plain\">a\n</span></span>"
    );
    assert_eq!(commit.oid(), plain.oid());
    assert_eq!(commit.tree(), plain.tree());
    assert_eq!(commit.parents(), plain.parents());
    assert_eq!(commit.summary(), plain.summary());
    assert_eq!(commit.author().name(), plain.author().name());
    assert_eq!(commit.committer().time(), plain.committer().time());
}

#[test]
fn diff_is_reported_before_times() {
    let set = SyntaxSet::load_defaults_newlines();
    let bad = RawCommit { author: signature(b"", i64::MAX), ..raw() };
    assert_eq!(
        Commit::with_diff(&bad, &DiffRead::NoEmail, &set).unwrap_err(),
        GitError::EmailFailed
    );
    assert_eq!(Commit::with_diff(&bad, &diff(), &set).unwrap_err(), GitError::TimeOutOfRange);
}

#[test]
fn shown_ids_are_read_back() {
    let commit = Commit::try_from(&raw()).unwrap();
    assert_eq!(parse_id(commit.oid(), GitError::BadCommitHash), Ok([0xab; 20]));
    assert_eq!(parse_id(commit.tree(), GitError::BadTreeHash), Ok([0x01; 20]));
    assert_eq!(parse_id(commit.parents()[1], GitError::BadCommitHash), Ok([0xf3; 20]));
}
