use std::sync::Arc;
use std::time::Duration;

use rgit::commit::{Commit, RawCommit, RawSignature};
use rgit::diff::{DiffLine, DiffLineKind, DiffRead, RawDiff};
use rgit::error::GitError;
use rgit::git::{CommitRead, Git, HeadCommitRead, OpenRepository};
use rgit::readme::HeadTreeRead;
use rgit::tree::TreeRoot;
use syntect::parsing::{SyntaxSet, SyntaxSetBuilder};

fn repository(set: SyntaxSet) -> OpenRepository {
    Arc::new(Git::new(set)).repo(b"/srv/git/a.git".to_vec())
}

fn signature() -> RawSignature {
    RawSignature { name: b"Ada".to_vec(), email: b"a@example.org".to_vec(), seconds: 0 }
}

fn raw() -> RawCommit {
    RawCommit {
        author: signature(),
        committer: signature(),
        id: [0x0f; 20],
        tree_id: [0xf0; 20],
        parent_ids: vec![],
        summary: Some(b"Start".to_vec()),
        body: None,
    }
}

fn diff() -> DiffRead {
    DiffRead::Read(RawDiff {
        email: b"email".to_vec(),
        stats: b"stats".to_vec(),
        lines: vec![DiffLine {
            kind: DiffLineKind::Addition,
            content: b"a\n".to_vec(),
            new_path: Some(b"a.txt".to_vec()),
        }],
    })
}

#[test]
fn caches_keep_to_their_limits() {
    let git = Git::new(SyntaxSet::load_defaults_newlines());
    let commits = git.commits.policy();
    assert_eq!(commits.max_capacity(), Some(100));
    assert_eq!(commits.time_to_live(), Some(Duration::from_secs(10)));
    let readmes = git.readme_cache.policy();
    assert_eq!(readmes.max_capacity(), Some(100));
    assert_eq!(readmes.time_to_live(), Some(Duration::from_secs(10)));
    assert!(git.syntax_set.find_syntax_by_extension("rs").is_some());
}

#[test]
fn caches_start_empty() {
    for git in [Git::new(SyntaxSet::load_defaults_newlines()), Git::plain_text()] {
        assert!(git.commits.iter().next().is_none());
        assert!(!git.commits.contains_key(&[0; 20]));
        assert!(git.readme_cache.iter().next().is_none());
        assert!(!git.readme_cache.contains_key(&b"/srv/git/a.git".to_vec()));
    }
}

#[test]
fn repository_is_kept_by_its_path() {
    let git = Arc::new(Git::new(SyntaxSet::load_defaults_newlines()));
    let repository = git.clone().repo(b"/srv/git/a.git".to_vec());
    assert!(Arc::ptr_eq(&repository.git, &git));
    assert_eq!(repository.cache_key, b"/srv/git/a.git");
    let same = git.clone().repo(b"/srv//git/./a.git/".to_vec());
    assert_eq!(same.cache_key, repository.cache_key);
    let other = git.repo(b"srv/git/a.git".to_vec());
    assert_ne!(other.cache_key, repository.cache_key);
}

#[test]
fn plain_text_is_the_one_syntax() {
    let git = Git::plain_text();
    assert_eq!(git.commits.policy().max_capacity(), Some(100));
    let syntaxes = git.syntax_set.syntaxes();
    assert_eq!(syntaxes.len(), 1);
    assert_eq!(syntaxes[0].name, "Plain Text");
    assert_eq!(syntaxes[0].file_extensions, ["txt"]);
    let repository = Arc::new(git).repo(b"a".to_vec());
    let commit = repository.latest_commit(&HeadCommitRead::Read(raw(), diff())).unwrap();
    assert_eq!(
        commit.diff,
        "<span class=\"diff-add-line\"><span class=\"text plain\">a\n</span></span>"
    );
}

#[test]
fn asked_for_hash_is_shown_in_full() {
    let repository = repository(SyntaxSetBuilder::new().build());
    let id = repository.commit("AbC").ok().unwrap().id;
    let commit = Commit::try_from(&RawCommit { id, ..raw() }).unwrap();
    assert_eq!(commit.oid(), "abc0000000000000000000000000000000000000");
    assert_eq!(repository.commit("abc0").ok().unwrap().id, id);
    assert_ne!(repository.commit("abc1").ok().unwrap().id, id);
}

#[test]
fn requests_are_started() {
    let repository = repository(SyntaxSetBuilder::new().build());
    let query = repository.path(Some(b"a".to_vec()), None, Some("main".to_string())).unwrap();
    assert_eq!(query.path, Some(b"a".to_vec()));
    assert!(matches!(query.root, TreeRoot::Branch(name) if name == "main"));
    assert_eq!(repository.path(None, Some("?"), None).unwrap_err(), GitError::BadTreeHash);
    assert_eq!(repository.tag_info("v1").reference, "refs/tags/v1");
    assert_eq!(repository.readme(HeadTreeRead::Read).unwrap().candidate(), "README.md");
    assert_eq!(repository.readme(HeadTreeRead::NoTree).unwrap_err(), GitError::NoHeadTree);
}

#[test]
fn commit_is_asked_for_by_its_hash() {
    let repository = repository(SyntaxSetBuilder::new().build());
    let mut id = [0; 20];
    id[0] = 0x12;
    id[1] = 0x30;
    assert_eq!(repository.commit("123").ok().map(|query| query.id), Some(id));
    assert_eq!(repository.commit("main").err(), Some(GitError::BadCommitHash));
}

#[test]
fn shown_hash_asks_for_the_commit() {
    let repository = repository(SyntaxSetBuilder::new().build());
    let commit = Commit::try_from(&raw()).unwrap();
    assert_eq!(repository.commit(commit.oid()).ok().map(|query| query.id), Some([0x0f; 20]));
    let query = repository.path(None, Some(commit.tree()), None).unwrap();
    assert!(matches!(query.root, TreeRoot::Id(id) if id == [0xf0; 20]));
}

#[test]
fn commit_of_head_is_answered_as_any_other() {
    let repository = repository(SyntaxSet::load_defaults_newlines());
    let latest = repository.latest_commit(&HeadCommitRead::Read(raw(), diff())).unwrap();
    let found = repository.found_commit(&CommitRead::Read(raw(), diff())).unwrap();
    for commit in [&latest, &found] {
        assert_eq!(commit.summary(), "Start");
        assert_eq!(commit.diff_stats, "stats");
        assert_eq!(&commit.diff_plain[..], b"email");
        assert_eq!(
            commit.diff,
            "<span class=\"diff-add-line\"><span class=\"text plain\">a\n</span></span>"
        );
    }
}

#[test]
fn commit_that_is_not_read_is_reported() {
    let repository = repository(SyntaxSet::load_defaults_newlines());
    let latest = |read| repository.latest_commit(&read).unwrap_err();
    assert_eq!(latest(HeadCommitRead::NoHead), GitError::NoHead);
    assert_eq!(latest(HeadCommitRead::NoCommit), GitError::NoHeadCommit);
    assert_eq!(latest(HeadCommitRead::Read(raw(), DiffRead::NoTree)), GitError::NoCommitTree);
    let found = |read| repository.found_commit(&read).unwrap_err();
    assert_eq!(found(CommitRead::NotFound), GitError::CommitNotFound);
    assert_eq!(found(CommitRead::Read(raw(), DiffRead::NoStats)), GitError::StatsFailed);
}

#[test]
fn lack_of_a_syntax_gives_no_commit() {
    let empty = repository(SyntaxSetBuilder::new().build());
    assert!(empty.try_latest_commit(&HeadCommitRead::Read(raw(), diff())).is_none());
    assert!(empty.try_found_commit(&CommitRead::Read(raw(), diff())).is_none());
    assert!(matches!(
        empty.try_latest_commit(&HeadCommitRead::NoHead),
        Some(Err(GitError::NoHead))
    ));
    assert!(matches!(
        empty.try_found_commit(&CommitRead::NotFound),
        Some(Err(GitError::CommitNotFound))
    ));
    let full = repository(SyntaxSet::load_defaults_newlines());
    assert!(matches!(full.try_found_commit(&CommitRead::Read(raw(), diff())), Some(Ok(_))));
    assert!(matches!(full.try_latest_commit(&HeadCommitRead::Read(raw(), diff())), Some(Ok(_))));
}
