use rgit::error::GitError;

#[test]
fn failures_are_reported_with_their_sentences() {
    let sentences = [
        (GitError::BadTreeHash, "Failed to parse tree hash"),
        (GitError::TreeNotFound, "Couldn't find tree with given id"),
        (GitError::NoTreeForBranch, "Couldn't find tree for branch"),
        (GitError::NoTreeForHead, "Couldn't find tree from HEAD"),
        (GitError::PathNotInTree, "Path doesn't exist in tree"),
        (GitError::EntryNotObject, "Path in tree isn't an object"),
        (GitError::LineNotParsed, "Couldn't parse line of file"),
        (GitError::NotTreeOrBlob, "Given path not tree nor blob... what is it?!"),
        (GitError::ItemNotObject, "Expected item in tree to be object but it wasn't"),
        (GitError::ReferenceNotFound, "Given reference does not exist in repository"),
        (GitError::NotATag, "Couldn't get to a tag from the given reference"),
        (GitError::NoTaggedObject, "Couldn't find tagged object"),
        (GitError::NoHead, "Couldn't find HEAD of repository"),
        (
            GitError::NoReadmeCommit,
            "Couldn't find the commit that the HEAD of the repository refers to",
        ),
        (GitError::NoHeadTree, "Couldn't get the tree that the HEAD refers to"),
        (GitError::NoHeadCommit, "Couldn't find commit HEAD of repository refers to"),
        (GitError::NoCommitTree, "Couldn't get tree for the commit"),
        (GitError::EmailFailed, "Couldn't build diff for commit"),
        (GitError::DiffNotPrinted, "Failed to prepare diff"),
    ];
    for (error, sentence) in sentences {
        assert_eq!(error.message(), Some(sentence));
    }
}

#[test]
fn other_failures_are_reported_as_git_says() {
    for error in [
        GitError::BranchNotFound,
        GitError::HeadNotFound,
        GitError::TimeOutOfRange,
        GitError::BadCommitHash,
        GitError::CommitNotFound,
        GitError::DiffFailed,
        GitError::StatsFailed,
    ] {
        assert_eq!(error.message(), None);
    }
}
