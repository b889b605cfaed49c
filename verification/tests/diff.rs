use rgit::diff::{
    diff_base, diff_line_token, fetch_diff_and_stats, format_diff, has_diff_syntaxes,
    has_line_syntaxes, line_class, push_in_span, DiffBase, DiffLine, DiffLineKind, DiffRead,
    ParentRead, RawDiff,
};
use rgit::error::GitError;
use syntect::parsing::{SyntaxSet, SyntaxSetBuilder};

fn line(kind: DiffLineKind, content: &[u8], path: Option<&str>) -> DiffLine {
    DiffLine { kind, content: content.to_vec(), new_path: path.map(|p| p.as_bytes().to_vec()) }
}

fn raw(stats: &[u8]) -> DiffRead {
    DiffRead::Read(RawDiff {
        email: b"From \xff\n".to_vec(),
        stats: stats.to_vec(),
        lines: vec![line(DiffLineKind::Addition, b"a\n", Some("x.txt"))],
    })
}

#[test]
fn kinds_have_their_classes() {
    assert_eq!(line_class(DiffLineKind::Addition), (Some("add-line"), true));
    assert_eq!(line_class(DiffLineKind::Deletion), (Some("remove-line"), true));
    assert_eq!(line_class(DiffLineKind::Context), (Some("context"), true));
    assert_eq!(line_class(DiffLineKind::AddEofnl), (Some("remove-line"), false));
    assert_eq!(line_class(DiffLineKind::DeleteEofnl), (Some("add-line"), false));
    assert_eq!(line_class(DiffLineKind::FileHeader), (Some("file-header"), false));
    assert_eq!(line_class(DiffLineKind::HunkHeader), (None, false));
    assert_eq!(line_class(DiffLineKind::ContextEofnl), (None, false));
    assert_eq!(line_class(DiffLineKind::Binary), (None, false));
}

#[test]
fn code_is_named_by_its_file_and_the_rest_is_patch() {
    let token = |kind, path| diff_line_token(&line(kind, b"", path));
    assert_eq!(token(DiffLineKind::Addition, Some("src/a.rs")), "rs");
    assert_eq!(token(DiffLineKind::Context, Some("src/Makefile")), "Makefile");
    assert_eq!(token(DiffLineKind::Deletion, None), "");
    assert_eq!(token(DiffLineKind::FileHeader, Some("src/a.rs")), "patch");
    assert_eq!(token(DiffLineKind::HunkHeader, None), "patch");
    assert_eq!(token(DiffLineKind::AddEofnl, Some("a.rs")), "patch");
}

#[test]
fn span_is_put_around_lines_with_a_class() {
    let mut output = String::from("before ");
    push_in_span(&mut output, DiffLineKind::Deletion, "<b>x</b>");
    assert_eq!(output, "before <span class=\"diff-remove-line\"><b>x</b></span>");
    push_in_span(&mut output, DiffLineKind::HunkHeader, " y");
    assert_eq!(output, "before <span class=\"diff-remove-line\"><b>x</b></span> y");
}

#[test]
fn lines_come_one_behind_the_other() {
    let set = SyntaxSet::load_defaults_newlines();
    let lines = vec![
        line(DiffLineKind::Context, b"a\n", Some("f.txt")),
        line(DiffLineKind::Addition, b"b\xff\n", Some("f.txt")),
    ];
    assert_eq!(
        format_diff(&lines, &set),
        "<span class=\"diff-context\"><span class=\"text plain\">a\n</span></span>\
         <span class=\"diff-add-line\"><span class=\"text plain\">b\u{fffd}\n</span></span>"
    );
    assert_eq!(format_diff(&vec![], &set), "");
}

#[test]
fn headers_are_highlighted_as_patch() {
    let set = SyntaxSet::load_defaults_newlines();
    let lines = vec![line(DiffLineKind::HunkHeader, b"@@ -1 +1 @@\n", Some("f.rs"))];
    let html = format_diff(&lines, &set);
    assert!(html.starts_with("<span class=\"source diff\">"), "{html}");
}

#[test]
fn diff_is_that_of_its_parts() {
    let set = SyntaxSet::load_defaults_newlines();
    let kinds = [
        DiffLineKind::FileHeader,
        DiffLineKind::HunkHeader,
        DiffLineKind::Deletion,
        DiffLineKind::Addition,
        DiffLineKind::Binary,
    ];
    let part = |from: usize, to: usize| -> Vec<DiffLine> {
        kinds[from..to].iter().map(|kind| line(*kind, b"fn x() {\n", Some("a.rs"))).collect()
    };
    for cut in 0..=kinds.len() {
        let parts = format_diff(&part(0, cut), &set) + &format_diff(&part(cut, kinds.len()), &set);
        assert_eq!(format_diff(&part(0, kinds.len()), &set), parts);
    }
}

#[test]
fn read_diff_is_rendered() {
    let set = SyntaxSet::load_defaults_newlines();
    let (plain, output, stats) = fetch_diff_and_stats(&raw(b" x.txt | 1 +\n"), &set).unwrap();
    assert_eq!(&plain[..], b"From \xff\n");
    assert_eq!(
        output,
        "<span class=\"diff-add-line\"><span class=\"text plain\">a\n</span></span>"
    );
    assert_eq!(stats, " x.txt | 1 +\n");
}

#[test]
fn stats_that_are_not_utf8_are_empty() {
    let set = SyntaxSet::load_defaults_newlines();
    assert_eq!(fetch_diff_and_stats(&raw(b"\xff"), &set).unwrap().2, "");
}

#[test]
fn diff_that_is_not_read_is_reported() {
    let set = SyntaxSet::load_defaults_newlines();
    let error = |read: DiffRead| fetch_diff_and_stats(&read, &set).unwrap_err();
    assert_eq!(error(DiffRead::NoTree), GitError::NoCommitTree);
    assert_eq!(error(DiffRead::NoDiff), GitError::DiffFailed);
    assert_eq!(error(DiffRead::NoEmail), GitError::EmailFailed);
    assert_eq!(error(DiffRead::NoStats), GitError::StatsFailed);
    assert_eq!(error(DiffRead::NoLines), GitError::DiffNotPrinted);
}

#[test]
fn lack_of_a_syntax_is_seen() {
    let empty = SyntaxSetBuilder::new().build();
    assert!(!has_diff_syntaxes(&raw(b""), &empty));
    assert!(has_diff_syntaxes(&DiffRead::NoTree, &empty));
    assert!(has_line_syntaxes(&vec![], &empty));
    assert!(has_diff_syntaxes(&raw(b""), &SyntaxSet::load_defaults_newlines()));
}

#[test]
fn tree_is_compared_with_that_of_the_parent() {
    assert_eq!(diff_base(ParentRead::Read), DiffBase::ParentTree);
    assert_eq!(diff_base(ParentRead::NoParent), DiffBase::EmptyTree);
    assert_eq!(diff_base(ParentRead::NoTree), DiffBase::EmptyTree);
}
