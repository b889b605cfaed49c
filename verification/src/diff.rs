//! The diff of a commit: its lines as HTML, its summary, and its text as an email.
use vstd::prelude::*;
use bytes::{Bytes, BytesMut};
use syntect::parsing::SyntaxSet;

use crate::error::GitError;
use crate::highlight::{has_syntax, highlight_line};
use crate::paths::syntax_token;
use crate::text::{from_utf8, from_utf8_lossy};

verus! {

use vstd::utf8::{decode_utf8, valid_utf8};
use crate::highlight::{can_highlight, highlighting_ends, line_html};
use crate::paths::{syntax_token_of, token_is_lossless};
use crate::text::{lossless, utf8_lossy};

/// Immutable bytes, of bytes.
#[verifier::external_type_specification]
#[verifier::external_body]
pub struct ExBytes(Bytes);

/// Growing bytes, of bytes.
#[verifier::external_type_specification]
#[verifier::external_body]
pub struct ExBytesMut(BytesMut);

/// What immutable bytes hold.
pub uninterp spec fn bytes_contents(bytes: Bytes) -> Seq<u8>;

/// What growing bytes hold.
pub uninterp spec fn bytes_mut_contents(bytes: BytesMut) -> Seq<u8>;

/// Specifies [`Bytes::new`]: it holds nothing.
pub assume_specification[ Bytes::new ]() -> (bytes: Bytes)
    ensures
        bytes_contents(bytes) == Seq::<u8>::empty(),
;

/// Specifies [`BytesMut::new`]: it holds nothing.
pub assume_specification[ BytesMut::new ]() -> (bytes: BytesMut)
    ensures
        bytes_mut_contents(bytes) == Seq::<u8>::empty(),
;

/// Specifies [`BytesMut::extend_from_slice`]: the slice is put behind what is held. The call
/// panics where the whole is too long for one allocation; a slice by itself never is.
pub assume_specification[ BytesMut::extend_from_slice ](bytes: &mut BytesMut, extend: &[u8])
    requires
        bytes_mut_contents(*old(bytes)).len() == 0 || bytes_mut_contents(*old(bytes)).len()
            + extend@.len() <= isize::MAX,
    ensures
        bytes_mut_contents(*final(bytes)) == bytes_mut_contents(*old(bytes)) + extend@,
;

/// Specifies [`BytesMut::freeze`]: the result holds what was held.
pub assume_specification[ BytesMut::freeze ](bytes: BytesMut) -> (frozen: Bytes)
    ensures
        bytes_contents(frozen) == bytes_mut_contents(bytes),
;

/// What a line of a diff is.
#[derive(Clone, Copy, Debug, PartialEq, Eq, Structural)]
pub enum DiffLineKind {
    /// A line that both sides have.
    Context,
    /// A line that only the new side has.
    Addition,
    /// A line that only the old side has.
    Deletion,
    /// Neither side ends in a newline.
    ContextEofnl,
    /// Only the new side ends in a newline.
    AddEofnl,
    /// Only the old side ends in a newline.
    DeleteEofnl,
    /// The header of a file.
    FileHeader,
    /// The header of a hunk.
    HunkHeader,
    /// A note on binary contents.
    Binary,
}

/// A line of a diff.
#[derive(Debug)]
pub struct DiffLine {
    /// What the line is.
    pub kind: DiffLineKind,
    /// The line, with the newline that ends it.
    pub content: Vec<u8>,
    /// The path of the file on the new side, if it is known.
    pub new_path: Option<Vec<u8>>,
}

/// What is read of the diff between a commit and its first parent.
#[derive(Debug)]
pub struct RawDiff {
    /// The diff as an email.
    pub email: Vec<u8>,
    /// The summary of the changes of each file.
    pub stats: Vec<u8>,
    /// The lines of the diff.
    pub lines: Vec<DiffLine>,
}

/// What came of reading the tree of the first parent of a commit.
#[derive(Clone, Copy, Debug, PartialEq, Eq, Structural)]
pub enum ParentRead {
    /// There is no parent, or the first cannot be read.
    NoParent,
    /// The parent has no tree.
    NoTree,
    /// The tree was read.
    Read,
}

/// What the tree of a commit is compared with.
#[derive(Clone, Copy, Debug, PartialEq, Eq, Structural)]
pub enum DiffBase {
    /// The tree of the first parent.
    ParentTree,
    /// A tree without items.
    EmptyTree,
}

/// What came of reading a diff.
#[derive(Debug)]
pub enum DiffRead {
    /// The commit has no tree.
    NoTree,
    /// The trees cannot be compared.
    NoDiff,
    /// The diff cannot be written as an email.
    NoEmail,
    /// The diff cannot be counted.
    NoStats,
    /// The lines cannot be read.
    NoLines,
    /// All of it was read.
    Read(RawDiff),
}

/// The class of the lines of a kind, behind `diff-`; lines of some kinds have none.
pub open spec fn class_of(kind: DiffLineKind) -> Option<Seq<char>> {
    match kind {
        DiffLineKind::Addition | DiffLineKind::DeleteEofnl => Some("add-line"@),
        DiffLineKind::Deletion | DiffLineKind::AddEofnl => Some("remove-line"@),
        DiffLineKind::Context => Some("context"@),
        DiffLineKind::FileHeader => Some("file-header"@),
        DiffLineKind::ContextEofnl | DiffLineKind::HunkHeader | DiffLineKind::Binary => None,
    }
}

/// Whether lines of a kind are code of the file; the others are text of the diff itself.
pub open spec fn is_source(kind: DiffLineKind) -> bool {
    kind is Addition || kind is Deletion || kind is Context
}

/// What names the syntax of a line.
pub open spec fn line_token(line: DiffLine) -> Seq<char> {
    if is_source(line.kind) {
        match line.new_path {
            Some(path) => syntax_token_of(path@),
            None => ""@,
        }
    } else {
        "patch"@
    }
}

/// Whether the text of a line, and what names the syntax of its file, are kept as they are, where
/// they are UTF-8.
pub open spec fn line_is_lossless(line: DiffLine) -> bool {
    &&& lossless(line.content@, utf8_lossy(line.content@))
    &&& is_source(line.kind) ==> (line.new_path matches Some(path) ==> token_is_lossless(path@))
}

/// Whether each line of a diff is kept as it is, where it is UTF-8.
pub open spec fn lines_are_lossless(lines: Seq<DiffLine>) -> bool {
    forall|i: int| 0 <= i < lines.len() ==> line_is_lossless(#[trigger] lines[i])
}

/// The HTML of a line of a kind, in an element with the class of the kind if it has one.
pub open spec fn in_span(kind: DiffLineKind, html: Seq<char>) -> Seq<char> {
    match class_of(kind) {
        Some(class) => "<span class=\"diff-"@ + class + "\">"@ + html + "</span>"@,
        None => html,
    }
}

/// The HTML of a line of a diff.
pub open spec fn diff_line_html(set: SyntaxSet, line: DiffLine) -> Seq<char> {
    in_span(line.kind, line_html(set, line_token(line), utf8_lossy(line.content@)))
}

/// The HTML of a diff: that of its lines, one behind the other.
pub open spec fn diff_html(set: SyntaxSet, lines: Seq<DiffLine>) -> Seq<char>
    decreases lines.len(),
{
    if lines.len() == 0 {
        seq![]
    } else {
        diff_html(set, lines.drop_last()) + diff_line_html(set, lines.last())
    }
}

/// Whether a set has a syntax for each line of a diff.
pub open spec fn can_highlight_lines(set: SyntaxSet, lines: Seq<DiffLine>) -> bool {
    forall|i: int| 0 <= i < lines.len() ==> can_highlight(set, line_token(#[trigger] lines[i]))
}

/// The text that bytes encode, or an empty text where they are not UTF-8.
pub open spec fn text_or_empty(bytes: Seq<u8>) -> Seq<char> {
    if valid_utf8(bytes) {
        decode_utf8(bytes)
    } else {
        ""@
    }
}

/// What is made of a diff: the email, the HTML, and the summary.
pub open spec fn rendered_diff(set: SyntaxSet, read: DiffRead) -> Result<
    (Seq<u8>, Seq<char>, Seq<char>),
    GitError,
> {
    match read {
        DiffRead::NoTree => Err(GitError::NoCommitTree),
        DiffRead::NoDiff => Err(GitError::DiffFailed),
        DiffRead::NoEmail => Err(GitError::EmailFailed),
        DiffRead::NoStats => Err(GitError::StatsFailed),
        DiffRead::NoLines => Err(GitError::DiffNotPrinted),
        DiffRead::Read(diff) => Ok(
            (diff.email@, diff_html(set, diff.lines@), text_or_empty(diff.stats@)),
        ),
    }
}

/// Whether a set has the syntaxes for what was read of a diff.
pub open spec fn can_render(set: SyntaxSet, read: DiffRead) -> bool {
    read matches DiffRead::Read(diff) ==> can_highlight_lines(set, diff.lines@)
}

/// Whether highlighting what was read of a diff with a set comes to an end.
pub open spec fn rendering_ends(set: SyntaxSet, read: DiffRead) -> bool {
    read matches DiffRead::Read(diff) ==> diff.lines@.len() > 0 ==> highlighting_ends(set)
}

/// Whether each line of what was read of a diff is kept as it is, where it is UTF-8.
pub open spec fn diff_is_lossless(read: DiffRead) -> bool {
    read matches DiffRead::Read(diff) ==> lines_are_lossless(diff.lines@)
}

/// What the tree of a commit is compared with: that of the first parent, or a tree without items
/// where that cannot be read.
pub fn diff_base(read: ParentRead) -> (base: DiffBase)
    ensures
        base == (if read is Read {
            DiffBase::ParentTree
        } else {
            DiffBase::EmptyTree
        }),
{
    match read {
        ParentRead::Read => DiffBase::ParentTree,
        ParentRead::NoParent | ParentRead::NoTree => DiffBase::EmptyTree,
    }
}

/// The class of the lines of a kind, and whether they are highlighted as code.
pub fn line_class(kind: DiffLineKind) -> (class: (Option<&'static str>, bool))
    ensures
        (match class.0 {
            Some(name) => class_of(kind) == Some(name@),
            None => class_of(kind) is None,
        }),
        class.1 == is_source(kind),
{
    match kind {
        DiffLineKind::Addition => (Some("add-line"), true),
        DiffLineKind::Deletion => (Some("remove-line"), true),
        DiffLineKind::Context => (Some("context"), true),
        DiffLineKind::AddEofnl => (Some("remove-line"), false),
        DiffLineKind::DeleteEofnl => (Some("add-line"), false),
        DiffLineKind::FileHeader => (Some("file-header"), false),
        DiffLineKind::ContextEofnl | DiffLineKind::HunkHeader | DiffLineKind::Binary => (
            None,
            false,
        ),
    }
}

/// What names the syntax of a line: for code the extension or the name of its file, for the rest
/// `patch`.
pub fn diff_line_token(line: &DiffLine) -> (token: String)
    ensures
        token@ == line_token(*line),
        is_source(line.kind) ==> (line.new_path matches Some(path) ==> token_is_lossless(path@)),
{
    let (_, source) = line_class(line.kind);
    if source {
        match &line.new_path {
            Some(path) => syntax_token(path.as_slice()),
            None => "".to_owned(),
        }
    } else {
        "patch".to_owned()
    }
}

/// Puts the HTML of a line behind the HTML of the lines before it, in an element with the class of
/// its kind if the kind has one.
pub fn push_in_span(output: &mut String, kind: DiffLineKind, html: &str)
    ensures
        final(output)@ == old(output)@ + in_span(kind, html@),
{
    let (class, _) = line_class(kind);
    if let Some(name) = class {
        output.append("<span class=\"diff-");
        output.append(name);
        output.append("\">");
    }
    output.append(html);
    if class.is_some() {
        output.append("</span>");
    }
    proof {
        assert(output@ =~= old(output)@ + in_span(kind, html@));
    }
}

/// Highlights the lines of a diff and puts each into an element with the class of its kind.
pub fn format_diff(lines: &Vec<DiffLine>, syntax_set: &SyntaxSet) -> (html: String)
    requires
        can_highlight_lines(*syntax_set, lines@),
        lines@.len() > 0 ==> highlighting_ends(*syntax_set),
    ensures
        html@ == diff_html(*syntax_set, lines@),
        lines_are_lossless(lines@),
{
    let mut output = String::new();
    let mut i: usize = 0;
    while i < lines.len()
        invariant
            i <= lines@.len(),
            can_highlight_lines(*syntax_set, lines@),
            lines@.len() > 0 ==> highlighting_ends(*syntax_set),
            forall|j: int| 0 <= j < i ==> line_is_lossless(#[trigger] lines@[j]),
            output@ == diff_html(*syntax_set, lines@.take(i as int)),
        decreases lines@.len() - i,
    {
        let line = &lines[i];
        let text = from_utf8_lossy(line.content.as_slice());
        let token = diff_line_token(line);
        let html = highlight_line(text.as_str(), token.as_str(), syntax_set);
        push_in_span(&mut output, line.kind, html.as_str());
        proof {
            assert(lines@.take(i + 1).drop_last() =~= lines@.take(i as int));
        }
        i = i + 1;
    }
    proof {
        assert(lines@.take(i as int) =~= lines@);
    }
    output
}

/// Whether a set has a syntax for each line of a diff.
pub fn has_line_syntaxes(lines: &Vec<DiffLine>, syntax_set: &SyntaxSet) -> (found: bool)
    ensures
        found == can_highlight_lines(*syntax_set, lines@),
{
    let mut i: usize = 0;
    while i < lines.len()
        invariant
            i <= lines@.len(),
            forall|j: int|
                0 <= j < i ==> can_highlight(*syntax_set, line_token(#[trigger] lines@[j])),
        decreases lines@.len() - i,
    {
        let token = diff_line_token(&lines[i]);
        if !has_syntax(syntax_set, token.as_str()) {
            proof {
                assert(!can_highlight(*syntax_set, line_token(lines@[i as int])));
            }
            return false;
        }
        i = i + 1;
    }
    true
}

/// Makes of what was read of a diff the bytes of the email, the HTML of the lines, and the text of
/// the summary; or says what could not be read.
pub fn fetch_diff_and_stats(read: &DiffRead, syntax_set: &SyntaxSet) -> (rendered: Result<
    (Bytes, String, String),
    GitError,
>)
    requires
        can_render(*syntax_set, *read),
        rendering_ends(*syntax_set, *read),
    ensures
        diff_is_lossless(*read),
        (match rendered {
            Ok((plain, output, stats)) => rendered_diff(*syntax_set, *read) == Ok::<_, GitError>(
                (bytes_contents(plain), output@, stats@),
            ),
            Err(e) => rendered_diff(*syntax_set, *read) == Err::<
                (Seq<u8>, Seq<char>, Seq<char>),
                _,
            >(e),
        }),
{
    match read {
        DiffRead::NoTree => Err(GitError::NoCommitTree),
        DiffRead::NoDiff => Err(GitError::DiffFailed),
        DiffRead::NoEmail => Err(GitError::EmailFailed),
        DiffRead::NoStats => Err(GitError::StatsFailed),
        DiffRead::NoLines => Err(GitError::DiffNotPrinted),
        DiffRead::Read(diff) => {
            let mut plain = BytesMut::new();
            plain.extend_from_slice(diff.email.as_slice());
            let stats = match from_utf8(diff.stats.as_slice()) {
                Some(text) => text.to_owned(),
                None => "".to_owned(),
            };
            let output = format_diff(&diff.lines, syntax_set);
            proof {
                assert(bytes_mut_contents(plain) =~= diff.email@);
            }
            Ok((plain.freeze(), output, stats))
        },
    }
}

/// Whether a set has the syntaxes for what was read of a diff.
pub fn has_diff_syntaxes(read: &DiffRead, syntax_set: &SyntaxSet) -> (found: bool)
    ensures
        found == can_render(*syntax_set, *read),
{
    match read {
        DiffRead::Read(diff) => has_line_syntaxes(&diff.lines, syntax_set),
        _ => true,
    }
}

/// The HTML of a diff does not depend on where it is cut: it is that of its parts, one behind the
/// other.
pub proof fn diff_html_of_parts(set: SyntaxSet, front: Seq<DiffLine>, back: Seq<DiffLine>)
    ensures
        diff_html(set, front + back) == diff_html(set, front) + diff_html(set, back),
    decreases back.len(),
{
    if back.len() == 0 {
        assert(front + back =~= front);
        assert(diff_html(set, front) + diff_html(set, back) =~= diff_html(set, front));
    } else {
        diff_html_of_parts(set, front, back.drop_last());
        assert((front + back).drop_last() =~= front + back.drop_last());
        assert(diff_html(set, front + back) =~= diff_html(set, front) + diff_html(set, back));
    }
}

/// A diff of one line is what its text is highlighted as: by the syntax of its file where the line
/// is code, and as a patch where it is not. It stands in one element with the class of what the
/// line is, headers of files included; a hunk header, a note on binary contents and a note on a
/// newline that both sides lack stand in none.
pub proof fn one_line_diff(set: SyntaxSet, line: DiffLine)
    ensures
        ({
            let text = utf8_lossy(line.content@);
            let code = line_html(
                set,
                match line.new_path {
                    Some(path) => syntax_token_of(path@),
                    None => seq![],
                },
                text,
            );
            let note = line_html(set, "patch"@, text);
            diff_html(set, seq![line]) == match line.kind {
                DiffLineKind::Addition => "<span class=\"diff-add-line\">"@ + code + "</span>"@,
                DiffLineKind::Deletion => "<span class=\"diff-remove-line\">"@ + code
                    + "</span>"@,
                DiffLineKind::Context => "<span class=\"diff-context\">"@ + code + "</span>"@,
                DiffLineKind::AddEofnl => "<span class=\"diff-remove-line\">"@ + note
                    + "</span>"@,
                DiffLineKind::DeleteEofnl => "<span class=\"diff-add-line\">"@ + note
                    + "</span>"@,
                DiffLineKind::FileHeader => "<span class=\"diff-file-header\">"@ + note
                    + "</span>"@,
                DiffLineKind::ContextEofnl => note,
                DiffLineKind::HunkHeader => note,
                DiffLineKind::Binary => note,
            }
        }),
{
    reveal_strlit("");
    reveal_strlit("<span class=\"diff-");
    reveal_strlit("\">");
    reveal_strlit("add-line");
    reveal_strlit("remove-line");
    reveal_strlit("context");
    reveal_strlit("file-header");
    reveal_strlit("<span class=\"diff-add-line\">");
    reveal_strlit("<span class=\"diff-remove-line\">");
    reveal_strlit("<span class=\"diff-context\">");
    reveal_strlit("<span class=\"diff-file-header\">");
    assert(""@ =~= seq![]);
    let start = "<span class=\"diff-"@;
    assert(start + "add-line"@ + "\">"@ =~= "<span class=\"diff-add-line\">"@);
    assert(start + "remove-line"@ + "\">"@ =~= "<span class=\"diff-remove-line\">"@);
    assert(start + "context"@ + "\">"@ =~= "<span class=\"diff-context\">"@);
    assert(start + "file-header"@ + "\">"@ =~= "<span class=\"diff-file-header\">"@);
    assert(seq![line].drop_last() =~= seq![]);
    assert(diff_html(set, seq![]) =~= seq![]);
    assert(diff_html(set, seq![line]) =~= diff_line_html(set, line));
}

/// No line of a diff is left out, doubled or moved, and none changes how another is shown: the HTML
/// of a diff has one part for each of its lines, in order, and each part is that of the diff of
/// this line alone.
pub proof fn every_line_is_shown(set: SyntaxSet, lines: Seq<DiffLine>)
    ensures
        diff_html(set, lines) == lines.map_values(
            |line: DiffLine| diff_html(set, seq![line]),
        ).flatten(),
    decreases lines.len(),
{
    let alone = |line: DiffLine| diff_html(set, seq![line]);
    if lines.len() == 0 {
        assert(diff_html(set, lines) =~= lines.map_values(alone).flatten());
    } else {
        let front = lines.drop_last();
        let last = lines.last();
        every_line_is_shown(set, front);
        diff_html_of_parts(set, front, seq![last]);
        assert(front + seq![last] =~= lines);
        front.map_values(alone).lemma_flatten_push(alone(last));
        assert(front.map_values(alone).push(alone(last)) =~= lines.map_values(alone));
    }
}

/// What a diff gives: the email byte for byte, the HTML of its lines, and the summary, whose text
/// encodes to the bytes that were read where they are UTF-8 and is empty where they are not. Each
/// way in which reading it failed has an error of its own.
pub proof fn what_a_diff_gives(set: SyntaxSet, read: DiffRead)
    ensures
        rendered_diff(set, read) is Ok <==> read is Read,
        read matches DiffRead::Read(diff) ==> (rendered_diff(set, read) matches Ok((
            plain,
            output,
            stats,
        )) && {
            &&& plain == diff.email@
            &&& output == diff_html(set, diff.lines@)
            &&& valid_utf8(diff.stats@) ==> vstd::utf8::encode_utf8(stats) == diff.stats@
            &&& !valid_utf8(diff.stats@) ==> stats.len() == 0
        }),
        read is NoTree ==> rendered_diff(set, read)->Err_0 == GitError::NoCommitTree,
        read is NoDiff ==> rendered_diff(set, read)->Err_0 == GitError::DiffFailed,
        read is NoEmail ==> rendered_diff(set, read)->Err_0 == GitError::EmailFailed,
        read is NoStats ==> rendered_diff(set, read)->Err_0 == GitError::StatsFailed,
        read is NoLines ==> rendered_diff(set, read)->Err_0 == GitError::DiffNotPrinted,
{
    reveal_strlit("");
    if let DiffRead::Read(diff) = read {
        if valid_utf8(diff.stats@) {
            vstd::utf8::decode_utf8_encode_utf8(diff.stats@);
        }
    }
}

/// A diff can be shown exactly where each of its lines can be shown by itself: code where there is
/// a syntax for its file, and every other line where there is one for patches. With plain text in
/// the set every diff can be shown.
pub proof fn diffs_that_can_be_shown(set: SyntaxSet, read: DiffRead)
    ensures
        can_render(set, read) <==> (read matches DiffRead::Read(diff) ==> forall|i: int|
            0 <= i < diff.lines@.len() ==> {
                let line = #[trigger] diff.lines@[i];
                can_highlight(
                    set,
                    if line.kind is Addition || line.kind is Deletion || line.kind is Context {
                        match line.new_path {
                            Some(path) => syntax_token_of(path@),
                            None => seq![],
                        }
                    } else {
                        "patch"@
                    },
                )
            }),
        crate::highlight::by_name(crate::highlight::syntaxes(set), "Plain Text"@) is Some
            ==> can_render(set, read),
        highlighting_ends(set) ==> rendering_ends(set, read),
{
    reveal_strlit("");
    assert(""@ =~= seq![]);
}

/// What a kind of line is shown as. Lines of the file itself are code and have the class of their
/// side; so have the notes on a newline that one side lacks, the other way round, and these and
/// headers of files are not code. What names the syntax of code is what names that of its file.
pub proof fn kinds_of_lines(line: DiffLine, html: Seq<char>)
    ensures
        class_of(DiffLineKind::Addition) == Some("add-line"@),
        class_of(DiffLineKind::Deletion) == Some("remove-line"@),
        class_of(DiffLineKind::Context) == Some("context"@),
        class_of(DiffLineKind::DeleteEofnl) == class_of(DiffLineKind::Addition),
        class_of(DiffLineKind::AddEofnl) == class_of(DiffLineKind::Deletion),
        class_of(DiffLineKind::FileHeader) == Some("file-header"@),
        class_of(line.kind) is None <==> line.kind is ContextEofnl || line.kind is HunkHeader
            || line.kind is Binary,
        is_source(line.kind) <==> line.kind is Addition || line.kind is Deletion
            || line.kind is Context,
        is_source(line.kind) ==> (line.new_path matches Some(path) ==> line_token(line)
            == syntax_token_of(path@)),
        is_source(line.kind) && line.new_path is None ==> line_token(line).len() == 0,
        !is_source(line.kind) ==> line_token(line) == "patch"@,
        class_of(line.kind) is None ==> in_span(line.kind, html) == html,
        class_of(line.kind) matches Some(class) ==> {
            let shown = in_span(line.kind, html);
            &&& shown.len() == 18int + class.len() + 2 + html.len() + 7
            &&& shown.take(18) == "<span class=\"diff-"@
            &&& shown.subrange(18, 18int + class.len()) == class
            &&& shown.subrange(18int + class.len(), 20int + class.len()) == "\">"@
            &&& shown.subrange(20int + class.len(), shown.len() - 7) == html
            &&& shown.skip(shown.len() - 7) == "</span>"@
        },
{
    reveal_strlit("");
    reveal_strlit("<span class=\"diff-");
    reveal_strlit("\">");
    reveal_strlit("</span>");
    if let Some(class) = class_of(line.kind) {
        let shown = in_span(line.kind, html);
        assert(shown.take(18) =~= "<span class=\"diff-"@);
        assert(shown.subrange(18, 18int + class.len()) =~= class);
        assert(shown.subrange(18int + class.len(), 20int + class.len()) =~= "\">"@);
        assert(shown.subrange(20int + class.len(), shown.len() - 7) =~= html);
        assert(shown.skip(shown.len() - 7) =~= "</span>"@);
    }
}

} // verus!
