//! Syntax highlighting of files and of single lines.
use vstd::prelude::*;
use syntect::html::{ClassStyle, ClassedHTMLGenerator};
use syntect::parsing::{SyntaxReference, SyntaxSet, SyntaxSetBuilder};

use crate::error::GitError;
use crate::text::{from_utf8_lossy, lines_with_endings, replace};

verus! {

use crate::text::{ascii_lowercase, lines_of, lossless, replace_char, split_newlines, utf8_lossy};

/// A set of syntaxes, of syntect.
#[verifier::external_type_specification]
#[verifier::external_body]
pub struct ExSyntaxSet(SyntaxSet);

/// One syntax of a set, of syntect.
#[verifier::external_type_specification]
#[verifier::external_body]
pub struct ExSyntaxReference(SyntaxReference);

/// A generator of HTML whose elements have classes, of syntect.
#[verifier::external_type_specification]
#[verifier::external_body]
pub struct ExClassedHTMLGenerator<'a>(ClassedHTMLGenerator<'a>);

/// The error of syntect.
#[verifier::external_type_specification]
#[verifier::external_body]
pub struct ExSyntectError(syntect::Error);

/// What a lookup reads of a syntax: its name, and the extensions of its files.
pub type SyntaxEntry = (Seq<char>, Seq<Seq<char>>);

/// What a generator is made with: a set, a syntax, and the prefix of the classes if they have one.
pub type HtmlSetup = (SyntaxSet, SyntaxReference, Option<Seq<char>>);

/// The syntaxes of a set, in order.
pub uninterp spec fn syntaxes(set: SyntaxSet) -> Seq<SyntaxEntry>;

/// The syntax at a position of a set.
pub uninterp spec fn syntax_at(set: SyntaxSet, index: int) -> SyntaxReference;

/// What a generator was made with.
pub uninterp spec fn generator_setup(generator: ClassedHTMLGenerator) -> HtmlSetup;

/// The lines that a generator was given so far.
pub uninterp spec fn generator_lines(generator: ClassedHTMLGenerator) -> Seq<Seq<char>>;

/// Whether a generator takes `line` without an error when it was given `lines` before.
pub uninterp spec fn line_parses(
    setup: HtmlSetup,
    lines: Seq<Seq<char>>,
    line: Seq<char>,
) -> bool;

/// The HTML that a generator makes of the lines that it was given.
pub uninterp spec fn classed_html(setup: HtmlSetup, lines: Seq<Seq<char>>) -> Seq<char>;

/// Whether highlighting with a set comes to an end: a generator can be made with any syntax of the
/// set and be given any lines, and no call panics or runs for ever. That asks of the syntaxes that
/// each has a context to start from, that their patterns are regular expressions, also with what
/// was matched before put in, and that no context stands within itself or is entered and left for
/// ever without going on in the line.
pub uninterp spec fn highlighting_ends(set: SyntaxSet) -> bool;

/// Whether a syntax is one of a set.
pub open spec fn is_syntax_of(set: SyntaxSet, syntax: SyntaxReference) -> bool {
    exists|i: int| 0 <= i < syntaxes(set).len() && syntax == #[trigger] syntax_at(set, i)
}

/// Whether two texts are the same but for the case of letters of ASCII.
pub open spec fn same_but_for_case(a: Seq<char>, b: Seq<char>) -> bool {
    a.map_values(|c: char| ascii_lowercase(c)) == b.map_values(|c: char| ascii_lowercase(c))
}

/// Whether one of the extensions of a syntax is `extension`, in any case.
pub open spec fn has_extension(syntax: SyntaxEntry, extension: Seq<char>) -> bool {
    exists|i: int|
        0 <= i < syntax.1.len() && same_but_for_case(#[trigger] syntax.1[i], extension)
}

/// The position of the last syntax that has an extension.
pub open spec fn by_extension(all: Seq<SyntaxEntry>, extension: Seq<char>) -> Option<int>
    decreases all.len(),
{
    if all.len() == 0 {
        None
    } else if has_extension(all.last(), extension) {
        Some(all.len() - 1)
    } else {
        by_extension(all.drop_last(), extension)
    }
}

/// The position of the last syntax that has a name.
pub open spec fn by_name(all: Seq<SyntaxEntry>, name: Seq<char>) -> Option<int>
    decreases all.len(),
{
    if all.len() == 0 {
        None
    } else if all.last().0 == name {
        Some(all.len() - 1)
    } else {
        by_name(all.drop_last(), name)
    }
}

/// Specifies [`SyntaxSet::find_syntax_by_extension`]: the last syntax of the set that lists the
/// extension, in any case, if there is one.
pub assume_specification<'a>[ SyntaxSet::find_syntax_by_extension ](
    set: &'a SyntaxSet,
    wanted: &str,
) -> (syntax: Option<&'a SyntaxReference>)
    ensures
        syntax is Some <==> by_extension(syntaxes(*set), wanted@) is Some,
        syntax matches Some(found) ==> *found == syntax_at(
            *set,
            by_extension(syntaxes(*set), wanted@)->0,
        ),
;

/// Specifies [`SyntaxSet::find_syntax_by_name`]: the last syntax of the set with the name, if
/// there is one.
pub assume_specification<'a>[ SyntaxSet::find_syntax_by_name ](
    set: &'a SyntaxSet,
    name: &str,
) -> (syntax: Option<&'a SyntaxReference>)
    ensures
        syntax is Some <==> by_name(syntaxes(*set), name@) is Some,
        syntax matches Some(found) ==> *found == syntax_at(
            *set,
            by_name(syntaxes(*set), name@)->0,
        ),
;

/// Specifies [`SyntaxSet::find_syntax_plain_text`]: the last syntax of the set that is named
/// `Plain Text`. The call panics where there is none.
pub assume_specification[ SyntaxSet::find_syntax_plain_text ](set: &SyntaxSet) -> (syntax:
    &SyntaxReference)
    requires
        by_name(syntaxes(*set), "Plain Text"@) is Some,
    ensures
        *syntax == syntax_at(*set, by_name(syntaxes(*set), "Plain Text"@)->0),
;

/// Makes a set with [`SyntaxSetBuilder::add_plain_text_syntax`] and [`SyntaxSetBuilder::build`].
///
/// The set has one syntax, named `Plain Text`, for files that end in `txt`. Highlighting with it
/// comes to an end: its one pattern is the empty one that enters the main context, which has none.
#[verifier::external_body]
pub(crate) fn plain_text_set() -> (set: SyntaxSet)
    ensures
        syntaxes(set) == seq![("Plain Text"@, seq!["txt"@])],
        highlighting_ends(set),
{
    let mut builder = SyntaxSetBuilder::new();
    builder.add_plain_text_syntax();
    builder.build()
}

/// Calls [`ClassedHTMLGenerator::new_with_class_style`] with [`ClassStyle::Spaced`].
///
/// The generator was made with the set, the syntax and no prefix, and was given no line yet. The
/// call panics where the syntax has no context to start from.
#[verifier::external_body]
fn new_generator<'a>(syntax: &'a SyntaxReference, set: &'a SyntaxSet) -> (generator:
    ClassedHTMLGenerator<'a>)
    requires
        is_syntax_of(*set, *syntax),
        highlighting_ends(*set),
    ensures
        generator_setup(generator) == (*set, *syntax, None::<Seq<char>>),
        generator_lines(generator) == Seq::<Seq<char>>::empty(),
{
    ClassedHTMLGenerator::new_with_class_style(syntax, set, ClassStyle::Spaced)
}

/// Specifies [`ClassedHTMLGenerator::parse_html_for_line_which_includes_newline`]: the generator
/// is given one more line, also where the call fails. Whether it fails is a function of what the
/// generator was made with and of the lines, named [`line_parses`]. The call may panic or run for
/// ever where the syntax is not one of the set, or where highlighting with the set comes to no end.
pub assume_specification<'a>[ ClassedHTMLGenerator::<
    'a,
>::parse_html_for_line_which_includes_newline ](
    generator: &mut ClassedHTMLGenerator<'a>,
    line: &str,
) -> (parsed: Result<(), syntect::Error>)
    requires
        is_syntax_of(generator_setup(*old(generator)).0, generator_setup(*old(generator)).1),
        highlighting_ends(generator_setup(*old(generator)).0),
    ensures
        generator_setup(*final(generator)) == generator_setup(*old(generator)),
        generator_lines(*final(generator)) == generator_lines(*old(generator)).push(line@),
        parsed is Ok <==> line_parses(
            generator_setup(*old(generator)),
            generator_lines(*old(generator)),
            line@,
        ),
;

/// Specifies [`ClassedHTMLGenerator::finalize`]: the HTML is a function of what the generator was
/// made with and of the lines that it was given, named [`classed_html`].
pub assume_specification<'a>[ ClassedHTMLGenerator::<'a>::finalize ](
    generator: ClassedHTMLGenerator<'a>,
) -> (html: String)
    ensures
        html@ == classed_html(generator_setup(generator), generator_lines(generator)),
;

/// The position of the syntax for an extension: the last that has it, or else plain text.
pub open spec fn syntax_index(set: SyntaxSet, extension: Seq<char>) -> Option<int> {
    match by_extension(syntaxes(set), extension) {
        Some(i) => Some(i),
        None => by_name(syntaxes(set), "Plain Text"@),
    }
}

/// Whether a set has a syntax for an extension.
pub open spec fn can_highlight(set: SyntaxSet, extension: Seq<char>) -> bool {
    syntax_index(set, extension) is Some
}

/// What the generator for files with an extension is made with.
pub open spec fn setup_for(set: SyntaxSet, extension: Seq<char>) -> HtmlSetup {
    (set, syntax_at(set, syntax_index(set, extension)->0), None)
}

/// Whether a generator takes each of `lines` in turn.
pub open spec fn all_parse(setup: HtmlSetup, lines: Seq<Seq<char>>) -> bool {
    forall|i: int|
        0 <= i < lines.len() ==> #[trigger] line_parses(setup, lines.take(i), lines[i])
}

/// The HTML of one line of code in an element of its own.
pub open spec fn code_element(line: Seq<char>) -> Seq<char> {
    "<code>"@ + line + "</code>"@
}

/// HTML with an element opened before it, closed behind it, and closed and opened anew around
/// every newline.
pub open spec fn code_lines(html: Seq<char>) -> Seq<char> {
    code_element(replace_char(html, '\n', "</code>\n<code>"@))
}

/// The HTML of a file: each of its lines highlighted and in an element of its own.
pub open spec fn file_html(set: SyntaxSet, extension: Seq<char>, content: Seq<u8>) -> Result<
    Seq<char>,
    GitError,
> {
    let setup = setup_for(set, extension);
    let lines = lines_of(utf8_lossy(content));
    if all_parse(setup, lines) {
        Ok(code_lines(classed_html(setup, lines)))
    } else {
        Err(GitError::LineNotParsed)
    }
}

/// The HTML of one line of a diff.
pub open spec fn line_html(set: SyntaxSet, extension: Seq<char>, line: Seq<char>) -> Seq<char> {
    classed_html(setup_for(set, extension), seq![line])
}

proof fn lemma_by_extension_in_range(all: Seq<SyntaxEntry>, extension: Seq<char>)
    ensures
        by_extension(all, extension) matches Some(i) ==> 0 <= i < all.len() && has_extension(
            all[i],
            extension,
        ),
    decreases all.len(),
{
    if all.len() > 0 {
        lemma_by_extension_in_range(all.drop_last(), extension);
    }
}

proof fn lemma_by_name_in_range(all: Seq<SyntaxEntry>, name: Seq<char>)
    ensures
        by_name(all, name) matches Some(i) ==> 0 <= i < all.len() && all[i].0 == name,
    decreases all.len(),
{
    if all.len() > 0 {
        lemma_by_name_in_range(all.drop_last(), name);
    }
}

/// The syntax for an extension: the last of the set that has it, or else plain text.
fn find_syntax<'a>(set: &'a SyntaxSet, extension: &str) -> (syntax: &'a SyntaxReference)
    requires
        can_highlight(*set, extension@),
    ensures
        *syntax == syntax_at(*set, syntax_index(*set, extension@)->0),
        is_syntax_of(*set, *syntax),
{
    proof {
        lemma_by_extension_in_range(syntaxes(*set), extension@);
        lemma_by_name_in_range(syntaxes(*set), "Plain Text"@);
    }
    match set.find_syntax_by_extension(extension) {
        Some(found) => found,
        None => set.find_syntax_plain_text(),
    }
}

/// Whether a set has a syntax for an extension, be it plain text.
pub fn has_syntax(set: &SyntaxSet, extension: &str) -> (found: bool)
    ensures
        found == can_highlight(*set, extension@),
{
    set.find_syntax_by_extension(extension).is_some() || set.find_syntax_by_name(
        "Plain Text",
    ).is_some()
}

/// Puts each line of highlighted code into an element of its own.
pub fn wrap_code_lines(html: &str) -> (code: String)
    ensures
        code@ == code_lines(html@),
{
    let mut code = String::new();
    code.append("<code>");
    code.append(replace(html, '\n', "</code>\n<code>").as_str());
    code.append("</code>");
    proof {
        assert(code@ =~= code_lines(html@));
    }
    code
}

/// Highlights a file by the syntax for its extension and puts each line into an element of its
/// own. Bytes that are not UTF-8 are replaced first.
pub fn format_file(content: &[u8], extension: &str, syntax_set: &SyntaxSet) -> (html: Result<
    String,
    GitError,
>)
    requires
        can_highlight(*syntax_set, extension@),
        highlighting_ends(*syntax_set),
    ensures
        (match html {
            Ok(text) => file_html(*syntax_set, extension@, content@) == Ok::<_, GitError>(text@),
            Err(e) => file_html(*syntax_set, extension@, content@) == Err::<Seq<char>, _>(e),
        }),
        lossless(content@, utf8_lossy(content@)),
{
    let text = from_utf8_lossy(content);
    let syntax = find_syntax(syntax_set, extension);
    let mut generator = new_generator(syntax, syntax_set);
    let lines = lines_with_endings(text.as_str());
    let ghost setup = setup_for(*syntax_set, extension@);
    let ghost all = lines_of(text@);
    proof {
        assert(all.len() == lines@.len());
        assert(all.take(0) =~= seq![]);
    }
    let mut i: usize = 0;
    while i < lines.len()
        invariant
            i <= lines@.len(),
            all == lines@.map_values(|line: &str| line@),
            generator_setup(generator) == setup,
            is_syntax_of(setup.0, setup.1),
            highlighting_ends(setup.0),
            generator_lines(generator) == all.take(i as int),
            forall|j: int|
                0 <= j < i ==> #[trigger] line_parses(setup, all.take(j), all[j]),
            setup == setup_for(*syntax_set, extension@),
            all == lines_of(utf8_lossy(content@)),
            lossless(content@, utf8_lossy(content@)),
        decreases lines@.len() - i,
    {
        let line = lines[i];
        proof {
            assert(all[i as int] == line@);
            assert(all.take(i + 1) =~= all.take(i as int).push(line@));
        }
        match generator.parse_html_for_line_which_includes_newline(line) {
            Ok(()) => {},
            Err(_) => {
                return Err(GitError::LineNotParsed);
            },
        }
        i = i + 1;
    }
    proof {
        assert(all.take(i as int) =~= all);
    }
    Ok(wrap_code_lines(generator.finalize().as_str()))
}

/// Highlights one line by itself. A line that the syntax cannot parse is not an error.
pub fn highlight_line(line: &str, extension: &str, syntax_set: &SyntaxSet) -> (html: String)
    requires
        can_highlight(*syntax_set, extension@),
        highlighting_ends(*syntax_set),
    ensures
        html@ == line_html(*syntax_set, extension@, line@),
{
    let syntax = find_syntax(syntax_set, extension);
    let mut generator = new_generator(syntax, syntax_set);
    let _ = generator.parse_html_for_line_which_includes_newline(line);
    proof {
        assert(generator_lines(generator) =~= seq![line@]);
    }
    generator.finalize()
}

/// A set that has plain text has a syntax for every extension.
pub proof fn plain_text_highlights_all(set: SyntaxSet, extension: Seq<char>)
    requires
        by_name(syntaxes(set), "Plain Text"@) is Some,
    ensures
        can_highlight(set, extension),
{
}

/// The syntax for an extension has that extension or is plain text, and no later one has it.
pub proof fn syntax_has_extension(set: SyntaxSet, extension: Seq<char>)
    requires
        can_highlight(set, extension),
    ensures
        ({
            let index = syntax_index(set, extension)->0;
            &&& 0 <= index < syntaxes(set).len()
            &&& has_extension(syntaxes(set)[index], extension) || syntaxes(set)[index].0
                == "Plain Text"@
        }),
        (exists|i: int|
            0 <= i < syntaxes(set).len() && has_extension(#[trigger] syntaxes(set)[i], extension))
            ==> has_extension(syntaxes(set)[syntax_index(set, extension)->0], extension) && (forall|
            j: int,
        |
            syntax_index(set, extension)->0 < j < syntaxes(set).len() ==> !has_extension(
                #[trigger] syntaxes(set)[j],
                extension,
            )),
{
    lemma_by_extension_in_range(syntaxes(set), extension);
    lemma_by_name_in_range(syntaxes(set), "Plain Text"@);
    lemma_by_extension_is_last(syntaxes(set), extension);
}

proof fn lemma_by_extension_is_last(all: Seq<SyntaxEntry>, extension: Seq<char>)
    ensures
        by_extension(all, extension) is None ==> forall|j: int|
            0 <= j < all.len() ==> !has_extension(#[trigger] all[j], extension),
        by_extension(all, extension) matches Some(i) ==> forall|j: int|
            i < j < all.len() ==> !has_extension(#[trigger] all[j], extension),
    decreases all.len(),
{
    if all.len() > 0 && !has_extension(all.last(), extension) {
        let rest = all.drop_last();
        lemma_by_extension_is_last(rest, extension);
        lemma_by_extension_in_range(rest, extension);
        assert forall|j: int|
            (match by_extension(all, extension) {
                Some(i) => i < j,
                None => 0 <= j,
            }) && j < all.len() implies !has_extension(#[trigger] all[j], extension) by {
            if j < rest.len() {
                assert(rest[j] == all[j]);
            }
        }
    }
}

/// Wrapping code leaves its lines what and where they are: each line of the result is the line of
/// the code, in an element that opens and closes on that line.
pub proof fn code_lines_wrap_each_line(html: Seq<char>)
    ensures
        split_newlines(code_lines(html)) == split_newlines(html).map_values(
            |line: Seq<char>| code_element(line),
        ),
{
    let open = "<code>"@;
    let close = "</code>"@;
    reveal_strlit("<code>");
    reveal_strlit("</code>");
    lemma_split_opened(html);
    let body = open + replace_char(html, '\n', "</code>\n<code>"@);
    crate::text::lemma_split_append(body, close);
    assert(code_lines(html) =~= body + close);
    crate::text::lemma_split_not_empty(html);
    let pieces = split_newlines(html);
    assert(split_newlines(code_lines(html)) =~= pieces.map_values(
        |line: Seq<char>| code_element(line),
    ));
}

proof fn lemma_split_opened(html: Seq<char>)
    ensures
        split_newlines("<code>"@ + replace_char(html, '\n', "</code>\n<code>"@))
            == split_newlines(html).drop_last().map_values(
            |line: Seq<char>| code_element(line),
        ).push("<code>"@ + split_newlines(html).last()),
    decreases html.len(),
{
    let open = "<code>"@;
    let close = "</code>"@;
    let between = "</code>\n<code>"@;
    let wrap = |line: Seq<char>| code_element(line);
    reveal_strlit("<code>");
    reveal_strlit("</code>");
    reveal_strlit("</code>\n<code>");
    let whole = open + replace_char(html, '\n', between);
    let pieces = split_newlines(html);
    crate::text::lemma_split_not_empty(html);
    if html.len() == 0 {
        crate::text::lemma_split_append(seq![], open);
        assert(seq![] + open =~= open);
        assert(whole =~= open);
        assert(open + Seq::<char>::empty() =~= open);
        assert(split_newlines(whole) =~= pieces.drop_last().map_values(wrap).push(
            open + pieces.last(),
        ));
    } else {
        let front = html.drop_last();
        let c = html.last();
        let done = open + replace_char(front, '\n', between);
        let before = split_newlines(front);
        lemma_split_opened(front);
        crate::text::lemma_split_not_empty(front);
        if c == '\n' {
            let closed = done + close;
            crate::text::lemma_split_append(done, close);
            assert(split_newlines(closed) =~= before.map_values(wrap)) by {
                assert(before =~= before.drop_last().push(before.last()));
            }
            let ended = closed.push('\n');
            assert(ended.drop_last() =~= closed);
            crate::text::lemma_split_append(ended, open);
            assert(between =~= close.push('\n') + open);
            assert(whole =~= ended + open);
            assert(pieces.drop_last() =~= before);
            assert(Seq::<char>::empty() + open =~= open);
            assert(open + Seq::<char>::empty() =~= open);
            assert(split_newlines(whole) =~= pieces.drop_last().map_values(wrap).push(
                open + pieces.last(),
            ));
        } else {
            assert(whole =~= done.push(c));
            assert(whole.drop_last() =~= done);
            assert(pieces.drop_last() =~= before.drop_last());
            assert((open + before.last()).push(c) =~= open + before.last().push(c));
            assert(split_newlines(whole) =~= pieces.drop_last().map_values(wrap).push(
                open + pieces.last(),
            ));
        }
    }
}

/// There is a syntax for an extension exactly where one of the set has the extension or is plain
/// text.
pub proof fn syntaxes_that_serve(set: SyntaxSet, extension: Seq<char>)
    ensures
        can_highlight(set, extension) <==> exists|i: int|
            0 <= i < syntaxes(set).len() && (has_extension(#[trigger] syntaxes(set)[i], extension)
                || syntaxes(set)[i].0 == "Plain Text"@),
{
    let all = syntaxes(set);
    lemma_by_extension_in_range(all, extension);
    lemma_by_extension_is_last(all, extension);
    lemma_by_name_in_range(all, "Plain Text"@);
    lemma_by_name_is_last(all, "Plain Text"@);
    if can_highlight(set, extension) {
        let index = syntax_index(set, extension)->0;
        assert(has_extension(all[index], extension) || all[index].0 == "Plain Text"@);
    }
}

proof fn lemma_by_name_is_last(all: Seq<SyntaxEntry>, name: Seq<char>)
    ensures
        by_name(all, name) is None ==> forall|j: int|
            0 <= j < all.len() ==> (#[trigger] all[j]).0 != name,
        by_name(all, name) matches Some(i) ==> forall|j: int|
            i < j < all.len() ==> (#[trigger] all[j]).0 != name,
    decreases all.len(),
{
    if all.len() > 0 && all.last().0 != name {
        let rest = all.drop_last();
        lemma_by_name_is_last(rest, name);
        lemma_by_name_in_range(rest, name);
        assert forall|j: int|
            (match by_name(all, name) {
                Some(i) => i < j,
                None => 0 <= j,
            }) && j < all.len() implies (#[trigger] all[j]).0 != name by {
            if j < rest.len() {
                assert(rest[j] == all[j]);
            }
        }
    }
}

/// The last syntax that has an extension is the one for it; where none has it, the last that is
/// plain text is.
pub proof fn syntax_is_determined(set: SyntaxSet, extension: Seq<char>, index: int)
    requires
        0 <= index < syntaxes(set).len(),
        ({
            ||| has_extension(syntaxes(set)[index], extension) && (forall|j: int|
                index < j < syntaxes(set).len() ==> !has_extension(
                    #[trigger] syntaxes(set)[j],
                    extension,
                ))
            ||| syntaxes(set)[index].0 == "Plain Text"@ && (forall|j: int|
                0 <= j < syntaxes(set).len() ==> !has_extension(
                    #[trigger] syntaxes(set)[j],
                    extension,
                )) && (forall|j: int|
                index < j < syntaxes(set).len() ==> (#[trigger] syntaxes(set)[j]).0
                    != "Plain Text"@)
        }),
    ensures
        can_highlight(set, extension),
        syntax_index(set, extension) == Some(index),
{
    let all = syntaxes(set);
    lemma_by_extension_in_range(all, extension);
    lemma_by_extension_is_last(all, extension);
    lemma_by_name_in_range(all, "Plain Text"@);
    lemma_by_name_is_last(all, "Plain Text"@);
    match by_extension(all, extension) {
        Some(i) => {
            assert(has_extension(all[i], extension));
        },
        None => {
            match by_name(all, "Plain Text"@) {
                Some(i) => {
                    assert(all[i].0 == "Plain Text"@);
                },
                None => {
                    assert(all[index].0 != "Plain Text"@);
                },
            }
        },
    }
}

/// A file is shown whole, by one run of the syntax for its extension over its lines. However its
/// decoded text is cut into pieces that are not empty, in which a newline only ends a piece and
/// ends every piece but the last: the file is shown exactly where the syntax parses each piece
/// behind those before it, and what is shown is the HTML of all these pieces in that order, with
/// each line of it in an element of its own.
pub proof fn file_is_shown_whole(
    set: SyntaxSet,
    extension: Seq<char>,
    content: Seq<u8>,
    index: int,
    pieces: Seq<Seq<char>>,
)
    requires
        0 <= index < syntaxes(set).len(),
        ({
            ||| has_extension(syntaxes(set)[index], extension) && (forall|j: int|
                index < j < syntaxes(set).len() ==> !has_extension(
                    #[trigger] syntaxes(set)[j],
                    extension,
                ))
            ||| syntaxes(set)[index].0 == "Plain Text"@ && (forall|j: int|
                0 <= j < syntaxes(set).len() ==> !has_extension(
                    #[trigger] syntaxes(set)[j],
                    extension,
                )) && (forall|j: int|
                index < j < syntaxes(set).len() ==> (#[trigger] syntaxes(set)[j]).0
                    != "Plain Text"@)
        }),
        pieces.flatten() == utf8_lossy(content),
        forall|i: int|
            0 <= i < pieces.len() ==> (#[trigger] pieces[i]).len() > 0
                && !pieces[i].drop_last().contains('\n') && (i + 1 < pieces.len()
                ==> pieces[i].last() == '\n'),
    ensures
        ({
            let setup = (set, syntax_at(set, index), None::<Seq<char>>);
            let shown = file_html(set, extension, content);
            &&& shown is Ok <==> forall|i: int|
                0 <= i < pieces.len() ==> #[trigger] line_parses(setup, pieces.take(i), pieces[i])
            &&& shown matches Ok(html) ==> html == code_lines(classed_html(setup, pieces))
            &&& shown matches Err(e) ==> e == GitError::LineNotParsed
        }),
{
    syntax_is_determined(set, extension, index);
    crate::text::lines_are_unique(utf8_lossy(content), pieces);
}

/// A line by itself is shown as what a new run of the syntax for the extension makes of this line
/// alone, whether the syntax parses it or not.
pub proof fn line_is_shown_alone(
    set: SyntaxSet,
    extension: Seq<char>,
    line: Seq<char>,
    index: int,
)
    requires
        0 <= index < syntaxes(set).len(),
        ({
            ||| has_extension(syntaxes(set)[index], extension) && (forall|j: int|
                index < j < syntaxes(set).len() ==> !has_extension(
                    #[trigger] syntaxes(set)[j],
                    extension,
                ))
            ||| syntaxes(set)[index].0 == "Plain Text"@ && (forall|j: int|
                0 <= j < syntaxes(set).len() ==> !has_extension(
                    #[trigger] syntaxes(set)[j],
                    extension,
                )) && (forall|j: int|
                index < j < syntaxes(set).len() ==> (#[trigger] syntaxes(set)[j]).0
                    != "Plain Text"@)
        }),
    ensures
        line_html(set, extension, line) == classed_html(
            (set, syntax_at(set, index), None::<Seq<char>>),
            seq![line],
        ),
{
    syntax_is_determined(set, extension, index);
}

/// Code without a newline is put into one element. Code is wrapped line by line: wrapping two parts
/// of it that a newline separates is wrapping each, with the newline between them.
pub proof fn code_is_wrapped_by_lines(a: Seq<char>, b: Seq<char>)
    ensures
        !a.contains('\n') ==> code_lines(a) == "<code>"@ + a + "</code>"@,
        code_lines(a.push('\n') + b) == code_lines(a).push('\n') + code_lines(b),
{
    let between = "</code>\n<code>"@;
    reveal_strlit("<code>");
    reveal_strlit("</code>");
    reveal_strlit("</code>\n<code>");
    crate::text::replacement_by_parts(a, seq![], '\n', between);
    crate::text::replacement_by_parts(a.push('\n'), b, '\n', between);
    assert(a.push('\n').drop_last() =~= a);
    assert(between =~= "</code>"@.push('\n') + "<code>"@);
    assert(code_lines(a.push('\n') + b) =~= code_lines(a).push('\n') + code_lines(b));
}

/// Cutting at newlines: a text without one is one piece, and the pieces of two texts with a newline
/// between them are those of the first and then those of the second.
pub proof fn newlines_cut(a: Seq<char>, b: Seq<char>)
    ensures
        !a.contains('\n') ==> split_newlines(a) == seq![a],
        split_newlines(a.push('\n') + b) == split_newlines(a) + split_newlines(b),
    decreases b.len(),
{
    if !a.contains('\n') {
        crate::text::lemma_split_append(seq![], a);
        assert(Seq::<char>::empty() + a =~= a);
        assert(split_newlines(a) =~= seq![a]);
    }
    let front = a.push('\n');
    assert(front.drop_last() =~= a);
    crate::text::lemma_split_not_empty(b);
    if b.len() == 0 {
        assert(front + b =~= front);
        assert(split_newlines(front) =~= split_newlines(a) + split_newlines(b));
    } else {
        newlines_cut(a, b.drop_last());
        crate::text::lemma_split_not_empty(b.drop_last());
        assert((front + b).drop_last() =~= front + b.drop_last());
        assert(split_newlines(front + b) =~= split_newlines(a) + split_newlines(b));
    }
}

/// Two texts are the same but for case exactly where they are as long as each other and differ, if
/// at all, where both have the same letter of ASCII in different cases. A syntax has the extensions
/// that it lists, in any case.
pub proof fn case_does_not_count(a: Seq<char>, b: Seq<char>, name: Seq<char>)
    ensures
        same_but_for_case(a, b) <==> a.len() == b.len() && forall|i: int|
            0 <= i < a.len() ==> (#[trigger] a[i] == b[i] || ('A' <= a[i] <= 'Z' && b[i] as int
                == a[i] as int + 32) || ('A' <= b[i] <= 'Z' && a[i] as int == b[i] as int + 32)),
        has_extension((name, seq![a]), b) <==> same_but_for_case(a, b),
        !has_extension((name, seq![]), b),
        forall|front: Seq<Seq<char>>, back: Seq<Seq<char>>|
            has_extension((name, #[trigger] (front + back)), b) <==> has_extension((name, front), b)
                || has_extension((name, back), b),
{
    assert forall|front: Seq<Seq<char>>, back: Seq<Seq<char>>|
        has_extension((name, #[trigger] (front + back)), b) <==> has_extension((name, front), b)
            || has_extension((name, back), b) by {
        lemma_has_extension_of_parts(name, front, back, b);
    }
    let low_a = a.map_values(|c: char| ascii_lowercase(c));
    let low_b = b.map_values(|c: char| ascii_lowercase(c));
    if same_but_for_case(a, b) {
        assert(low_a.len() == low_b.len());
        assert forall|i: int| 0 <= i < a.len() implies (#[trigger] a[i] == b[i] || ('A' <= a[i]
            <= 'Z' && b[i] as int == a[i] as int + 32) || ('A' <= b[i] <= 'Z' && a[i] as int
            == b[i] as int + 32)) by {
            assert(low_a[i] == low_b[i]);
        }
    } else if a.len() == b.len() {
        assert(!(low_a =~= low_b));
        let i = choose|i: int| 0 <= i < low_a.len() && low_a[i] != low_b[i];
        assert(low_a[i] != low_b[i]);
        assert(low_a[i] == ascii_lowercase(a[i]) && low_b[i] == ascii_lowercase(b[i]));
        assert(a[i] != b[i]);
    }
    let entry: SyntaxEntry = (name, seq![a]);
    assert(entry.1[0] == a);
}

proof fn lemma_has_extension_of_parts(
    name: Seq<char>,
    front: Seq<Seq<char>>,
    back: Seq<Seq<char>>,
    extension: Seq<char>,
)
    ensures
        has_extension((name, front + back), extension) <==> has_extension((name, front), extension)
            || has_extension((name, back), extension),
{
    let first: SyntaxEntry = (name, front);
    let second: SyntaxEntry = (name, back);
    let whole: SyntaxEntry = (name, front + back);
    if has_extension(whole, extension) {
        let i = choose|i: int|
            0 <= i < whole.1.len() && same_but_for_case(#[trigger] whole.1[i], extension);
        if i < front.len() {
            assert(first.1[i] == whole.1[i]);
        } else {
            assert(second.1[i - front.len()] == whole.1[i]);
        }
    }
    if has_extension(first, extension) {
        let i = choose|i: int|
            0 <= i < first.1.len() && same_but_for_case(#[trigger] first.1[i], extension);
        assert(whole.1[i] == first.1[i]);
    }
    if has_extension(second, extension) {
        let i = choose|i: int|
            0 <= i < second.1.len() && same_but_for_case(#[trigger] second.1[i], extension);
        assert(whole.1[front.len() + i] == second.1[i]);
    }
}

} // verus!
