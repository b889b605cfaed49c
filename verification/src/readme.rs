//! The readme of a repository.
use vstd::prelude::*;
use comrak::{ComrakOptions, ComrakPlugins};

use crate::error::GitError;
use crate::paths::extension;
use crate::text::from_utf8;

verus! {

use vstd::string::StringSliceAdditionalSpecFns;
use vstd::utf8::{decode_utf8, encode_utf8, valid_utf8};
use crate::paths::extension_of;

/// The plugins of comrak.
#[verifier::external_type_specification]
#[verifier::external_body]
pub struct ExComrakPlugins<'p>(ComrakPlugins<'p>);

/// How a readme is shown.
#[derive(Copy, Clone, Debug, PartialEq, Eq, Structural)]
pub enum ReadmeFormat {
    /// As HTML made of Markdown.
    Markdown,
    /// As it is.
    Plaintext,
}

/// What came of reading the tree of HEAD.
#[derive(Clone, Copy, Debug, PartialEq, Eq, Structural)]
pub enum HeadTreeRead {
    /// The repository has no HEAD.
    NoHead,
    /// HEAD leads to no commit.
    NoCommit,
    /// The commit has no tree.
    NoTree,
    /// The tree was read.
    Read,
}

/// A search for a readme that has come to one of the names that a readme may have.
#[derive(Debug)]
pub struct ReadmeSearch {
    position: usize,
}

/// A readme that was found.
#[derive(Debug)]
pub struct ReadmeSource {
    /// How it is shown.
    pub format: ReadmeFormat,
    /// Its text.
    pub text: String,
}

/// What a search does next.
#[derive(Debug)]
pub enum ReadmeStep {
    /// It ends with a readme.
    Found(ReadmeSource),
    /// It tries another name.
    Next(ReadmeSearch),
    /// It ends without a readme.
    NotFound,
}

/// How many names a readme may have.
pub const README_FILE_COUNT: usize = 3;

/// The names that a readme may have, in the order in which they are tried.
pub open spec fn readme_files() -> Seq<Seq<char>> {
    seq!["README.md"@, "README"@, "README.txt"@]
}

/// How a file with a name is shown: as Markdown where its extension is `md`.
pub open spec fn format_of(name: Seq<char>) -> ReadmeFormat {
    if extension_of(encode_utf8(name)) == Some(encode_utf8("md"@)) {
        ReadmeFormat::Markdown
    } else {
        ReadmeFormat::Plaintext
    }
}

/// Whether what was read under a name is a file with text in it.
pub open spec fn is_readable(blob: Option<Seq<u8>>) -> bool {
    blob matches Some(content) && valid_utf8(content)
}

/// The contents that were read under a name, if a file was.
pub open spec fn contents(blob: Option<&[u8]>) -> Option<Seq<u8>> {
    match blob {
        Some(content) => Some(content@),
        None => None,
    }
}

/// What a [`ReadmeStep`] says.
pub enum ReadmeStepModel {
    /// The search ends with a readme.
    Found(ReadmeFormat, Seq<char>),
    /// The search goes on with the name at a position.
    Next(int),
    /// The search ends without a readme.
    NotFound,
}

impl View for ReadmeStep {
    type V = ReadmeStepModel;

    open spec fn view(&self) -> ReadmeStepModel {
        match self {
            ReadmeStep::Found(source) => ReadmeStepModel::Found(source.format, source.text@),
            ReadmeStep::Next(search) => ReadmeStepModel::Next(search.at()),
            ReadmeStep::NotFound => ReadmeStepModel::NotFound,
        }
    }
}

/// What a search does with what was read under the name at a position: it ends where that is
/// text, and goes on with the next name, if there is one, where it is not.
pub open spec fn step_of(at: int, blob: Option<Seq<u8>>) -> ReadmeStepModel {
    if is_readable(blob) {
        ReadmeStepModel::Found(format_of(readme_files()[at]), decode_utf8(blob->0))
    } else if at + 1 < readme_files().len() {
        ReadmeStepModel::Next(at + 1)
    } else {
        ReadmeStepModel::NotFound
    }
}

/// What a search ends with that has come to a position, in a tree with `blobs` under the names.
pub open spec fn search_from(at: int, blobs: Seq<Option<Seq<u8>>>) -> Option<
    (ReadmeFormat, Seq<char>),
>
    decreases readme_files().len() - at,
{
    match step_of(at, blobs[at]) {
        ReadmeStepModel::Found(format, text) => Some((format, text)),
        ReadmeStepModel::Next(next) => if at < next < readme_files().len() {
            search_from(next, blobs)
        } else {
            None
        },
        ReadmeStepModel::NotFound => None,
    }
}

/// The contents that were read under each of the names.
pub open spec fn all_contents(blobs: Seq<Option<Vec<u8>>>) -> Seq<Option<Seq<u8>>> {
    blobs.map_values(
        |blob: Option<Vec<u8>>|
            match blob {
                Some(content) => Some(content@),
                None => None,
            },
    )
}

impl ReadmeSearch {
    /// The position of the name that the search has come to.
    pub closed spec fn at(&self) -> int {
        self.position as int
    }

    /// Whether the search has come to one of the names.
    pub open spec fn wf(&self) -> bool {
        0 <= self.at() < readme_files().len()
    }

    /// Starts a search in the tree of HEAD.
    pub fn start(read: HeadTreeRead) -> (search: Result<ReadmeSearch, GitError>)
        ensures
            search is Ok <==> read is Read,
            search matches Ok(started) ==> started.wf() && started.at() == 0,
            search matches Err(e) ==> e == match read {
                HeadTreeRead::NoHead => GitError::NoHead,
                HeadTreeRead::NoCommit => GitError::NoReadmeCommit,
                _ => GitError::NoHeadTree,
            },
    {
        match read {
            HeadTreeRead::NoHead => Err(GitError::NoHead),
            HeadTreeRead::NoCommit => Err(GitError::NoReadmeCommit),
            HeadTreeRead::NoTree => Err(GitError::NoHeadTree),
            HeadTreeRead::Read => Ok(ReadmeSearch { position: 0 }),
        }
    }

    /// The name of the file that is to be read next.
    pub fn candidate(&self) -> (name: &'static str)
        requires
            self.wf(),
        ensures
            name@ == readme_files()[self.at()],
    {
        if self.position == 0 {
            "README.md"
        } else if self.position == 1 {
            "README"
        } else {
            "README.txt"
        }
    }

    /// Goes on with the contents of the file under the name that the search has come to, or with
    /// none where there is no such file. What is not text is passed over.
    pub fn offer(self, blob: Option<&[u8]>) -> (step: ReadmeStep)
        requires
            self.wf(),
        ensures
            step@ == step_of(self.at(), contents(blob)),
            step matches ReadmeStep::Next(search) ==> search.wf(),
    {
        if let Some(content) = blob {
            if let Some(text) = from_utf8(content) {
                return ReadmeStep::Found(
                    ReadmeSource { format: format_by_name(self.candidate()), text: text.to_owned() },
                );
            }
        }
        if self.position + 1 < README_FILE_COUNT {
            ReadmeStep::Next(ReadmeSearch { position: self.position + 1 })
        } else {
            ReadmeStep::NotFound
        }
    }

    /// Takes the search to its end, given what is under each of the names.
    pub fn finish(self, blobs: &[Option<Vec<u8>>; 3]) -> (found: Option<ReadmeSource>)
        requires
            self.wf(),
        ensures
            (match found {
                Some(source) => search_from(self.at(), all_contents(blobs@)) == Some(
                    (source.format, source.text@),
                ),
                None => search_from(self.at(), all_contents(blobs@)) is None,
            }),
    {
        let ghost all = all_contents(blobs@);
        let ghost answer = search_from(self.at(), all);
        let mut search = self;
        loop
            invariant
                search.wf(),
                all == all_contents(blobs@),
                answer == search_from(self.at(), all),
                answer == search_from(search.at(), all),
            decreases readme_files().len() - search.at(),
        {
            let blob: Option<&[u8]> = match &blobs[search.position] {
                Some(content) => Some(content.as_slice()),
                None => None,
            };
            proof {
                assert(contents(blob) == all[search.at()]);
            }
            match search.offer(blob) {
                ReadmeStep::Found(source) => return Some(source),
                ReadmeStep::Next(next) => {
                    search = next;
                },
                ReadmeStep::NotFound => return None,
            }
        }
    }
}

/// How a file with a name is shown.
pub fn format_by_name(name: &str) -> (format: ReadmeFormat)
    ensures
        format == format_of(name@),
{
    let wanted = "md".as_bytes();
    match extension(name.as_bytes()) {
        Some(found) => {
            if same_bytes(found, wanted) {
                ReadmeFormat::Markdown
            } else {
                ReadmeFormat::Plaintext
            }
        },
        None => ReadmeFormat::Plaintext,
    }
}

/// Whether two slices hold the same bytes.
fn same_bytes(a: &[u8], b: &[u8]) -> (same: bool)
    ensures
        same == (a@ == b@),
{
    if a.len() != b.len() {
        return false;
    }
    let mut i: usize = 0;
    while i < a.len()
        invariant
            i <= a@.len(),
            a@.len() == b@.len(),
            a@.take(i as int) == b@.take(i as int),
        decreases a@.len() - i,
    {
        if a[i] != b[i] {
            return false;
        }
        proof {
            assert(a@.take(i + 1) =~= a@.take(i as int).push(a@[i as int]));
            assert(b@.take(i + 1) =~= b@.take(i as int).push(b@[i as int]));
        }
        i = i + 1;
    }
    proof {
        assert(a@.take(i as int) =~= a@);
        assert(b@.take(i as int) =~= b@);
    }
    true
}

/// Whether `html` is something that rendering `text` as Markdown with plugins may give. More than
/// one text may be: the plugins highlight the code in the text, and need not do it the same way
/// every time.
pub uninterp spec fn renders_to(
    text: Seq<char>,
    plugins: ComrakPlugins,
    html: Seq<char>,
) -> bool;

/// Whether no call of a plugin panics or runs for ever.
pub uninterp spec fn plugins_end(plugins: ComrakPlugins) -> bool;

/// Specifies the default of [`ComrakPlugins`]: there is no plugin, so no call of
/// one panics or runs for ever.
pub assume_specification<'p>[ <ComrakPlugins<'p> as Default>::default ]() -> (plugins:
    ComrakPlugins<'p>)
    ensures
        plugins_end(plugins),
;

/// No plugins.
pub fn no_plugins<'p>() -> (plugins: ComrakPlugins<'p>)
    ensures
        plugins_end(plugins),
{
    ComrakPlugins::default()
}

/// Calls [`comrak::markdown_to_html_with_plugins`] with the default options.
///
/// The HTML is one that this call may give for the text and the plugins, which is what
/// [`renders_to`] names; nothing else is claimed of it. A plugin that panics makes the call panic,
/// and one that runs for ever makes it run for ever.
#[verifier::external_body]
fn parse_and_transform_markdown(text: &str, plugins: &ComrakPlugins<'_>) -> (html: String)
    requires
        plugins_end(*plugins),
    ensures
        renders_to(text@, *plugins, html@),
{
    comrak::markdown_to_html_with_plugins(text, &ComrakOptions::default(), plugins)
}

impl ReadmeSource {
    /// The readme as it is shown, given the HTML of its text: Markdown is shown as the HTML, plain
    /// text as it is.
    pub fn with_html(self, html: String) -> (readme: (ReadmeFormat, String))
        ensures
            readme.0 == self.format,
            readme.1@ == (if self.format is Markdown {
                html@
            } else {
                self.text@
            }),
    {
        match self.format {
            ReadmeFormat::Markdown => (ReadmeFormat::Markdown, html),
            ReadmeFormat::Plaintext => (ReadmeFormat::Plaintext, self.text),
        }
    }

    /// The readme as it is shown. Markdown is turned into HTML; plain text is left as it is.
    pub fn render(self, plugins: &ComrakPlugins<'_>) -> (readme: (ReadmeFormat, String))
        requires
            self.format is Markdown ==> plugins_end(*plugins),
        ensures
            readme.0 == self.format,
            self.format is Markdown ==> renders_to(self.text@, *plugins, readme.1@),
            self.format is Plaintext ==> readme.1@ == self.text@,
    {
        match self.format {
            ReadmeFormat::Markdown => {
                let html = parse_and_transform_markdown(self.text.as_str(), plugins);
                self.with_html(html)
            },
            ReadmeFormat::Plaintext => (ReadmeFormat::Plaintext, self.text),
        }
    }
}

/// A search ends with the first of the names under which there is text, and without a readme only
/// where there is text under none of them.
pub proof fn search_finds_first(blobs: Seq<Option<Seq<u8>>>)
    requires
        blobs.len() == readme_files().len(),
    ensures
        search_from(0, blobs) is None <==> forall|i: int|
            0 <= i < blobs.len() ==> !is_readable(#[trigger] blobs[i]),
        forall|i: int|
            0 <= i < blobs.len() && is_readable(#[trigger] blobs[i]) && (forall|j: int|
                0 <= j < i ==> !is_readable(#[trigger] blobs[j])) ==> search_from(0, blobs)
                == Some((format_of(readme_files()[i]), decode_utf8(blobs[i]->0))),
{
    lemma_search_from(0, blobs);
}

proof fn lemma_search_from(at: int, blobs: Seq<Option<Seq<u8>>>)
    requires
        blobs.len() == readme_files().len(),
        0 <= at < readme_files().len(),
    ensures
        search_from(at, blobs) is None <==> forall|i: int|
            at <= i < blobs.len() ==> !is_readable(#[trigger] blobs[i]),
        forall|i: int|
            at <= i < blobs.len() && is_readable(#[trigger] blobs[i]) && (forall|j: int|
                at <= j < i ==> !is_readable(#[trigger] blobs[j])) ==> search_from(at, blobs)
                == Some((format_of(readme_files()[i]), decode_utf8(blobs[i]->0))),
    decreases readme_files().len() - at,
{
    if !is_readable(blobs[at]) && at + 1 < readme_files().len() {
        lemma_search_from(at + 1, blobs);
    }
}

/// Only a readme under the first of the names is shown as Markdown.
pub proof fn first_name_is_markdown(at: int)
    requires
        0 <= at < readme_files().len(),
    ensures
        format_of(readme_files()[at]) is Markdown <==> at == 0,
{
    reveal_strlit("README.md");
    reveal_strlit("README");
    reveal_strlit("README.txt");
    reveal_strlit("md");
    let name = readme_files()[at];
    let bytes = encode_utf8(name);
    vstd::utf8::is_ascii_chars_encode_utf8(name);
    vstd::utf8::is_ascii_chars_encode_utf8("md"@);
    assert(bytes =~= Seq::new(name.len(), |i: int| name[i] as u8));
    let dot = if at == 1 { -1 } else { 6int };
    assert(bytes.len() == if at == 0 { 9 } else if at == 1 { 6 } else { 10int });
    crate::paths::lemma_last_position_unique(bytes, crate::paths::SEPARATOR, -1);
    crate::paths::lemma_last_position_unique(bytes, crate::paths::DOT, dot);
    assert(bytes.skip(0) =~= bytes);
    if at != 1 {
        let found = bytes.skip(7);
        assert(extension_of(bytes) == Some(found));
        let wanted = encode_utf8("md"@);
        assert(wanted.len() == 2);
        if at == 0 {
            assert(found =~= wanted);
        } else {
            assert(found.len() == 3);
        }
    }
}

/// The readme is the first of `README.md`, `README` and `README.txt` under which there is UTF-8
/// text, and its text encodes to just the bytes that were read there. Only the first of them is
/// shown as Markdown. There is none exactly where there is text under none of the names. A search
/// that has come to a later name finds what one from the start finds without the names before.
pub proof fn readme_is_the_first_text(
    first: Option<Seq<u8>>,
    second: Option<Seq<u8>>,
    third: Option<Seq<u8>>,
)
    ensures
        readme_files() == seq!["README.md"@, "README"@, "README.txt"@],
        ({
            let is_text = |blob: Option<Seq<u8>>| blob matches Some(bytes) && valid_utf8(bytes);
            let found = search_from(0, seq![first, second, third]);
            let wanted = if is_text(first) {
                first
            } else if is_text(second) {
                second
            } else {
                third
            };
            &&& found is None <==> !is_text(first) && !is_text(second) && !is_text(third)
            &&& found matches Some((format, text)) ==> {
                &&& Some(encode_utf8(text)) == wanted
                &&& text == decode_utf8(wanted->0)
                &&& format is Markdown <==> is_text(first)
            }
            &&& search_from(1, seq![first, second, third]) == search_from(
                0,
                seq![None, second, third],
            )
            &&& search_from(2, seq![first, second, third]) == search_from(
                0,
                seq![None, None, third],
            )
        }),
{
    let blobs = seq![first, second, third];
    search_finds_first(blobs);
    first_name_is_markdown(0);
    first_name_is_markdown(1);
    first_name_is_markdown(2);
    assert(blobs[0] == first && blobs[1] == second && blobs[2] == third);
    reveal_with_fuel(search_from, 4);
    assert forall|i: int| 0 <= i < 3 && is_readable(#[trigger] blobs[i]) implies Some(
        encode_utf8(decode_utf8(blobs[i]->0)),
    ) == blobs[i] by {
        vstd::utf8::decode_utf8_encode_utf8(blobs[i]->0);
    }
}

/// One step of a search ends it exactly where the name holds UTF-8 text, with that text; else it
/// goes on with the very next name, and ends without a readme behind the last of the three.
pub proof fn steps_of_a_search(at: int, blob: Option<Seq<u8>>)
    requires
        0 <= at < 3,
    ensures
        step_of(at, blob) is Found <==> (blob matches Some(bytes) && valid_utf8(bytes)),
        step_of(at, blob) matches ReadmeStepModel::Found(format, text) ==> blob == Some(
            encode_utf8(text),
        ) && (format is Markdown <==> at == 0),
        step_of(at, blob) matches ReadmeStepModel::Next(next) ==> next == at + 1 && next < 3,
        step_of(at, blob) is NotFound ==> at == 2,
{
    first_name_is_markdown(at);
    if let Some(bytes) = blob {
        if valid_utf8(bytes) {
            vstd::utf8::decode_utf8_encode_utf8(bytes);
        }
    }
}

/// A file is shown as Markdown exactly where the extension of its name is the bytes of `md`.
pub proof fn markdown_goes_by_extension(name: Seq<char>)
    ensures
        format_of(name) is Markdown <==> extension_of(encode_utf8(name)) == Some(
            seq![0x6du8, 0x64u8],
        ),
{
    reveal_strlit("md");
    vstd::utf8::is_ascii_chars_encode_utf8("md"@);
    assert(encode_utf8("md"@) =~= seq![0x6du8, 0x64u8]);
}

/// What a step says is what it holds, and what was read is read as it is.
pub proof fn steps_say_their_fields(
    source: ReadmeSource,
    search: ReadmeSearch,
    blob: Option<&[u8]>,
    blobs: Seq<Option<Vec<u8>>>,
)
    ensures
        ReadmeStep::Found(source)@ == ReadmeStepModel::Found(source.format, source.text@),
        ReadmeStep::Next(search)@ == ReadmeStepModel::Next(search.at()),
        ReadmeStep::NotFound@ is NotFound,
        search.wf() <==> 0 <= search.at() < 3,
        blob matches Some(bytes) ==> contents(blob) == Some(bytes@),
        blob is None ==> contents(blob) is None,
        all_contents(blobs).len() == blobs.len(),
        forall|i: int|
            0 <= i < blobs.len() ==> (match blobs[i] {
                Some(bytes) => #[trigger] all_contents(blobs)[i] == Some(bytes@),
                None => all_contents(blobs)[i] is None,
            }),
{
}

} // verus!
