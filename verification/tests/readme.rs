use rgit::error::GitError;
use rgit::readme::{
    format_by_name, no_plugins, HeadTreeRead, ReadmeFormat, ReadmeSearch, ReadmeSource, ReadmeStep,
};

fn search(blobs: [Option<&[u8]>; 3]) -> (Vec<&'static str>, Option<(ReadmeFormat, String)>) {
    let mut names = vec![];
    let mut state = ReadmeSearch::start(HeadTreeRead::Read).unwrap();
    for blob in blobs {
        names.push(state.candidate());
        match state.offer(blob) {
            ReadmeStep::Found(source) => return (names, Some((source.format, source.text))),
            ReadmeStep::Next(next) => state = next,
            ReadmeStep::NotFound => return (names, None),
        }
    }
    panic!("the search goes on behind the last name");
}

#[test]
fn names_are_tried_in_order() {
    let (names, found) = search([None, None, None]);
    assert_eq!(names, ["README.md", "README", "README.txt"]);
    assert_eq!(found, None);
}

#[test]
fn first_readme_is_taken() {
    let all = search([Some(&b"# a"[..]), Some(&b"b"[..]), Some(&b"c"[..])]);
    assert_eq!(all, (vec!["README.md"], Some((ReadmeFormat::Markdown, "# a".to_string()))));
    let plain = search([None, Some(&b"b"[..]), Some(&b"c"[..])]);
    assert_eq!(plain.1, Some((ReadmeFormat::Plaintext, "b".to_string())));
    let text = search([None, None, Some(&b"c"[..])]);
    assert_eq!(text.1, Some((ReadmeFormat::Plaintext, "c".to_string())));
}

#[test]
fn what_is_not_utf8_is_passed_over() {
    let found = search([Some(&b"\xff"[..]), None, Some("\u{e9}".as_bytes())]);
    assert_eq!(found.1, Some((ReadmeFormat::Plaintext, "\u{e9}".to_string())));
    let none = search([Some(&b"\xff"[..]), Some(&b"\xc3"[..]), Some(&b"\xed\xa0\x80"[..])]);
    assert_eq!(none.1, None);
}

#[test]
fn empty_readme_is_a_readme() {
    let found = search([Some(&b""[..]), Some(&b"b"[..]), None]);
    assert_eq!(found.1, Some((ReadmeFormat::Markdown, String::new())));
}

#[test]
fn tree_that_is_not_read_is_reported() {
    let error = |read| ReadmeSearch::start(read).unwrap_err();
    assert_eq!(error(HeadTreeRead::NoHead), GitError::NoHead);
    assert_eq!(error(HeadTreeRead::NoCommit), GitError::NoReadmeCommit);
    assert_eq!(error(HeadTreeRead::NoTree), GitError::NoHeadTree);
}

#[test]
fn extension_gives_the_format() {
    assert_eq!(format_by_name("README.md"), ReadmeFormat::Markdown);
    assert_eq!(format_by_name("README"), ReadmeFormat::Plaintext);
    assert_eq!(format_by_name("README.txt"), ReadmeFormat::Plaintext);
    assert_eq!(format_by_name("README.MD"), ReadmeFormat::Plaintext);
    assert_eq!(format_by_name(".md"), ReadmeFormat::Plaintext);
    assert_eq!(format_by_name("md"), ReadmeFormat::Plaintext);
}

#[test]
fn markdown_is_rendered() {
    let source = ReadmeSource { format: ReadmeFormat::Markdown, text: "# Hi *you*".to_string() };
    let (format, html) = source.render(&no_plugins());
    assert_eq!(format, ReadmeFormat::Markdown);
    assert_eq!(html, "<h1>Hi <em>you</em></h1>\n");
}

#[test]
fn plain_text_is_left_as_it_is() {
    let source = ReadmeSource { format: ReadmeFormat::Plaintext, text: "# Hi *you*".to_string() };
    let (format, text) = source.render(&no_plugins());
    assert_eq!(format, ReadmeFormat::Plaintext);
    assert_eq!(text, "# Hi *you*");
}

#[test]
fn html_takes_the_place_of_markdown_only() {
    let source = |format| ReadmeSource { format, text: "text".to_string() };
    let html = || "html".to_string();
    assert_eq!(
        source(ReadmeFormat::Markdown).with_html(html()),
        (ReadmeFormat::Markdown, "html".to_string())
    );
    assert_eq!(
        source(ReadmeFormat::Plaintext).with_html(html()),
        (ReadmeFormat::Plaintext, "text".to_string())
    );
}

#[test]
fn no_plugin_highlights_code() {
    let source = ReadmeSource {
        format: ReadmeFormat::Markdown,
        text: "```rs\nfn\n```\n".to_string(),
    };
    let (_, html) = source.render(&no_plugins());
    assert_eq!(html, "<pre><code class=\"language-rs\">fn\n</code></pre>\n");
}

#[test]
fn search_is_taken_to_its_end() {
    let finish = |blobs: [Option<Vec<u8>>; 3]| {
        let search = ReadmeSearch::start(HeadTreeRead::Read).unwrap();
        search.finish(&blobs).map(|source| (source.format, source.text))
    };
    assert_eq!(finish([None, None, None]), None);
    assert_eq!(finish([Some(vec![0xff]), None, Some(vec![0xfe])]), None);
    assert_eq!(
        finish([Some(b"# a".to_vec()), Some(b"b".to_vec()), None]),
        Some((ReadmeFormat::Markdown, "# a".to_string()))
    );
    assert_eq!(
        finish([Some(vec![0xff]), None, Some(b"c".to_vec())]),
        Some((ReadmeFormat::Plaintext, "c".to_string()))
    );
}

#[test]
fn search_is_taken_on_from_where_it_is() {
    let start = ReadmeSearch::start(HeadTreeRead::Read).unwrap();
    let ReadmeStep::Next(next) = start.offer(None) else {
        panic!("the search ends at the first name");
    };
    let blobs = [Some(b"# a".to_vec()), Some(b"b".to_vec()), None];
    let found = next.finish(&blobs).unwrap();
    assert_eq!((found.format, found.text.as_str()), (ReadmeFormat::Plaintext, "b"));
}
