use rgit::error::GitError;
use rgit::highlight::{format_file, has_syntax, highlight_line, wrap_code_lines};
use syntect::parsing::{SyntaxDefinition, SyntaxSet, SyntaxSetBuilder};

fn broken() -> SyntaxSet {
    let definition = SyntaxDefinition::load_from_str(
        "%YAML 1.2\n---\nname: Broken\nfile_extensions: [broken]\nscope: source.broken\n\
         contexts:\n  main:\n    - match: 'x'\n      push: nowhere\n",
        true,
        None,
    )
    .unwrap();
    let mut builder = SyntaxSetBuilder::new();
    builder.add(definition);
    builder.build()
}

#[test]
fn each_line_gets_an_element() {
    assert_eq!(wrap_code_lines(""), "<code></code>");
    assert_eq!(wrap_code_lines("a"), "<code>a</code>");
    assert_eq!(wrap_code_lines("a\nb"), "<code>a</code>\n<code>b</code>");
    assert_eq!(wrap_code_lines("a\n"), "<code>a</code>\n<code></code>");
    assert_eq!(wrap_code_lines("\n\n"), "<code></code>\n<code></code>\n<code></code>");
}

#[test]
fn wrapping_keeps_lines() {
    let html = "one\n<span>two</span>\n\nfour\n";
    let code = wrap_code_lines(html);
    let expected: Vec<String> = html.split('\n').map(|l| format!("<code>{l}</code>")).collect();
    assert_eq!(code.split('\n').collect::<Vec<&str>>(), expected);
}

#[test]
fn plain_text_is_escaped_and_wrapped() {
    let set = SyntaxSet::load_defaults_newlines();
    assert_eq!(
        format_file(b"a < b\nc", "txt", &set).unwrap(),
        "<code><span class=\"text plain\">a &lt; b</code>\n<code>c</span></code>"
    );
}

#[test]
fn empty_file_is_one_empty_line() {
    let set = SyntaxSet::load_defaults_newlines();
    assert_eq!(format_file(b"", "rs", &set).unwrap(), "<code></code>");
}

#[test]
fn unknown_extension_is_plain_text() {
    let set = SyntaxSet::load_defaults_newlines();
    assert_eq!(
        format_file(b"x\n", "no such extension", &set).unwrap(),
        format_file(b"x\n", "txt", &set).unwrap()
    );
    assert_eq!(
        format_file(b"x\n", "", &set).unwrap(),
        format_file(b"x\n", "txt", &set).unwrap()
    );
}

#[test]
fn extension_selects_syntax_in_any_case() {
    let set = SyntaxSet::load_defaults_newlines();
    let rust = format_file(b"fn main() {}\n", "rs", &set).unwrap();
    assert!(rust.starts_with("<code><span class=\"source rust\">"), "{rust}");
    assert!(rust.ends_with("</code>\n<code></span></code>"), "{rust}");
    assert_eq!(rust, format_file(b"fn main() {}\n", "RS", &set).unwrap());
    assert_ne!(rust, format_file(b"fn main() {}\n", "txt", &set).unwrap());
}

#[test]
fn state_goes_on_to_the_next_line() {
    let set = SyntaxSet::load_defaults_newlines();
    let whole = format_file(b"/* a\nb */\n", "rs", &set).unwrap();
    let lines: Vec<&str> = whole.split('\n').collect();
    assert_eq!(lines.len(), 3);
    assert!(lines[0].contains("comment"), "{whole}");
    assert!(lines[1].starts_with("<code>b "), "{whole}");
}

#[test]
fn bytes_that_are_not_utf8_are_replaced() {
    let set = SyntaxSet::load_defaults_newlines();
    assert_eq!(
        format_file(b"a\xffb", "txt", &set).unwrap(),
        "<code><span class=\"text plain\">a\u{fffd}b</span></code>"
    );
}

#[test]
fn line_that_does_not_parse_fails_the_file() {
    let set = broken();
    assert!(has_syntax(&set, "broken"));
    assert_eq!(format_file(b"a\nx\n", "broken", &set), Err(GitError::LineNotParsed));
    assert!(format_file(b"a\nb\n", "broken", &set).is_ok());
}

#[test]
fn line_that_does_not_parse_is_no_error_by_itself() {
    assert_eq!(highlight_line("x\n", "broken", &broken()), "");
}

#[test]
fn one_line_is_closed() {
    let set = SyntaxSet::load_defaults_newlines();
    assert_eq!(
        highlight_line("a & b\n", "txt", &set),
        "<span class=\"text plain\">a &amp; b\n</span>"
    );
}

#[test]
fn set_without_plain_text_lacks_syntaxes() {
    let set = broken();
    assert!(!has_syntax(&set, "rs"));
    assert!(has_syntax(&set, "BROKEN"));
    let mut builder = SyntaxSetBuilder::new();
    builder.add_plain_text_syntax();
    assert!(has_syntax(&builder.build(), "rs"));
    assert!(!has_syntax(&SyntaxSetBuilder::new().build(), "txt"));
}

#[test]
fn later_syntax_goes_first() {
    let first = SyntaxDefinition::load_from_str(
        "%YAML 1.2\n---\nname: One\nfile_extensions: [e]\nscope: source.one\ncontexts:\n  main: []\n",
        true,
        None,
    )
    .unwrap();
    let second = SyntaxDefinition::load_from_str(
        "%YAML 1.2\n---\nname: Two\nfile_extensions: [E]\nscope: source.two\ncontexts:\n  main: []\n",
        true,
        None,
    )
    .unwrap();
    let mut builder = SyntaxSetBuilder::new();
    builder.add(first);
    builder.add(second);
    assert_eq!(
        highlight_line("a\n", "e", &builder.build()),
        "<span class=\"source two\">a\n</span>"
    );
}
