//! Text: decoding of bytes, lines, and replacement of characters.
use vstd::prelude::*;
use vstd::utf8::*;

verus! {

/// The text that lossy decoding makes of bytes: what is valid UTF-8 is decoded, and what is not is
/// replaced by U+FFFD.
pub uninterp spec fn utf8_lossy(bytes: Seq<u8>) -> Seq<char>;

/// Whether `text` is what `bytes` encode, where they encode a text at all.
pub open spec fn lossless(bytes: Seq<u8>, text: Seq<char>) -> bool {
    valid_utf8(bytes) ==> text == decode_utf8(bytes)
}

/// Calls [`String::from_utf8_lossy`].
///
/// The result is a function of the bytes alone, named [`utf8_lossy`]. Of bytes that are valid UTF-8
/// it is the text that they encode.
#[verifier::external_body]
pub(crate) fn from_utf8_lossy(bytes: &[u8]) -> (text: String)
    ensures
        text@ == utf8_lossy(bytes@),
        lossless(bytes@, text@),
{
    String::from_utf8_lossy(bytes).into_owned()
}

/// Calls [`std::str::from_utf8`].
///
/// The call succeeds exactly on valid UTF-8, and the text it then gives is the one that the bytes
/// encode.
#[verifier::external_body]
pub(crate) fn from_utf8(bytes: &[u8]) -> (text: Option<&str>)
    ensures
        text is Some <==> valid_utf8(bytes@),
        text matches Some(s) ==> s@ == decode_utf8(bytes@),
{
    std::str::from_utf8(bytes).ok()
}

/// A letter of ASCII in lower case; any other character as it is.
pub open spec fn ascii_lowercase(c: char) -> char {
    if 'A' <= c <= 'Z' {
        (c as u32 + 32) as char
    } else {
        c
    }
}

/// `text` with every `from` replaced by `to`.
pub open spec fn replace_char(text: Seq<char>, from: char, to: Seq<char>) -> Seq<char>
    decreases text.len(),
{
    if text.len() == 0 {
        seq![]
    } else if text.last() == from {
        replace_char(text.drop_last(), from, to) + to
    } else {
        replace_char(text.drop_last(), from, to).push(text.last())
    }
}

/// Calls [`str::replace`] with a character as the pattern.
///
/// Every occurrence of the character is replaced, and nothing else is changed.
#[verifier::external_body]
pub(crate) fn replace(text: &str, from: char, to: &str) -> (replaced: String)
    ensures
        replaced@ == replace_char(text@, from, to@),
{
    text.replace(from, to)
}

/// The index just behind the first newline of `text`, or its length where it has none.
pub open spec fn line_end(text: Seq<char>) -> int
    decreases text.len(),
{
    if text.len() == 0 {
        0
    } else if text[0] == '\n' {
        1
    } else {
        1 + line_end(text.drop_first())
    }
}

/// The lines of `text`, each with the newline that ends it.
pub open spec fn lines_of(text: Seq<char>) -> Seq<Seq<char>>
    decreases text.len(),
{
    if text.len() == 0 {
        seq![]
    } else {
        let end = line_end(text);
        if 0 < end <= text.len() {
            seq![text.take(end)] + lines_of(text.skip(end))
        } else {
            seq![]
        }
    }
}

/// The pieces of `text` between its newlines; there is one more of them than there are newlines.
pub open spec fn split_newlines(text: Seq<char>) -> Seq<Seq<char>>
    decreases text.len(),
{
    if text.len() == 0 {
        seq![seq![]]
    } else {
        let front = split_newlines(text.drop_last());
        if text.last() == '\n' {
            front.push(seq![])
        } else {
            front.drop_last().push(front.last().push(text.last()))
        }
    }
}

pub(crate) proof fn lemma_split_not_empty(text: Seq<char>)
    ensures
        split_newlines(text).len() > 0,
    decreases text.len(),
{
    if text.len() > 0 {
        lemma_split_not_empty(text.drop_last());
    }
}

/// A text without a newline, put behind another, lengthens the last piece of that.
pub(crate) proof fn lemma_split_append(text: Seq<char>, tail: Seq<char>)
    requires
        !tail.contains('\n'),
    ensures
        split_newlines(text + tail) == split_newlines(text).drop_last().push(
            split_newlines(text).last() + tail,
        ),
    decreases tail.len(),
{
    lemma_split_not_empty(text);
    let pieces = split_newlines(text);
    if tail.len() == 0 {
        assert(text + tail =~= text);
        assert(pieces.last() + tail =~= pieces.last());
        assert(pieces =~= pieces.drop_last().push(pieces.last()));
    } else {
        let front = tail.drop_last();
        assert forall|i: int| 0 <= i < front.len() implies front[i] != '\n' by {
            assert(tail.contains(tail[i]));
        }
        lemma_split_append(text, front);
        assert((text + tail).drop_last() =~= text + front);
        assert(tail.contains(tail.last()));
        assert((pieces.last() + front).push(tail.last()) =~= pieces.last() + tail);
        assert(split_newlines(text + tail) =~= pieces.drop_last().push(pieces.last() + tail));
    }
}

/// Calls [`syntect::util::LinesWithEndings::from`] and collects the lines that it yields.
///
/// The lines come in order, each with its newline; a last line without one is a line too.
#[verifier::external_body]
pub(crate) fn lines_with_endings(text: &str) -> (lines: Vec<&str>)
    ensures
        lines@.map_values(|line: &str| line@) == lines_of(text@),
{
    syntect::util::LinesWithEndings::from(text).collect()
}

/// `pieces`, one behind the other.
pub open spec fn concat(pieces: Seq<Seq<char>>) -> Seq<char>
    decreases pieces.len(),
{
    if pieces.len() == 0 {
        seq![]
    } else {
        pieces[0] + concat(pieces.drop_first())
    }
}

/// The lines of a text make it up: one behind the other they are the text, each has at least one
/// character, a newline only ends a line, and every line but the last ends in one.
pub proof fn lines_make_up_text(text: Seq<char>)
    ensures
        concat(lines_of(text)) == text,
        forall|i: int|
            0 <= i < lines_of(text).len() ==> (#[trigger] lines_of(text)[i]).len() > 0
                && !lines_of(text)[i].drop_last().contains('\n') && (i + 1 < lines_of(text).len()
                ==> lines_of(text)[i].last() == '\n'),
    decreases text.len(),
{
    if text.len() > 0 {
        lemma_line_end(text);
        let end = line_end(text);
        let first = text.take(end);
        let rest = text.skip(end);
        let lines = lines_of(text);
        lines_make_up_text(rest);
        assert(lines.drop_first() =~= lines_of(rest));
        assert(text =~= first + rest);
        assert forall|i: int| 0 <= i < lines.len() implies (#[trigger] lines[i]).len() > 0
            && !lines[i].drop_last().contains('\n') && (i + 1 < lines.len() ==> lines[i].last()
            == '\n') by {
            if i == 0 {
                assert(lines[i] == first);
            } else {
                assert(lines[i] == lines_of(rest)[i - 1]);
            }
        }
    }
}

proof fn lemma_line_end(text: Seq<char>)
    ensures
        0 <= line_end(text) <= text.len(),
        text.len() > 0 ==> line_end(text) > 0,
        forall|i: int| 0 <= i < line_end(text) - 1 ==> text[i] != '\n',
        line_end(text) < text.len() ==> text[line_end(text) - 1] == '\n',
    decreases text.len(),
{
    if text.len() > 0 && text[0] != '\n' {
        let rest = text.drop_first();
        lemma_line_end(rest);
        assert forall|i: int| 0 <= i < line_end(text) - 1 implies text[i] != '\n' by {
            if i > 0 {
                assert(text[i] == rest[i - 1]);
            }
        }
    }
}

/// There is one way to cut a text into lines. Pieces that make up the text one behind the other are
/// its lines where none is empty, a newline only ends a piece, and every piece but the last ends in
/// one; so no line of a text is lost, doubled, moved or changed.
pub proof fn lines_are_unique(text: Seq<char>, pieces: Seq<Seq<char>>)
    requires
        pieces.flatten() == text,
        forall|i: int|
            0 <= i < pieces.len() ==> (#[trigger] pieces[i]).len() > 0
                && !pieces[i].drop_last().contains('\n') && (i + 1 < pieces.len()
                ==> pieces[i].last() == '\n'),
    ensures
        lines_of(text) == pieces,
    decreases pieces.len(),
{
    if pieces.len() == 0 {
        assert(lines_of(text) =~= pieces);
    } else {
        let first = pieces[0];
        let rest = pieces.drop_first();
        assert(text =~= first + rest.flatten());
        assert(first.len() > 0);
        lemma_line_end(text);
        let end = line_end(text);
        assert forall|i: int| 0 <= i < first.len() - 1 implies text[i] != '\n' by {
            assert(first.drop_last()[i] == text[i]);
            assert(first.drop_last().contains(first.drop_last()[i]));
        }
        assert(end == first.len()) by {
            if end > first.len() {
                assert(rest.len() > 0) by {
                    if rest.len() == 0 {
                        assert(rest.flatten() =~= seq![]);
                    }
                }
                assert(text[first.len() - 1] == '\n');
            }
        }
        assert(text.take(end) =~= first);
        assert(text.skip(end) =~= rest.flatten());
        assert forall|i: int| 0 <= i < rest.len() implies (#[trigger] rest[i]).len() > 0
            && !rest[i].drop_last().contains('\n') && (i + 1 < rest.len() ==> rest[i].last()
            == '\n') by {
            assert(rest[i] == pieces[i + 1]);
        }
        lines_are_unique(rest.flatten(), rest);
        assert(lines_of(text) =~= pieces);
    }
}

/// The lines of a text, one behind the other, are the whole text, and as many of them end in a
/// newline as the text has newlines.
pub proof fn lines_are_the_whole_text(text: Seq<char>)
    ensures
        lines_of(text).flatten() == text,
        lines_of(text).filter(|line: Seq<char>| line.last() == '\n').len() == text.filter(
            |c: char| c == '\n',
        ).len(),
{
    lines_make_up_text(text);
    lemma_concat_flatten(lines_of(text));
    lemma_newlines_of_lines(lines_of(text));
}

proof fn lemma_concat_flatten(pieces: Seq<Seq<char>>)
    ensures
        concat(pieces) == pieces.flatten(),
    decreases pieces.len(),
{
    if pieces.len() > 0 {
        lemma_concat_flatten(pieces.drop_first());
    }
}

proof fn lemma_no_newline(text: Seq<char>)
    requires
        !text.contains('\n'),
    ensures
        text.filter(|c: char| c == '\n').len() == 0,
    decreases text.len(),
{
    reveal(Seq::filter);
    if text.len() > 0 {
        assert(text.contains(text.last()));
        assert forall|i: int| 0 <= i < text.drop_last().len() implies text.drop_last()[i]
            != '\n' by {
            assert(text.contains(text[i]));
        }
        lemma_no_newline(text.drop_last());
    }
}

proof fn lemma_newlines_of_lines(pieces: Seq<Seq<char>>)
    requires
        forall|i: int|
            0 <= i < pieces.len() ==> (#[trigger] pieces[i]).len() > 0
                && !pieces[i].drop_last().contains('\n'),
    ensures
        pieces.filter(|line: Seq<char>| line.last() == '\n').len() == pieces.flatten().filter(
            |c: char| c == '\n',
        ).len(),
    decreases pieces.len(),
{
    let is_newline = |c: char| c == '\n';
    let ends = |line: Seq<char>| line.last() == '\n';
    reveal(Seq::filter);
    if pieces.len() > 0 {
        let front = pieces.drop_last();
        let last = pieces.last();
        assert(last == pieces[pieces.len() - 1]);
        assert forall|i: int| 0 <= i < front.len() implies (#[trigger] front[i]).len() > 0
            && !front[i].drop_last().contains('\n') by {
            assert(front[i] == pieces[i]);
        }
        lemma_newlines_of_lines(front);
        front.lemma_flatten_push(last);
        assert(front.push(last) =~= pieces);
        Seq::filter_distributes_over_add(front.flatten(), last, is_newline);
        lemma_no_newline(last.drop_last());
        last.drop_last().lemma_filter_push(last.last(), is_newline);
        assert(last.drop_last().push(last.last()) =~= last);
        front.lemma_filter_push(last, ends);
    }
}

/// Replacing a character goes through a text from part to part, changes each occurrence of the
/// character to the replacement, and leaves every other character as it is.
pub proof fn replacement_by_parts(a: Seq<char>, b: Seq<char>, from: char, to: Seq<char>)
    ensures
        replace_char(a + b, from, to) == replace_char(a, from, to) + replace_char(b, from, to),
        replace_char(seq![from], from, to) == to,
        forall|c: char| c != from ==> #[trigger] replace_char(seq![c], from, to) == seq![c],
        !a.contains(from) ==> replace_char(a, from, to) == a,
    decreases a.len() + b.len(),
{
    assert(replace_char(seq![], from, to) =~= seq![]);
    assert forall|c: char| c != from implies #[trigger] replace_char(seq![c], from, to)
        == seq![c] by {
        assert(seq![c].drop_last() =~= seq![]);
        assert(replace_char(seq![c], from, to) =~= seq![c]);
    }
    assert(seq![from].drop_last() =~= seq![]);
    assert(replace_char(seq![from], from, to) =~= to);
    if b.len() == 0 {
        assert(a + b =~= a);
        assert(replace_char(a, from, to) + replace_char(b, from, to) =~= replace_char(a, from, to));
        if a.len() > 0 && !a.contains(from) {
            assert(a.contains(a.last()));
            assert forall|i: int| 0 <= i < a.drop_last().len() implies a.drop_last()[i] != from by {
                assert(a.contains(a[i]));
            }
            replacement_by_parts(a.drop_last(), seq![], from, to);
            assert(a.drop_last().push(a.last()) =~= a);
        } else if a.len() == 0 {
            assert(a =~= seq![]);
        }
    } else {
        replacement_by_parts(a, b.drop_last(), from, to);
        assert((a + b).drop_last() =~= a + b.drop_last());
        assert(replace_char(a + b, from, to) =~= replace_char(a, from, to) + replace_char(
            b,
            from,
            to,
        ));
    }
}

/// Lower case: a letter of the first row is the letter of the second in its place, and any other
/// character stays what it is.
pub proof fn lower_case_goes_by_the_alphabet(c: char, i: int)
    ensures
        0 <= i < 26 ==> ascii_lowercase("ABCDEFGHIJKLMNOPQRSTUVWXYZ"@[i])
            == "abcdefghijklmnopqrstuvwxyz"@[i],
        !"ABCDEFGHIJKLMNOPQRSTUVWXYZ"@.contains(c) ==> ascii_lowercase(c) == c,
{
    reveal_strlit("ABCDEFGHIJKLMNOPQRSTUVWXYZ");
    reveal_strlit("abcdefghijklmnopqrstuvwxyz");
    let upper = "ABCDEFGHIJKLMNOPQRSTUVWXYZ"@;
    assert(forall|j: int| 0 <= j < 26 ==> #[trigger] upper[j] as int == j + 65);
    assert(forall|j: int|
        0 <= j < 26 ==> #[trigger] "abcdefghijklmnopqrstuvwxyz"@[j] as int == j + 97);
    if 'A' <= c <= 'Z' {
        let j = c as int - 65;
        assert(upper[j] as int == c as int);
        assert(upper[j] == c);
        assert(upper.contains(upper[j]));
    }
}

/// A text that decoding keeps as it is encodes to just the bytes that were decoded.
pub proof fn lossless_text_encodes_back(bytes: Seq<u8>, text: Seq<char>)
    requires
        valid_utf8(bytes),
    ensures
        lossless(bytes, text) <==> encode_utf8(text) == bytes,
{
    decode_utf8_encode_utf8(bytes);
    encode_utf8_decode_utf8(text);
}

} // verus!
