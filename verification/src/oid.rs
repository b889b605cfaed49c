//! Object ids, as the bytes and as the hexadecimal digits that name an object.
use vstd::prelude::*;

use crate::error::GitError;

verus! {

use crate::text::ascii_lowercase;

/// The bytes of an object id.
pub type ObjectId = [u8; 20];

/// The number of digits of a whole object id.
pub const HEX_LEN: usize = 40;

/// The error of git2.
#[verifier::external_type_specification]
#[verifier::external_body]
pub struct ExGit2Error(git2::Error);

/// The value of a hexadecimal digit of either case.
pub open spec fn hex_value(c: char) -> Option<int> {
    if '0' <= c <= '9' {
        Some(c as int - '0' as int)
    } else if 'a' <= c <= 'f' {
        Some(c as int - 'a' as int + 10)
    } else if 'A' <= c <= 'F' {
        Some(c as int - 'A' as int + 10)
    } else {
        None
    }
}

/// The hexadecimal digit of a value below 16, in lower case.
pub open spec fn hex_digit(value: int) -> char {
    if value < 10 {
        (value + '0' as int) as char
    } else {
        (value - 10 + 'a' as int) as char
    }
}

/// Whether `text` names an object: one digit to [`HEX_LEN`] digits, and nothing else.
pub open spec fn is_hex_id(text: Seq<char>) -> bool {
    &&& 0 < text.len() <= HEX_LEN
    &&& forall|i: int| 0 <= i < text.len() ==> hex_value(#[trigger] text[i]) is Some
}

/// The value of the digit at a position of `text`, or 0 behind its end.
pub open spec fn digit_at(text: Seq<char>, i: int) -> int {
    if i < text.len() {
        hex_value(text[i])->0
    } else {
        0
    }
}

/// The bytes that the digits of `text` write, two digits a byte, filled up with zeros.
pub open spec fn id_bytes(text: Seq<char>) -> Seq<u8> {
    Seq::new(20, |i: int| (digit_at(text, 2 * i) * 16 + digit_at(text, 2 * i + 1)) as u8)
}

/// The digits of `bytes`, two a byte.
pub open spec fn hex_of(bytes: Seq<u8>) -> Seq<char> {
    Seq::new(
        2 * bytes.len(),
        |i: int|
            hex_digit(
                if i % 2 == 0 {
                    bytes[i / 2] as int / 16
                } else {
                    bytes[i / 2] as int % 16
                },
            ),
    )
}

/// The digits of the id that `text` names: those of `text` in lower case, filled up with zeros.
pub open spec fn full_digits(text: Seq<char>) -> Seq<char> {
    Seq::new(
        HEX_LEN as nat,
        |i: int|
            if i < text.len() {
                ascii_lowercase(text[i])
            } else {
                '0'
            },
    )
}

/// Calls [`git2::Oid::from_str`] and takes the bytes of the id.
///
/// The call succeeds exactly where the text is not empty, has at most 40 characters and has only
/// hexadecimal digits. A short text stands for the id that it starts, with zeros behind it.
#[verifier::external_body]
pub(crate) fn oid_from_str(text: &str) -> (id: Result<ObjectId, git2::Error>)
    ensures
        id is Ok <==> is_hex_id(text@),
        id matches Ok(bytes) ==> bytes@ == id_bytes(text@),
{
    let oid = git2::Oid::from_str(text)?;
    let mut bytes = [0; 20];
    bytes.copy_from_slice(oid.as_bytes());
    Ok(bytes)
}

/// Calls [`git2::Oid::from_bytes`], and `to_string` on the id that it gives.
///
/// Any 20 bytes are an id. The text is its 40 hexadecimal digits, in lower case.
#[verifier::external_body]
pub(crate) fn oid_to_string(id: &ObjectId) -> (text: String)
    ensures
        text@ == hex_of(id@),
{
    git2::Oid::from_bytes(id).unwrap().to_string()
}

/// Reads the object id that a text names, or fails with `error`.
pub fn parse_id(text: &str, error: GitError) -> (id: Result<ObjectId, GitError>)
    ensures
        id is Ok <==> is_hex_id(text@),
        id matches Ok(bytes) ==> bytes@ == id_bytes(text@),
        id matches Err(e) ==> e == error,
{
    match oid_from_str(text) {
        Ok(id) => Ok(id),
        Err(_) => Err(error),
    }
}

/// The digits of an object id.
pub fn format_id(id: &ObjectId) -> (text: String)
    ensures
        text@ == hex_of(id@),
{
    oid_to_string(id)
}

/// Reading the digits of an object id gives the id back.
pub proof fn formatted_id_parses(id: Seq<u8>)
    requires
        id.len() == 20,
    ensures
        is_hex_id(hex_of(id)),
        id_bytes(hex_of(id)) == id,
{
    let text = hex_of(id);
    assert forall|i: int| 0 <= i < text.len() implies hex_value(#[trigger] text[i]) == Some(
        if i % 2 == 0 {
            id[i / 2] as int / 16
        } else {
            id[i / 2] as int % 16
        },
    ) by {
        let value = if i % 2 == 0 {
            id[i / 2] as int / 16
        } else {
            id[i / 2] as int % 16
        };
        assert(0 <= value < 16);
        assert(text[i] == hex_digit(value));
    }
    assert forall|i: int| 0 <= i < 20 implies id_bytes(text)[i] == id[i] by {
        assert(hex_value(text[2 * i]) == Some(id[i] as int / 16));
        assert(hex_value(text[2 * i + 1]) == Some(id[i] as int % 16));
    }
    assert(id_bytes(text) =~= id);
}

/// Two object ids with the same digits are the same id.
pub proof fn formatted_ids_are_distinct(a: Seq<u8>, b: Seq<u8>)
    requires
        a.len() == 20,
        b.len() == 20,
        hex_of(a) == hex_of(b),
    ensures
        a == b,
{
    formatted_id_parses(a);
    formatted_id_parses(b);
}

/// An id that was read from a text has the digits of the text, in lower case and filled up with
/// zeros.
pub proof fn parsed_id_formats(text: Seq<char>)
    requires
        is_hex_id(text),
    ensures
        hex_of(id_bytes(text)) == full_digits(text),
{
    let bytes = id_bytes(text);
    assert forall|i: int| 0 <= i < HEX_LEN implies hex_of(bytes)[i] == full_digits(text)[i] by {
        let k = i / 2;
        lemma_digit_at(text, 2 * k);
        lemma_digit_at(text, 2 * k + 1);
        let high = digit_at(text, 2 * k);
        let low = digit_at(text, 2 * k + 1);
        assert(bytes[k] == high * 16 + low);
        assert(bytes[k] as int / 16 == high);
        assert(bytes[k] as int % 16 == low);
    }
    assert(hex_of(bytes) =~= full_digits(text));
}

proof fn lemma_digit_at(text: Seq<char>, i: int)
    requires
        is_hex_id(text),
        0 <= i < HEX_LEN,
    ensures
        0 <= digit_at(text, i) < 16,
        hex_digit(digit_at(text, i)) == full_digits(text)[i],
{
    if i < text.len() {
        assert(hex_value(text[i]) is Some);
    }
}

/// Two texts name the same object exactly where they have the same digits, in any case and filled
/// up with zeros.
pub proof fn ids_go_by_digits(a: Seq<char>, b: Seq<char>)
    requires
        is_hex_id(a),
        is_hex_id(b),
    ensures
        id_bytes(a) == id_bytes(b) <==> full_digits(a) == full_digits(b),
{
    parsed_id_formats(a);
    parsed_id_formats(b);
    if full_digits(a) == full_digits(b) {
        formatted_ids_are_distinct(id_bytes(a), id_bytes(b));
    }
}

/// What names an object: one to forty characters, each a decimal digit or a letter from `a` to `f`
/// in either case.
pub proof fn texts_that_name_objects(text: Seq<char>)
    ensures
        is_hex_id(text) <==> 1 <= text.len() <= 40 && forall|i: int|
            0 <= i < text.len() ==> ('0' <= #[trigger] text[i] <= '9' || 'a' <= text[i] <= 'f'
                || 'A' <= text[i] <= 'F'),
{
    assert forall|i: int| 0 <= i < text.len() implies (hex_value(#[trigger] text[i]) is Some <==> (
    '0' <= text[i] <= '9' || 'a' <= text[i] <= 'f' || 'A' <= text[i] <= 'F')) by {}
}

/// The digits of bytes are those of each, one behind the other: the digit for its higher four bits
/// and then the one for its lower four.
pub proof fn digits_go_byte_by_byte(a: Seq<u8>, b: Seq<u8>, byte: u8)
    ensures
        hex_of(a + b) == hex_of(a) + hex_of(b),
        hex_of(seq![byte]) == seq![
            "0123456789abcdef"@[byte as int / 16],
            "0123456789abcdef"@[byte as int % 16],
        ],
{
    reveal_strlit("0123456789abcdef");
    let digits = "0123456789abcdef"@;
    assert forall|v: int| 0 <= v < 16 implies #[trigger] digits[v] == hex_digit(v) by {
        assert(digits[v] as int == if v < 10 {
            v + 48
        } else {
            v + 87
        });
    }
    assert(hex_of(seq![byte]) =~= seq![
        digits[byte as int / 16],
        digits[byte as int % 16],
    ]);
    assert(hex_of(a + b) =~= hex_of(a) + hex_of(b)) by {
        assert forall|i: int| 0 <= i < hex_of(a + b).len() implies hex_of(a + b)[i] == (hex_of(a)
            + hex_of(b))[i] by {
            if i < 2 * a.len() {
                assert((a + b)[i / 2] == a[i / 2]);
            } else {
                let k = i - 2 * a.len();
                assert(i / 2 - a.len() == k / 2);
                assert(i % 2 == k % 2);
                assert((a + b)[i / 2] == b[k / 2]);
            }
        }
    }
}

/// The full digits of a text start with those of the text, and go on with zeros to forty.
pub proof fn full_digits_start_with_the_text(text: Seq<char>)
    requires
        is_hex_id(text),
    ensures
        full_digits(text).len() == 40,
        forall|i: int|
            0 <= i < text.len() ==> #[trigger] full_digits(text)[i] == ascii_lowercase(text[i]),
        forall|i: int| text.len() <= i < 40 ==> #[trigger] full_digits(text)[i] == '0',
{
}

} // verus!
