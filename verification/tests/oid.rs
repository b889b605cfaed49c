use rgit::error::GitError;
use rgit::oid::{format_id, parse_id};

const DIGITS: &str = "0123456789abcdef0123456789abcdefdeadbeef";

fn id() -> [u8; 20] {
    [
        0x01, 0x23, 0x45, 0x67, 0x89, 0xab, 0xcd, 0xef, 0x01, 0x23, 0x45, 0x67, 0x89, 0xab, 0xcd,
        0xef, 0xde, 0xad, 0xbe, 0xef,
    ]
}

#[test]
fn whole_id_is_read() {
    assert_eq!(parse_id(DIGITS, GitError::BadCommitHash), Ok(id()));
}

#[test]
fn case_does_not_matter() {
    assert_eq!(parse_id(&DIGITS.to_uppercase(), GitError::BadCommitHash), Ok(id()));
}

#[test]
fn short_id_is_filled_with_zeros() {
    let mut expected = [0; 20];
    expected[0] = 0xab;
    expected[1] = 0xc0;
    assert_eq!(parse_id("abc", GitError::BadCommitHash), Ok(expected));
    let mut expected = [0; 20];
    expected[0] = 0x70;
    assert_eq!(parse_id("7", GitError::BadCommitHash), Ok(expected));
}

#[test]
fn what_is_no_id_is_refused() {
    assert_eq!(parse_id("", GitError::BadTreeHash), Err(GitError::BadTreeHash));
    assert_eq!(parse_id("xyz", GitError::BadTreeHash), Err(GitError::BadTreeHash));
    assert_eq!(parse_id("ab cd", GitError::BadCommitHash), Err(GitError::BadCommitHash));
    assert_eq!(parse_id("abg", GitError::BadCommitHash), Err(GitError::BadCommitHash));
    assert_eq!(parse_id("\u{e9}", GitError::BadCommitHash), Err(GitError::BadCommitHash));
    let long = format!("{DIGITS}0");
    assert_eq!(parse_id(&long, GitError::BadCommitHash), Err(GitError::BadCommitHash));
    let wide = "\u{ff10}".repeat(14);
    assert_eq!(parse_id(&wide, GitError::BadCommitHash), Err(GitError::BadCommitHash));
}

#[test]
fn id_is_written_in_lower_case() {
    assert_eq!(format_id(&id()), DIGITS);
    assert_eq!(format_id(&[0; 20]), "0".repeat(40));
    assert_eq!(format_id(&[0xff; 20]), "f".repeat(40));
}

#[test]
fn written_id_is_read_back() {
    for byte in 0..=255u8 {
        let mut id = [byte; 20];
        id[19] = 1;
        assert_eq!(parse_id(&format_id(&id), GitError::BadTreeHash), Ok(id));
    }
}
