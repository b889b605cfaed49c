use rgit::commit::RawSignature;
use rgit::error::GitError;
use rgit::oid::parse_id;
use rgit::tag::{tagged_object, ObjectKind, RawTag, TagQuery, TagRead, TaggedObject, UriQuery};

fn raw(kind: Option<ObjectKind>) -> RawTag {
    RawTag {
        tagger: Some(RawSignature {
            name: b"Ada".to_vec(),
            email: b"a@example.org".to_vec(),
            seconds: 10,
        }),
        message: Some(b"first \xff".to_vec()),
        target_kind: kind,
        target_id: [0x5a; 20],
    }
}

#[test]
fn reference_is_among_the_tags() {
    let query = UriQuery { name: "v1.0".to_string() };
    let tag = TagQuery::new(&query.name);
    assert_eq!(tag.name, "v1.0");
    assert_eq!(tag.reference, "refs/tags/v1.0");
    assert_eq!(TagQuery::new("").reference, "refs/tags/");
    assert_ne!(TagQuery::new("a").reference, TagQuery::new("b").reference);
}

#[test]
fn tag_is_read() {
    let tag = TagQuery::new("v1").finish(&TagRead::Read(raw(Some(ObjectKind::Commit)))).unwrap();
    assert_eq!(tag.name, "v1");
    assert_eq!(tag.message, "first \u{fffd}");
    let tagger = tag.tagger.unwrap();
    assert_eq!(tagger.name(), "Ada");
    assert_eq!(tagger.time().unix_timestamp(), 10);
    assert!(matches!(tag.tagged_object, Some(TaggedObject::Commit(id)) if id == "5a".repeat(20)));
}

#[test]
fn texts_of_a_tag_are_kept() {
    let mut read = raw(None);
    read.message = Some("d\u{e9}but".as_bytes().to_vec());
    read.tagger = Some(RawSignature {
        name: "Zo\u{eb}".as_bytes().to_vec(),
        email: b"z@\xff".to_vec(),
        seconds: 0,
    });
    let tag = TagQuery::new("v1").finish(&TagRead::Read(read)).unwrap();
    assert_eq!(tag.message, "d\u{e9}but");
    let tagger = tag.tagger.unwrap();
    assert_eq!(tagger.name(), "Zo\u{eb}");
    assert_eq!(tagger.email(), "z@\u{fffd}");
}

#[test]
fn only_commits_and_trees_are_shown() {
    let id = [0x5a; 20];
    assert!(matches!(
        tagged_object(Some(ObjectKind::Tree), &id),
        Some(TaggedObject::Tree(text)) if parse_id(&text, GitError::BadTreeHash) == Ok(id)
    ));
    assert!(tagged_object(Some(ObjectKind::Blob), &id).is_none());
    assert!(tagged_object(Some(ObjectKind::Tag), &id).is_none());
    assert!(tagged_object(Some(ObjectKind::Any), &id).is_none());
    assert!(tagged_object(None, &id).is_none());
}

#[test]
fn tag_may_say_little() {
    let bare = RawTag { tagger: None, message: None, ..raw(None) };
    let tag = TagQuery::new("v1").finish(&TagRead::Read(bare)).unwrap();
    assert!(tag.tagger.is_none());
    assert_eq!(tag.message, "");
    assert!(tag.tagged_object.is_none());
}

#[test]
fn tag_that_is_not_read_is_reported() {
    let error = |read: TagRead| TagQuery::new("v1").finish(&read).unwrap_err();
    assert_eq!(error(TagRead::NoReference), GitError::ReferenceNotFound);
    assert_eq!(error(TagRead::NotATag), GitError::NotATag);
    assert_eq!(error(TagRead::NoTarget), GitError::NoTaggedObject);
    let mut late = raw(None);
    late.tagger = Some(RawSignature { name: vec![], email: vec![], seconds: i64::MAX });
    assert_eq!(error(TagRead::Read(late)), GitError::TimeOutOfRange);
}
