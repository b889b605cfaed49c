//! Tags.
use vstd::prelude::*;

use crate::commit::{lossy_text, CommitUser, RawSignature};
use crate::error::GitError;
use crate::oid::{format_id, ObjectId};

verus! {

use crate::commit::{lossy_or_empty, user_is_lossless, user_of, utc_datetime, CommitUserModel};
use crate::oid::{formatted_id_parses, hex_of, id_bytes, is_hex_id};
use crate::text::{lossless, utf8_lossy};

/// The query of the page of a tag.
#[derive(Debug)]
pub struct UriQuery {
    /// The name of the tag, which the query calls `h`.
    pub name: String,
}

/// What a tag is put on, by the digits of its id.
#[derive(Debug)]
pub enum TaggedObject {
    /// A commit.
    Commit(String),
    /// A tree.
    Tree(String),
}

/// What a [`TaggedObject`] says.
pub enum TaggedObjectModel {
    /// A commit.
    Commit(Seq<char>),
    /// A tree.
    Tree(Seq<char>),
}

impl View for TaggedObject {
    type V = TaggedObjectModel;

    open spec fn view(&self) -> TaggedObjectModel {
        match self {
            TaggedObject::Commit(id) => TaggedObjectModel::Commit(id@),
            TaggedObject::Tree(id) => TaggedObjectModel::Tree(id@),
        }
    }
}

/// An annotated tag.
#[derive(Debug)]
pub struct DetailedTag {
    /// The name that the tag was asked for by.
    pub name: String,
    /// Who made the tag, if it says so.
    pub tagger: Option<CommitUser>,
    /// The message.
    pub message: String,
    /// What the tag is put on, where that is a commit or a tree.
    pub tagged_object: Option<TaggedObject>,
}

/// What a [`DetailedTag`] says.
pub struct DetailedTagModel {
    /// The name that the tag was asked for by.
    pub name: Seq<char>,
    /// Who made the tag.
    pub tagger: Option<CommitUserModel>,
    /// The message.
    pub message: Seq<char>,
    /// What the tag is put on.
    pub tagged_object: Option<TaggedObjectModel>,
}

impl View for DetailedTag {
    type V = DetailedTagModel;

    open spec fn view(&self) -> DetailedTagModel {
        DetailedTagModel {
            name: self.name@,
            tagger: match self.tagger {
                Some(user) => Some(user@),
                None => None,
            },
            message: self.message@,
            tagged_object: match self.tagged_object {
                Some(object) => Some(object@),
                None => None,
            },
        }
    }
}

/// What an object of a repository is.
#[derive(Clone, Copy, Debug, PartialEq, Eq, Structural)]
pub enum ObjectKind {
    /// Any object.
    Any,
    /// A commit.
    Commit,
    /// A tree.
    Tree,
    /// The contents of a file.
    Blob,
    /// An annotated tag.
    Tag,
}

/// What is read of a tag.
#[derive(Debug)]
pub struct RawTag {
    /// Who made the tag, if it says so.
    pub tagger: Option<RawSignature>,
    /// The message, if there is one.
    pub message: Option<Vec<u8>>,
    /// What the target is, if that is known.
    pub target_kind: Option<ObjectKind>,
    /// The id of the target.
    pub target_id: ObjectId,
}

/// What came of reading a tag.
#[derive(Debug)]
pub enum TagRead {
    /// The reference does not exist.
    NoReference,
    /// The reference leads to no annotated tag.
    NotATag,
    /// The tag has no target.
    NoTarget,
    /// All of it was read.
    Read(RawTag),
}

/// A request for a tag: it is read by following `reference`.
#[derive(Debug)]
pub struct TagQuery {
    /// The name of the tag.
    pub name: String,
    /// The full name of the reference.
    pub reference: String,
}

/// The full name of the reference of a tag.
pub open spec fn tag_reference(name: Seq<char>) -> Seq<char> {
    "refs/tags/"@ + name
}

/// What a target is shown as: commits and trees by their digits, all else not at all.
pub open spec fn tagged_object_of(kind: Option<ObjectKind>, id: ObjectId) -> Option<
    TaggedObjectModel,
> {
    match kind {
        Some(ObjectKind::Commit) => Some(TaggedObjectModel::Commit(hex_of(id@))),
        Some(ObjectKind::Tree) => Some(TaggedObjectModel::Tree(hex_of(id@))),
        _ => None,
    }
}

/// What is answered to a request for a tag.
pub open spec fn tag_of(name: Seq<char>, read: TagRead) -> Result<DetailedTagModel, GitError> {
    match read {
        TagRead::NoReference => Err(GitError::ReferenceNotFound),
        TagRead::NotATag => Err(GitError::NotATag),
        TagRead::NoTarget => Err(GitError::NoTaggedObject),
        TagRead::Read(raw) => {
            let tagger = match raw.tagger {
                Some(signature) => match user_of(signature) {
                    Ok(user) => Ok(Some(user)),
                    Err(e) => Err(e),
                },
                None => Ok(None),
            };
            match tagger {
                Err(e) => Err(e),
                Ok(user) => Ok(
                    DetailedTagModel {
                        name,
                        tagger: user,
                        message: lossy_or_empty(raw.message),
                        tagged_object: tagged_object_of(raw.target_kind, raw.target_id),
                    },
                ),
            }
        },
    }
}

/// Whether the texts of a tag are what was read, where that is UTF-8.
pub open spec fn tag_is_lossless(raw: RawTag, tag: DetailedTagModel) -> bool {
    &&& raw.message matches Some(bytes) ==> lossless(bytes@, tag.message)
    &&& raw.tagger matches Some(signature) ==> (tag.tagger matches Some(user)
        && user_is_lossless(signature, user))
}

/// What a target is shown as.
pub fn tagged_object(kind: Option<ObjectKind>, id: &ObjectId) -> (object: Option<TaggedObject>)
    ensures
        (match object {
            Some(shown) => tagged_object_of(kind, *id) == Some(shown@),
            None => tagged_object_of(kind, *id) is None,
        }),
{
    match kind {
        Some(ObjectKind::Commit) => Some(TaggedObject::Commit(format_id(id))),
        Some(ObjectKind::Tree) => Some(TaggedObject::Tree(format_id(id))),
        _ => None,
    }
}

impl TagQuery {
    /// Asks for the tag with a name.
    pub fn new(tag_name: &str) -> (query: TagQuery)
        ensures
            query.name@ == tag_name@,
            query.reference@ == tag_reference(tag_name@),
    {
        let mut reference = "refs/tags/".to_owned();
        reference.append(tag_name);
        TagQuery { name: tag_name.to_owned(), reference }
    }

    /// Answers the request with what was read.
    pub fn finish(self, read: &TagRead) -> (tag: Result<DetailedTag, GitError>)
        ensures
            (match tag {
                Ok(value) => tag_of(self.name@, *read) == Ok::<_, GitError>(value@),
                Err(e) => tag_of(self.name@, *read) == Err::<DetailedTagModel, _>(e),
            }),
            tag matches Ok(value) ==> (read matches TagRead::Read(raw) && tag_is_lossless(
                *raw,
                value@,
            )),
            tag matches Ok(value) ==> (read matches TagRead::Read(raw) && (
            raw.tagger matches Some(signature) ==> (value.tagger matches Some(user) && user@.time
                == utc_datetime(signature.seconds)))),
    {
        match read {
            TagRead::NoReference => Err(GitError::ReferenceNotFound),
            TagRead::NotATag => Err(GitError::NotATag),
            TagRead::NoTarget => Err(GitError::NoTaggedObject),
            TagRead::Read(raw) => {
                let tagged_object = tagged_object(raw.target_kind, &raw.target_id);
                let tagger = match &raw.tagger {
                    Some(signature) => match CommitUser::try_from(signature) {
                        Ok(user) => Some(user),
                        Err(e) => return Err(e),
                    },
                    None => None,
                };
                Ok(
                    DetailedTag {
                        name: self.name,
                        tagger,
                        message: lossy_text(&raw.message),
                        tagged_object,
                    },
                )
            },
        }
    }
}

/// Different tags are read by different references.
pub proof fn tag_references_are_distinct(a: Seq<char>, b: Seq<char>)
    requires
        tag_reference(a) == tag_reference(b),
    ensures
        a == b,
{
    let prefix = "refs/tags/"@;
    assert(a =~= tag_reference(a).skip(prefix.len() as int));
    assert(b =~= tag_reference(b).skip(prefix.len() as int));
}

/// The digits that a tag shows of its target name the target.
pub proof fn tagged_id_parses(kind: Option<ObjectKind>, id: ObjectId)
    ensures
        tagged_object_of(kind, id) matches Some(TaggedObjectModel::Commit(text)) ==> is_hex_id(text)
            && id_bytes(text) == id@,
        tagged_object_of(kind, id) matches Some(TaggedObjectModel::Tree(text)) ==> is_hex_id(text)
            && id_bytes(text) == id@,
{
    formatted_id_parses(id@);
}

/// A tag shows what was read of it. It has the name that it was asked for by; the tagger, where
/// there is one, with the name, the address and the time of the signature; the message, or an empty
/// one; and the digits of its target where that is a commit or a tree. It is shown exactly where
/// the time of the tagger, if there is one, is in the years -9999 to 9999.
pub proof fn tag_shows_what_was_read(name: Seq<char>, raw: RawTag)
    ensures
        ({
            let shown = tag_of(name, TagRead::Read(raw));
            &&& shown is Ok <==> (raw.tagger matches Some(signature) ==> -377705116800
                <= signature.seconds <= 253402300799)
            &&& shown matches Err(e) ==> e == GitError::TimeOutOfRange
            &&& shown matches Ok(tag) ==> {
                &&& tag.name == name
                &&& raw.tagger is None <==> tag.tagger is None
                &&& raw.tagger matches Some(signature) ==> (tag.tagger matches Some(user) && {
                    &&& user.name == utf8_lossy(signature.name@)
                    &&& user.email == utf8_lossy(signature.email@)
                    &&& user.time == utc_datetime(signature.seconds)
                })
                &&& raw.message matches Some(bytes) ==> tag.message == utf8_lossy(bytes@)
                &&& raw.message is None ==> tag.message.len() == 0
                &&& tag.tagged_object is Some <==> raw.target_kind == Some(ObjectKind::Commit)
                    || raw.target_kind == Some(ObjectKind::Tree)
                &&& tag.tagged_object matches Some(TaggedObjectModel::Commit(text))
                    ==> raw.target_kind == Some(ObjectKind::Commit) && text == hex_of(
                    raw.target_id@,
                )
                &&& tag.tagged_object matches Some(TaggedObjectModel::Tree(text))
                    ==> raw.target_kind == Some(ObjectKind::Tree) && text == hex_of(
                    raw.target_id@,
                )
            }
        }),
{
    reveal_strlit("");
}

/// What was not read of a tag is what is reported, whatever its name.
pub proof fn tag_that_was_not_read(name: Seq<char>, read: TagRead)
    requires
        read !is Read,
    ensures
        tag_of(name, read) is Err,
        read is NoReference ==> tag_of(name, read)->Err_0 == GitError::ReferenceNotFound,
        read is NotATag ==> tag_of(name, read)->Err_0 == GitError::NotATag,
        read is NoTarget ==> tag_of(name, read)->Err_0 == GitError::NoTaggedObject,
{
}

/// The reference of a tag is its name behind the place of all tags, and nothing more.
pub proof fn reference_holds_the_name(name: Seq<char>)
    ensures
        tag_reference(name).len() == 10 + name.len(),
        tag_reference(name).take(10) == "refs/tags/"@,
        tag_reference(name).skip(10) == name,
{
    reveal_strlit("refs/tags/");
    assert(tag_reference(name).take(10) =~= "refs/tags/"@);
    assert(tag_reference(name).skip(10) =~= name);
}

/// What a tag and its target say is what their fields hold.
pub proof fn tag_says_its_fields(tag: DetailedTag)
    ensures
        tag@.name == tag.name@,
        tag.tagger matches Some(user) ==> tag@.tagger == Some(user@),
        tag.tagger is None ==> tag@.tagger is None,
        tag@.message == tag.message@,
        tag.tagged_object is None ==> tag@.tagged_object is None,
        tag.tagged_object matches Some(TaggedObject::Commit(id)) ==> tag@.tagged_object == Some(
            TaggedObjectModel::Commit(id@),
        ),
        tag.tagged_object matches Some(TaggedObject::Tree(id)) ==> tag@.tagged_object == Some(
            TaggedObjectModel::Tree(id@),
        ),
{
}

} // verus!
