//! Paths inside a repository, as the bytes that Unix gives them.
//!
//! The functions read a path as [`std::path::Path`] does on Unix: components are separated by `/`,
//! and empty components and components `.` do not count.
use vstd::prelude::*;
use vstd::slice::{slice_subrange, slice_to_vec};

use crate::text::from_utf8_lossy;

verus! {

use crate::text::{lossless, utf8_lossy};

/// The byte `/`, which separates the components of a path.
pub const SEPARATOR: u8 = 0x2f;

/// The byte `.`.
pub const DOT: u8 = 0x2e;

/// The position of the last `byte` in `bytes`, or -1 where there is none.
pub open spec fn last_position(bytes: Seq<u8>, byte: u8) -> int
    decreases bytes.len(),
{
    if bytes.len() == 0 {
        -1
    } else if bytes.last() == byte {
        bytes.len() - 1
    } else {
        last_position(bytes.drop_last(), byte)
    }
}

/// The last component of a path that is neither empty nor `.`, unless that is `..`.
pub open spec fn file_name_of(path: Seq<u8>) -> Option<Seq<u8>>
    decreases path.len(),
{
    let slash = last_position(path, SEPARATOR);
    let component = path.skip(slash + 1);
    if component.len() == 0 || component == seq![DOT] {
        if 0 <= slash < path.len() {
            file_name_of(path.take(slash))
        } else {
            None
        }
    } else if component == seq![DOT, DOT] {
        None
    } else {
        Some(component)
    }
}

/// What follows the last dot of a file name, unless the name has no dot or only the one that it
/// starts with.
pub open spec fn name_extension(name: Seq<u8>) -> Option<Seq<u8>> {
    let dot = last_position(name, DOT);
    if dot <= 0 {
        None
    } else {
        Some(name.skip(dot + 1))
    }
}

/// The extension of the file name of a path.
pub open spec fn extension_of(path: Seq<u8>) -> Option<Seq<u8>> {
    match file_name_of(path) {
        Some(name) => name_extension(name),
        None => None,
    }
}

/// What names the syntax of the file at a path: its extension, or its file name where it has none.
pub open spec fn syntax_key(path: Seq<u8>) -> Option<Seq<u8>> {
    match extension_of(path) {
        Some(extension) => Some(extension),
        None => file_name_of(path),
    }
}

/// The text that names the syntax of the file at a path; empty where nothing does.
pub open spec fn syntax_token_of(path: Seq<u8>) -> Seq<char> {
    match syntax_key(path) {
        Some(key) => utf8_lossy(key),
        None => ""@,
    }
}

/// Whether what names the syntax of the file at a path is kept as it is, where that is UTF-8.
pub open spec fn token_is_lossless(path: Seq<u8>) -> bool {
    syntax_key(path) matches Some(key) ==> lossless(key, syntax_token_of(path))
}

/// `path` with `name` joined to it: an absolute name takes the place of the path, any other is put
/// behind it, with a separator between them where the path is not empty and does not end in one.
pub open spec fn joined(path: Seq<u8>, name: Seq<u8>) -> Seq<u8> {
    if name.len() > 0 && name[0] == SEPARATOR {
        name
    } else if path.len() > 0 && path.last() != SEPARATOR {
        path.push(SEPARATOR) + name
    } else {
        path + name
    }
}

/// Whether `name` is one ordinary component of a path.
pub open spec fn is_component(name: Seq<u8>) -> bool {
    &&& name.len() > 0
    &&& !name.contains(SEPARATOR)
    &&& name != seq![DOT]
    &&& name != seq![DOT, DOT]
}

/// Whether a path starts at the root of the file system.
pub open spec fn is_absolute(path: Seq<u8>) -> bool {
    path.len() > 0 && path[0] == SEPARATOR
}

/// The components of a path, in order. Empty ones do not count, nor does a `.`, unless it is what
/// a path starts with.
pub open spec fn components_of(path: Seq<u8>) -> Seq<Seq<u8>>
    decreases path.len(),
{
    let slash = last_position(path, SEPARATOR);
    let front = if 0 <= slash < path.len() {
        components_of(path.take(slash))
    } else {
        seq![]
    };
    let component = path.skip(slash + 1);
    if component.len() == 0 || (component == seq![DOT] && slash >= 0) {
        front
    } else {
        front.push(component)
    }
}

/// Components with a separator between each two of them.
pub open spec fn joined_components(components: Seq<Seq<u8>>) -> Seq<u8>
    decreases components.len(),
{
    if components.len() == 0 {
        seq![]
    } else if components.len() == 1 {
        components[0]
    } else {
        joined_components(components.drop_last()).push(SEPARATOR) + components.last()
    }
}

/// The shortest way to write a path: its components, behind a separator where it is absolute.
pub open spec fn path_key(path: Seq<u8>) -> Seq<u8> {
    root_prefix(is_absolute(path)) + joined_components(components_of(path))
}

/// What a path starts with before its components.
pub open spec fn root_prefix(absolute: bool) -> Seq<u8> {
    if absolute {
        seq![SEPARATOR]
    } else {
        seq![]
    }
}

proof fn lemma_last_position(bytes: Seq<u8>, byte: u8)
    ensures
        -1 <= last_position(bytes, byte) < bytes.len(),
        last_position(bytes, byte) >= 0 ==> bytes[last_position(bytes, byte)] == byte,
        forall|i: int| last_position(bytes, byte) < i < bytes.len() ==> bytes[i] != byte,
    decreases bytes.len(),
{
    if bytes.len() > 0 && bytes.last() != byte {
        lemma_last_position(bytes.drop_last(), byte);
        let rest = bytes.drop_last();
        assert forall|i: int| last_position(bytes, byte) < i < bytes.len() implies bytes[i]
            != byte by {
            if i < rest.len() {
                assert(rest[i] == bytes[i]);
            }
        }
    }
}

/// The last position is the only one that holds the byte and is followed by no other.
pub(crate) proof fn lemma_last_position_unique(bytes: Seq<u8>, byte: u8, at: int)
    requires
        -1 <= at < bytes.len(),
        at >= 0 ==> bytes[at] == byte,
        forall|i: int| at < i < bytes.len() ==> bytes[i] != byte,
    ensures
        last_position(bytes, byte) == at,
{
    lemma_last_position(bytes, byte);
    let found = last_position(bytes, byte);
    if found < at {
        assert(bytes[at] != byte);
    } else if at < found {
        assert(bytes[found] != byte);
    }
}

/// The position behind the last `byte` of `bytes`, or 0 where there is none.
fn after_last(bytes: &[u8], byte: u8) -> (at: usize)
    ensures
        at == last_position(bytes@, byte) + 1,
        at <= bytes@.len(),
{
    let mut at: usize = bytes.len();
    while at > 0 && bytes[at - 1] != byte
        invariant
            at <= bytes@.len(),
            forall|i: int| at <= i < bytes@.len() ==> bytes@[i] != byte,
        decreases at,
    {
        at = at - 1;
    }
    proof {
        lemma_last_position_unique(bytes@, byte, at - 1);
    }
    at
}

/// The file name of a path: its last component, unless that is `..` or there is none.
pub fn file_name(path: &[u8]) -> (name: Option<&[u8]>)
    ensures
        (match name {
            Some(found) => file_name_of(path@) == Some(found@),
            None => file_name_of(path@) is None,
        }),
{
    let mut rest: &[u8] = path;
    loop
        invariant
            file_name_of(path@) == file_name_of(rest@),
        decreases rest@.len(),
    {
        let start: usize = after_last(rest, SEPARATOR);
        let component = slice_subrange(rest, start, rest.len());
        proof {
            assert(component@ =~= rest@.skip(start as int));
        }
        let empty = component.len() == 0;
        let here = component.len() == 1 && component[0] == DOT;
        let up = component.len() == 2 && component[0] == DOT && component[1] == DOT;
        proof {
            assert(here <==> component@ =~= seq![DOT]);
            assert(up <==> component@ =~= seq![DOT, DOT]);
        }
        if empty || here {
            if start == 0 {
                return None;
            }
            proof {
                assert(rest@.subrange(0, start - 1) =~= rest@.take(start - 1));
            }
            rest = slice_subrange(rest, 0, start - 1);
        } else if up {
            return None;
        } else {
            return Some(component);
        }
    }
}

/// The extension of a path: what follows the last dot of its file name, unless that dot is the
/// first byte of the name or there is none.
pub fn extension(path: &[u8]) -> (extension: Option<&[u8]>)
    ensures
        (match extension {
            Some(found) => extension_of(path@) == Some(found@),
            None => extension_of(path@) is None,
        }),
{
    match file_name(path) {
        None => None,
        Some(name) => {
            let start: usize = after_last(name, DOT);
            if start <= 1 {
                None
            } else {
                proof {
                    assert(name@.subrange(start as int, name@.len() as int) =~= name@.skip(
                        start as int,
                    ));
                }
                Some(slice_subrange(name, start, name.len()))
            }
        },
    }
}

/// What names the syntax of the file at a path: its extension, or its file name where it has none,
/// or an empty text. Bytes that are not UTF-8 are replaced.
pub fn syntax_token(path: &[u8]) -> (token: String)
    ensures
        token@ == syntax_token_of(path@),
        token_is_lossless(path@),
{
    match extension(path) {
        Some(found) => from_utf8_lossy(found),
        None => match file_name(path) {
            Some(name) => from_utf8_lossy(name),
            None => "".to_owned(),
        },
    }
}

/// The path with a name joined to it.
pub fn join(path: &[u8], name: &[u8]) -> (whole: Vec<u8>)
    ensures
        whole@ == joined(path@, name@),
{
    if name.len() > 0 && name[0] == SEPARATOR {
        slice_to_vec(name)
    } else {
        let mut whole = slice_to_vec(path);
        if path.len() > 0 && path[path.len() - 1] != SEPARATOR {
            whole.push(SEPARATOR);
        }
        append_bytes(&mut whole, name);
        whole
    }
}

/// The components of a path.
fn components(path: &[u8]) -> (components: Vec<&[u8]>)
    ensures
        components@.map_values(|component: &[u8]| component@) == components_of(path@),
{
    let mut components: Vec<&[u8]> = Vec::new();
    let mut start: usize = 0;
    let mut i: usize = 0;
    proof {
        assert(components@.map_values(|component: &[u8]| component@) =~= seq![]);
    }
    loop
        invariant
            start <= i <= path@.len(),
            start > 0 ==> path@[start - 1] == SEPARATOR,
            forall|j: int| start <= j < i ==> path@[j] != SEPARATOR,
            components@.map_values(|component: &[u8]| component@) == (if start == 0 {
                seq![]
            } else {
                components_of(path@.take(start - 1))
            }),
        decreases path@.len() - i,
    {
        if i == path.len() || path[i] == SEPARATOR {
            let component = slice_subrange(path, start, i);
            let here = component.len() == 1 && component[0] == DOT;
            let ghost whole = path@.take(i as int);
            let ghost before = components@.map_values(|component: &[u8]| component@);
            proof {
                lemma_last_position_unique(whole, SEPARATOR, start - 1);
                assert(whole.skip(start as int) =~= component@);
                if start > 0 {
                    assert(whole.take(start - 1) =~= path@.take(start - 1));
                }
                assert(here <==> component@ =~= seq![DOT]);
            }
            if component.len() > 0 && !(here && start > 0) {
                components.push(component);
                proof {
                    assert(components@.map_values(|component: &[u8]| component@) =~= before.push(
                        component@,
                    ));
                }
            }
            proof {
                assert(components@.map_values(|component: &[u8]| component@) == components_of(
                    whole,
                ));
            }
            if i == path.len() {
                proof {
                    assert(whole =~= path@);
                }
                return components;
            }
            start = i + 1;
        }
        i = i + 1;
    }
}

/// Writes a path in the shortest way, which is the same for all paths with the same components.
pub fn component_key(path: &[u8]) -> (key: Vec<u8>)
    ensures
        key@ == path_key(path@),
{
    let components = components(path);
    let ghost all = components_of(path@);
    let mut key: Vec<u8> = Vec::new();
    if path.len() > 0 && path[0] == SEPARATOR {
        key.push(SEPARATOR);
    }
    let ghost prefix = root_prefix(is_absolute(path@));
    let mut i: usize = 0;
    proof {
        assert(key@ =~= prefix);
        assert(prefix + joined_components(all.take(0)) =~= prefix);
    }
    while i < components.len()
        invariant
            i <= components@.len(),
            all == components@.map_values(|component: &[u8]| component@),
            key@ == prefix + joined_components(all.take(i as int)),
        decreases components@.len() - i,
    {
        let ghost before = key@;
        if i > 0 {
            key.push(SEPARATOR);
        }
        append_bytes(&mut key, components[i]);
        proof {
            let next = all.take(i + 1);
            assert(next.drop_last() =~= all.take(i as int));
            assert(next.last() == components@[i as int]@);
            if i == 0 {
                assert(all.take(0) =~= seq![]);
                assert(key@ =~= prefix + joined_components(next));
            } else {
                assert(key@ =~= prefix + joined_components(next));
            }
        }
        i = i + 1;
    }
    proof {
        assert(all.take(i as int) =~= all);
    }
    key
}

/// Puts bytes behind others.
fn append_bytes(bytes: &mut Vec<u8>, tail: &[u8])
    ensures
        final(bytes)@ == old(bytes)@ + tail@,
{
    let ghost front = bytes@;
    let mut i: usize = 0;
    while i < tail.len()
        invariant
            i <= tail@.len(),
            bytes@ == front + tail@.take(i as int),
        decreases tail@.len() - i,
    {
        bytes.push(tail[i]);
        proof {
            assert(tail@.take(i + 1) =~= tail@.take(i as int).push(tail@[i as int]));
        }
        i = i + 1;
    }
    proof {
        assert(tail@.take(tail@.len() as int) =~= tail@);
    }
}

/// Two paths have the same key exactly where both or neither are absolute and they have the same
/// components.
pub proof fn keys_go_by_components(a: Seq<u8>, b: Seq<u8>)
    ensures
        path_key(a) == path_key(b) <==> is_absolute(a) == is_absolute(b) && components_of(a)
            == components_of(b),
{
    key_keeps_components(a);
    key_keeps_components(b);
}

/// The key of a path is itself a path with the same components, and is its own key.
pub proof fn key_keeps_components(path: Seq<u8>)
    ensures
        is_absolute(path_key(path)) == is_absolute(path),
        components_of(path_key(path)) == components_of(path),
        path_key(path_key(path)) == path_key(path),
{
    lemma_components(path);
    lemma_components_of_joined(is_absolute(path), components_of(path));
}

/// Whether components can be those of a path.
spec fn are_components(absolute: bool, components: Seq<Seq<u8>>) -> bool {
    forall|i: int|
        0 <= i < components.len() ==> (#[trigger] components[i]).len() > 0
            && !components[i].contains(SEPARATOR) && (components[i] == seq![DOT] ==> i == 0
            && !absolute)
}

proof fn lemma_components(path: Seq<u8>)
    ensures
        are_components(is_absolute(path), components_of(path)),
    decreases path.len(),
{
    lemma_last_position(path, SEPARATOR);
    let slash = last_position(path, SEPARATOR);
    let component = path.skip(slash + 1);
    assert forall|i: int| 0 <= i < component.len() implies component[i] != SEPARATOR by {
        assert(component[i] == path[slash + 1 + i]);
    }
    if slash >= 0 {
        let front = path.take(slash);
        lemma_components(front);
        if slash > 0 {
            assert(front[0] == path[0]);
        } else {
            assert(last_position(front, SEPARATOR) == -1);
            assert(components_of(front) =~= seq![]);
        }
    }
}

proof fn lemma_no_components()
    ensures
        components_of(seq![]) == Seq::<Seq<u8>>::empty(),
{
    lemma_last_position_unique(seq![], SEPARATOR, -1);
    assert(Seq::<u8>::empty().skip(0) =~= seq![]);
}

proof fn lemma_one_component(name: Seq<u8>)
    requires
        name.len() > 0,
        !name.contains(SEPARATOR),
    ensures
        components_of(name) == seq![name],
        !is_absolute(name),
{
    assert(name.contains(name[0]));
    lemma_last_position_unique(name, SEPARATOR, -1);
    assert(name.skip(0) =~= name);
    assert(components_of(name) =~= seq![name]);
}

proof fn lemma_next_component(front: Seq<u8>, name: Seq<u8>)
    requires
        name.len() > 0,
        !name.contains(SEPARATOR),
        name != seq![DOT],
    ensures
        components_of(front.push(SEPARATOR) + name) == components_of(front).push(name),
        is_absolute(front.push(SEPARATOR) + name) == (front.len() == 0 || is_absolute(front)),
{
    let whole = front.push(SEPARATOR) + name;
    let start = front.len() + 1;
    assert(whole.skip(start as int) =~= name);
    assert(whole.take(start - 1) =~= front);
    assert forall|i: int| start <= i < whole.len() implies whole[i] != SEPARATOR by {
        assert(whole[i] == name[i - start]);
        assert(name.contains(name[i - start]));
    }
    lemma_last_position_unique(whole, SEPARATOR, start - 1);
}

proof fn lemma_components_of_joined(absolute: bool, components: Seq<Seq<u8>>)
    requires
        are_components(absolute, components),
    ensures
        is_absolute(root_prefix(absolute) + joined_components(components)) == absolute,
        components_of(root_prefix(absolute) + joined_components(components)) == components,
        !absolute && components.len() > 0 ==> joined_components(components).len() > 0,
    decreases components.len(),
{
    let prefix = root_prefix(absolute);
    let whole = prefix + joined_components(components);
    lemma_no_components();
    if components.len() == 0 {
        assert(components =~= seq![]);
        assert(whole =~= prefix);
        if absolute {
            lemma_last_position_unique(whole, SEPARATOR, 0);
            assert(whole.take(0) =~= seq![]);
            assert(whole.skip(1) =~= seq![]);
        }
    } else {
        let name = components.last();
        let rest = components.drop_last();
        assert(rest.push(name) =~= components);
        assert(name == components[components.len() - 1]);
        if components.len() == 1 {
            assert(rest =~= seq![]);
            if absolute {
                assert(whole =~= Seq::<u8>::empty().push(SEPARATOR) + name);
                lemma_next_component(seq![], name);
            } else {
                assert(whole =~= name);
                lemma_one_component(name);
                assert(components =~= seq![name]);
            }
        } else {
            assert forall|i: int| 0 <= i < rest.len() implies rest[i] == components[i] by {}
            assert(are_components(absolute, rest));
            lemma_components_of_joined(absolute, rest);
            let front = prefix + joined_components(rest);
            assert(whole =~= front.push(SEPARATOR) + name);
            lemma_next_component(front, name);
        }
    }
}

/// Joining a component to a path makes it the file name, whatever the path.
pub proof fn joined_file_name(path: Seq<u8>, name: Seq<u8>)
    requires
        is_component(name),
    ensures
        file_name_of(joined(path, name)) == Some(name),
{
    let whole = joined(path, name);
    let start = whole.len() - name.len();
    assert(name[0] != SEPARATOR) by {
        assert(name.contains(name[0]));
    }
    assert(whole.skip(start) =~= name);
    assert forall|i: int| start <= i < whole.len() implies whole[i] != SEPARATOR by {
        assert(whole[i] == name[i - start]);
        assert(name.contains(name[i - start]));
    }
    lemma_last_position_unique(whole, SEPARATOR, start - 1);
}

/// The syntax of a file whose name is joined to a path is named by the name alone.
pub proof fn joined_syntax_token(path: Seq<u8>, name: Seq<u8>)
    requires
        is_component(name),
    ensures
        extension_of(joined(path, name)) == extension_of(name),
        syntax_token_of(joined(path, name)) == syntax_token_of(name),
{
    joined_file_name(path, name);
    joined_file_name(seq![], name);
    assert(joined(seq![], name) =~= name) by {
        assert(name.contains(name[0]));
    }
}

/// How the file name of a path goes by its last component. A separator at the end, and a component
/// `.`, do not count; a component `..` leaves no name, and neither is there one without components;
/// any other component is the name, whatever stands before it.
pub proof fn file_name_goes_by_the_end(path: Seq<u8>, name: Seq<u8>)
    requires
        name.len() > 0,
        !name.contains(0x2fu8),
        name != seq![0x2eu8],
        name != seq![0x2eu8, 0x2eu8],
    ensures
        file_name_of(path.push(0x2fu8) + name) == Some(name),
        file_name_of(name) == Some(name),
        file_name_of(path.push(0x2fu8)) == file_name_of(path),
        file_name_of(path.push(0x2fu8).push(0x2eu8)) == file_name_of(path),
        file_name_of(path.push(0x2fu8).push(0x2eu8).push(0x2eu8)) is None,
        file_name_of(seq![]) is None,
        file_name_of(seq![0x2eu8]) is None,
        file_name_of(seq![0x2eu8, 0x2eu8]) is None,
{
    lemma_file_name_of_last(path, name);
    lemma_file_name_of_last(path, seq![]);
    lemma_file_name_of_last(path, seq![DOT]);
    lemma_file_name_of_last(path, seq![DOT, DOT]);
    assert(path.push(SEPARATOR) + Seq::<u8>::empty() =~= path.push(SEPARATOR));
    assert(path.push(SEPARATOR) + seq![DOT] =~= path.push(SEPARATOR).push(DOT));
    assert(path.push(SEPARATOR) + seq![DOT, DOT] =~= path.push(SEPARATOR).push(DOT).push(DOT));
    lemma_file_name_of_one(name);
    lemma_file_name_of_one(seq![]);
    lemma_file_name_of_one(seq![DOT]);
    lemma_file_name_of_one(seq![DOT, DOT]);
    assert(seq![DOT, DOT] != seq![DOT]) by {
        assert(seq![DOT, DOT].len() != seq![DOT].len());
    }
}

proof fn lemma_file_name_of_one(name: Seq<u8>)
    requires
        !name.contains(SEPARATOR),
    ensures
        name.len() == 0 || name == seq![DOT] || name == seq![DOT, DOT] ==> file_name_of(
            name,
        ) is None,
        name.len() > 0 && name != seq![DOT] && name != seq![DOT, DOT] ==> file_name_of(name)
            == Some(name),
{
    assert forall|i: int| 0 <= i < name.len() implies name[i] != SEPARATOR by {
        assert(name.contains(name[i]));
    }
    lemma_last_position_unique(name, SEPARATOR, -1);
    assert(name.skip(0) =~= name);
}

proof fn lemma_file_name_of_last(path: Seq<u8>, name: Seq<u8>)
    requires
        !name.contains(SEPARATOR),
    ensures
        ({
            let found = file_name_of(path.push(SEPARATOR) + name);
            &&& name.len() == 0 || name == seq![DOT] ==> found == file_name_of(path)
            &&& name == seq![DOT, DOT] ==> found is None
            &&& name.len() > 0 && name != seq![DOT] && name != seq![DOT, DOT] ==> found == Some(
                name,
            )
        }),
{
    let whole = path.push(SEPARATOR) + name;
    assert forall|i: int| path.len() < i < whole.len() implies whole[i] != SEPARATOR by {
        assert(whole[i] == name[i - path.len() - 1]);
        assert(name.contains(name[i - path.len() - 1]));
    }
    lemma_last_position_unique(whole, SEPARATOR, path.len() as int);
    assert(whole.skip(path.len() + 1int) =~= name);
    assert(whole.take(path.len() as int) =~= path);
    assert(seq![DOT, DOT].len() != seq![DOT].len());
}

/// The extension of a path is what stands behind the last dot of its file name. A dot that the name
/// starts with does not count, and without a file name there is no extension.
pub proof fn extension_stands_behind_the_last_dot(path: Seq<u8>, stem: Seq<u8>, tail: Seq<u8>)
    ensures
        stem.len() > 0 && !tail.contains(0x2eu8) && file_name_of(path) == Some(
            stem.push(0x2eu8) + tail,
        ) ==> extension_of(path) == Some(tail),
        !tail.contains(0x2eu8) && (file_name_of(path) == Some(tail) || file_name_of(path) == Some(
            seq![0x2eu8] + tail,
        )) ==> extension_of(path) is None,
        file_name_of(path) is None ==> extension_of(path) is None,
{
    if !tail.contains(DOT) {
        assert forall|i: int| 0 <= i < tail.len() implies tail[i] != DOT by {
            assert(tail.contains(tail[i]));
        }
        let name = stem.push(DOT) + tail;
        assert forall|i: int| stem.len() < i < name.len() implies name[i] != DOT by {
            assert(name[i] == tail[i - stem.len() - 1]);
        }
        lemma_last_position_unique(name, DOT, stem.len() as int);
        assert(name.skip(stem.len() + 1int) =~= tail);
        lemma_last_position_unique(tail, DOT, -1);
        let hidden = seq![DOT] + tail;
        assert forall|i: int| 0 < i < hidden.len() implies hidden[i] != DOT by {
            assert(hidden[i] == tail[i - 1]);
        }
        lemma_last_position_unique(hidden, DOT, 0);
    }
}

/// The syntax of a file is named by its extension, or else by its file name, or else by nothing.
pub proof fn token_goes_by_extension(path: Seq<u8>)
    ensures
        extension_of(path) matches Some(found) ==> syntax_token_of(path) == utf8_lossy(found),
        extension_of(path) is None ==> (file_name_of(path) matches Some(name)
            ==> syntax_token_of(path) == utf8_lossy(name)),
        file_name_of(path) is None ==> syntax_token_of(path).len() == 0,
{
    reveal_strlit("");
}

/// A relative name joined to a path stands at the end, behind the path, with one separator between
/// them unless the path is empty or ends in one. An absolute name takes the place of the path.
pub proof fn joined_holds_both(path: Seq<u8>, name: Seq<u8>)
    ensures
        name.len() > 0 && name[0] == 0x2fu8 ==> joined(path, name) == name,
        name.len() == 0 || name[0] != 0x2fu8 ==> {
            let whole = joined(path, name);
            let between = if path.len() == 0 || path.last() == 0x2fu8 {
                0int
            } else {
                1int
            };
            &&& whole.len() == path.len() + between + name.len()
            &&& whole.take(path.len() as int) == path
            &&& whole.skip(path.len() + between) == name
            &&& between == 1 ==> whole[path.len() as int] == 0x2fu8
        },
{
    let whole = joined(path, name);
    if name.len() == 0 || name[0] != SEPARATOR {
        let between = if path.len() == 0 || path.last() == SEPARATOR {
            0int
        } else {
            1int
        };
        assert(whole.take(path.len() as int) =~= path);
        assert(whole.skip(path.len() + between) =~= name);
    }
}

/// How the components of a path go by its end. A separator at the end, and a component `.` behind
/// one, add none; any other component, `..` too, is added as the last. A path without a separator
/// has one component, which is the path, unless it is empty.
pub proof fn components_go_by_the_end(path: Seq<u8>, name: Seq<u8>)
    requires
        name.len() > 0,
        !name.contains(0x2fu8),
    ensures
        components_of(seq![]) == Seq::<Seq<u8>>::empty(),
        components_of(name) == seq![name],
        components_of(path.push(0x2fu8)) == components_of(path),
        components_of(path.push(0x2fu8).push(0x2eu8)) == components_of(path),
        name != seq![0x2eu8] ==> components_of(path.push(0x2fu8) + name) == components_of(
            path,
        ).push(name),
        is_absolute(path) <==> path.len() > 0 && path[0] == 0x2fu8,
{
    lemma_no_components();
    lemma_one_component(name);
    if name != seq![DOT] {
        lemma_next_component(path, name);
    }
    let ended = path.push(SEPARATOR);
    lemma_last_position_unique(ended, SEPARATOR, path.len() as int);
    assert(ended.take(path.len() as int) =~= path);
    assert(ended.skip(path.len() + 1int) =~= seq![]);
    let here = ended.push(DOT);
    lemma_last_position_unique(here, SEPARATOR, path.len() as int);
    assert(here.take(path.len() as int) =~= path);
    assert(here.skip(path.len() + 1int) =~= seq![DOT]);
}

/// No path with the same components, absolute or not as the other, is shorter than its key.
pub proof fn key_is_shortest(path: Seq<u8>, other: Seq<u8>)
    requires
        is_absolute(path) == is_absolute(other),
        components_of(path) == components_of(other),
    ensures
        path_key(path).len() <= other.len(),
{
    lemma_key_is_no_longer(other);
}

proof fn lemma_key_is_no_longer(path: Seq<u8>)
    ensures
        path_key(path).len() <= path.len(),
    decreases path.len(),
{
    lemma_last_position(path, SEPARATOR);
    let slash = last_position(path, SEPARATOR);
    if slash >= 0 {
        let front = path.take(slash);
        let component = path.skip(slash + 1);
        lemma_key_is_no_longer(front);
        if slash > 0 {
            assert(front[0] == path[0]);
        } else {
            assert(front =~= seq![]);
            lemma_no_components();
        }
        let before = components_of(front);
        let all = components_of(path);
        if all != before {
            assert(all.drop_last() =~= before);
            assert(all.last() == component);
            if before.len() == 0 {
                assert(all.len() == 1);
            }
        }
    } else {
        assert(path.skip(0) =~= path);
        assert(!is_absolute(path));
    }
}

} // verus!
