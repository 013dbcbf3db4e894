//! The path validator: from an untrusted string to a path that is relative,
//! free of traversal and confined to the working directory, or to the first
//! rule that refuses it.

use crate::error::PathError;
use crate::path::{
    components_of, has_root, lemma_descent_stays_within, lemma_segment_end, normalize,
    only_descends, parse_components, parts_from, parts_of, remains_within, resolve, segment_end,
    segment_parts, stays_within, Component, Part, DOT, SEPARATOR,
};
use vstd::prelude::*;
use vstd::string::*;

verus! {

/// The most bytes a path, or one component of it, may have.
pub const MAX_BYTES: usize = 255;

/// The bytes of a text, as the file system gets them.
pub open spec fn bytes_of(text: Seq<char>) -> Seq<u8> {
    vstd::utf8::encode_utf8(text)
}

/// Whether the byte is NUL, line feed or carriage return.
pub open spec fn is_forbidden(byte: u8) -> bool {
    byte == 0 || byte == 10 || byte == 13
}

/// Whether the path holds a NUL, a line feed or a carriage return.
pub open spec fn has_forbidden_byte(path: Seq<u8>) -> bool {
    exists|i: int| 0 <= i < path.len() && is_forbidden(#[trigger] path[i])
}

/// Whether some component is a parent-directory reference.
pub open spec fn has_parent(parts: Seq<Part>) -> bool {
    exists|i: int| 0 <= i < parts.len() && #[trigger] parts[i] is Parent
}

/// Whether the component is a name of more than `MAX_BYTES` bytes.
pub open spec fn is_long(part: Part) -> bool {
    part matches Part::Name(name) && name.len() > MAX_BYTES
}

/// Whether some component is a name of more than `MAX_BYTES` bytes.
pub open spec fn has_long_name(parts: Seq<Part>) -> bool {
    exists|i: int| 0 <= i < parts.len() && is_long(#[trigger] parts[i])
}

/// Whether some component is neither a plain name nor `.` nor `..`.
pub open spec fn has_foreign(parts: Seq<Part>) -> bool {
    exists|i: int| 0 <= i < parts.len() && #[trigger] parts[i] is Root
}

/// The rules on components, in order: no parent reference anywhere, then no
/// name that is too long, then nothing but names and `.`.
pub open spec fn component_rules(parts: Seq<Part>) -> Result<(), PathError> {
    if has_parent(parts) {
        Err(PathError::TraversalAttempt)
    } else if has_long_name(parts) {
        Err(PathError::ComponentTooLong)
    } else if has_foreign(parts) {
        Err(PathError::InvalidComponent)
    } else {
        Ok(())
    }
}

/// The rules that depend on the path alone, in order; the first that fails
/// gives the error.
pub open spec fn path_rules(path: Seq<u8>) -> Result<(), PathError> {
    if path.len() > MAX_BYTES {
        Err(PathError::TooLong)
    } else if has_forbidden_byte(path) {
        Err(PathError::InvalidCharacter)
    } else if has_root(path) {
        Err(PathError::AbsoluteNotAllowed)
    } else {
        component_rules(components_of(path))
    }
}

/// The verdict on a path given in the working directory `cwd`: that of the
/// rules on the path alone, and last, that the path joined onto `cwd` is
/// still below `cwd`.
pub open spec fn validation(path: Seq<u8>, cwd: Seq<u8>) -> Result<(), PathError> {
    match path_rules(path) {
        Err(e) => Err(e),
        Ok(_) => if stays_within(components_of(cwd), components_of(path)) {
            Ok(())
        } else {
            Err(PathError::EscapesWorkingDirectory)
        },
    }
}

/// A path that the validator has accepted. There is no other way to make one.
pub struct SafePath {
    text: String,
}

impl SafePath {
    #[verifier::type_invariant]
    spec fn accepted(self) -> bool {
        path_rules(bytes_of(self.text@)) is Ok
    }

    /// The text of the path, as it was given.
    pub closed spec fn text(self) -> Seq<char> {
        self.text@
    }

    /// The path as it was given; it passes every rule on the path alone.
    pub fn as_str(&self) -> (text: &str)
        ensures
            text@ == self.text(),
            path_rules(bytes_of(text@)) is Ok,
    {
        proof {
            use_type_invariant(self);
        }
        self.text.as_str()
    }

    /// The path without its `.` components: the names to descend through,
    /// in order.
    pub fn components(&self) -> (names: Vec<Component>)
        ensures
            path_rules(bytes_of(self.text())) is Ok,
            parts_of(names@) == normalize(components_of(bytes_of(self.text()))),
    {
        proof {
            use_type_invariant(self);
        }
        let parsed = parse_components(self.text.as_str().as_bytes());
        assert(parts_of(Seq::<Component>::empty()) =~= Seq::<Part>::empty());
        resolve(Vec::new(), &parsed)
    }
}

/// Whether the bytes hold a NUL, a line feed or a carriage return.
pub fn contains_forbidden_byte(path: &[u8]) -> (found: bool)
    ensures
        found == has_forbidden_byte(path@),
{
    let mut i: usize = 0;
    while i < path.len()
        invariant
            i <= path@.len(),
            forall|k: int| 0 <= k < i ==> !is_forbidden(#[trigger] path@[k]),
        decreases path@.len() - i,
    {
        let byte: u8 = path[i];
        if byte == 0 || byte == 10 || byte == 13 {
            return true;
        }
        i += 1;
    }
    false
}

/// Applies the rules on components, in their order.
pub fn check_components(components: &Vec<Component>) -> (verdict: Result<(), PathError>)
    ensures
        verdict == component_rules(parts_of(components@)),
{
    let ghost parts = parts_of(components@);
    let mut i: usize = 0;
    while i < components.len()
        invariant
            i <= components@.len(),
            parts == parts_of(components@),
            forall|k: int| 0 <= k < i ==> !(#[trigger] parts[k] is Parent),
        decreases components@.len() - i,
    {
        match &components[i] {
            Component::ParentDir => {
                assert(parts[i as int] is Parent);
                return Err(PathError::TraversalAttempt);
            },
            _ => {},
        }
        i += 1;
    }
    i = 0;
    while i < components.len()
        invariant
            i <= components@.len(),
            parts == parts_of(components@),
            !has_parent(parts),
            forall|k: int| 0 <= k < i ==> !is_long(#[trigger] parts[k]),
        decreases components@.len() - i,
    {
        match &components[i] {
            Component::Normal(name) => {
                if name.len() > MAX_BYTES {
                    assert(is_long(parts[i as int]));
                    return Err(PathError::ComponentTooLong);
                }
            },
            _ => {},
        }
        i += 1;
    }
    i = 0;
    while i < components.len()
        invariant
            i <= components@.len(),
            parts == parts_of(components@),
            !has_parent(parts),
            !has_long_name(parts),
            forall|k: int| 0 <= k < i ==> !(#[trigger] parts[k] is Root),
        decreases components@.len() - i,
    {
        match &components[i] {
            Component::RootDir => {
                assert(parts[i as int] is Root);
                return Err(PathError::InvalidComponent);
            },
            _ => {},
        }
        i += 1;
    }
    Ok(())
}

/// Validates an untrusted path given in the working directory `cwd`.
///
/// The path is accepted exactly when no rule refuses it, and is then kept as
/// it was given; else the error is that of the first rule that refuses it.
pub fn validate_file_path(file_path: &str, cwd: &str) -> (verdict: Result<SafePath, PathError>)
    ensures
        match verdict {
            Ok(path) => validation(bytes_of(file_path@), bytes_of(cwd@)) is Ok && path.text()
                == file_path@,
            Err(e) => validation(bytes_of(file_path@), bytes_of(cwd@)) == Err::<(), PathError>(e),
        },
{
    let bytes = file_path.as_bytes();
    if bytes.len() > MAX_BYTES {
        return Err(PathError::TooLong);
    }
    if contains_forbidden_byte(bytes) {
        return Err(PathError::InvalidCharacter);
    }
    if bytes.len() > 0 && bytes[0] == SEPARATOR {
        return Err(PathError::AbsoluteNotAllowed);
    }
    let components = parse_components(bytes);
    match check_components(&components) {
        Err(e) => {
            return Err(e);
        },
        Ok(_) => {},
    }
    let base = parse_components(cwd.as_bytes());
    if !remains_within(&base, &components) {
        return Err(PathError::EscapesWorkingDirectory);
    }
    Ok(SafePath { text: file_path.to_owned() })
}

/// Whether a segment that is exactly `..` starts at byte `i`: the two dots
/// stand at the start of the path or behind a separator, and the path ends
/// or a separator follows.
pub open spec fn parent_reference_at(path: Seq<u8>, i: int) -> bool {
    &&& 0 <= i
    &&& i + 2 <= path.len()
    &&& (i == 0 || path[i - 1] == SEPARATOR)
    &&& path[i] == DOT
    &&& path[i + 1] == DOT
    &&& (i + 2 == path.len() || path[i + 2] == SEPARATOR)
}

/// Whether the path holds `..` as one of its components.
pub open spec fn names_parent(path: Seq<u8>) -> bool {
    exists|i: int| parent_reference_at(path, i)
}

/// Whether a segment that is exactly `..` starts at or after byte `from`.
pub open spec fn names_parent_from(path: Seq<u8>, from: int) -> bool {
    exists|i: int| from <= i && parent_reference_at(path, i)
}

/// A parent reference is among two runs of components exactly when it is in
/// one of them.
pub proof fn lemma_parent_in_concat(first: Seq<Part>, second: Seq<Part>)
    ensures
        has_parent(first + second) <==> has_parent(first) || has_parent(second),
{
    let both = first + second;
    if has_parent(first) {
        let i = choose|i: int| 0 <= i < first.len() && #[trigger] first[i] is Parent;
        assert(both[i] is Parent);
    }
    if has_parent(second) {
        let i = choose|i: int| 0 <= i < second.len() && #[trigger] second[i] is Parent;
        assert(both[first.len() + i] is Parent);
    }
    if has_parent(both) {
        let i = choose|i: int| 0 <= i < both.len() && #[trigger] both[i] is Parent;
        if i < first.len() {
            assert(first[i] is Parent);
        } else {
            assert(second[i - first.len()] is Parent);
        }
    }
}

/// From the start of a segment on, the components hold a parent reference
/// exactly where the bytes hold a segment `..`.
pub proof fn lemma_parent_from(path: Seq<u8>, from: int)
    requires
        0 <= from <= path.len(),
        from == 0 || path[from - 1] == SEPARATOR,
    ensures
        has_parent(parts_from(path, from)) <==> names_parent_from(path, from),
    decreases path.len() - from,
{
    if from < path.len() {
        let end = segment_end(path, from);
        lemma_segment_end(path, from);
        let segment = path.subrange(from, end);
        let head = segment_parts(segment);
        let rest = if end < path.len() {
            parts_from(path, end + 1)
        } else {
            Seq::empty()
        };
        assert(parts_from(path, from) =~= head + rest);
        lemma_parent_in_concat(head, rest);
        if end < path.len() {
            lemma_parent_from(path, end + 1);
        }
        assert(has_parent(head) <==> parent_reference_at(path, from)) by {
            if parent_reference_at(path, from) {
                assert(end == from + 2);
                assert(segment =~= seq![DOT, DOT]);
                assert(head[0] is Parent);
            }
            if has_parent(head) {
                assert(segment.len() > 0);
                assert(head.len() == 1);
                assert(head[0] is Parent);
                assert(segment =~= seq![DOT, DOT]);
                assert(segment[0] == DOT && segment[1] == DOT);
            }
        }
        assert(has_parent(rest) <==> names_parent_from(path, end + 1)) by {
            if end >= path.len() {
                assert(!has_parent(rest));
                if names_parent_from(path, end + 1) {
                    let i = choose|i: int| end + 1 <= i && parent_reference_at(path, i);
                    assert(false);
                }
            }
        }
        if names_parent_from(path, from) {
            let i = choose|i: int| from <= i && parent_reference_at(path, i);
            if i != from {
                assert(path[i - 1] == SEPARATOR);
                assert(i - 1 >= end);
                assert(end + 1 <= i && parent_reference_at(path, i));
            }
        }
        if names_parent_from(path, end + 1) {
            let i = choose|i: int| end + 1 <= i && parent_reference_at(path, i);
            assert(from <= i && parent_reference_at(path, i));
        }
    } else {
        if names_parent_from(path, from) {
            let i = choose|i: int| from <= i && parent_reference_at(path, i);
            assert(false);
        }
    }
}

/// The components of a path hold a parent reference exactly where the bytes
/// hold a segment `..`.
pub proof fn lemma_parent_reference_found(path: Seq<u8>)
    ensures
        has_parent(components_of(path)) <==> names_parent(path),
{
    lemma_parent_from(path, 0);
    lemma_parent_in_concat(seq![Part::Root], parts_from(path, 0));
    if has_parent(seq![Part::Root]) {
        let i = choose|i: int| 0 <= i < 1 && #[trigger] seq![Part::Root][i] is Parent;
        assert(false);
    }
    if names_parent(path) {
        let i = choose|i: int| parent_reference_at(path, i);
        assert(0 <= i && parent_reference_at(path, i));
    }
}

/// No segment gives a root marker, and no name is longer than the path.
pub proof fn lemma_parts_from_plain(path: Seq<u8>, from: int)
    requires
        0 <= from <= path.len(),
    ensures
        forall|i: int|
            0 <= i < parts_from(path, from).len() ==> !(#[trigger] parts_from(path, from)[i]
                is Root),
        forall|i: int|
            0 <= i < parts_from(path, from).len() ==> (#[trigger] parts_from(path, from)[i]
                matches Part::Name(name) ==> name.len() <= path.len()),
    decreases path.len() - from,
{
    if from < path.len() {
        let end = segment_end(path, from);
        lemma_segment_end(path, from);
        let head = segment_parts(path.subrange(from, end));
        if end < path.len() {
            lemma_parts_from_plain(path, end + 1);
            assert(parts_from(path, from) =~= head + parts_from(path, end + 1));
        } else {
            assert(parts_from(path, from) =~= head);
        }
    }
}

/// A path of at most `MAX_BYTES` bytes without a root and without a segment
/// `..` is made of names and `.` alone, each name within the limit.
pub proof fn lemma_short_relative_path(path: Seq<u8>)
    requires
        path.len() <= MAX_BYTES,
        !has_root(path),
    ensures
        !has_long_name(components_of(path)),
        !has_foreign(components_of(path)),
        !has_parent(components_of(path)) ==> only_descends(components_of(path)),
{
    lemma_parts_from_plain(path, 0);
}

/// The rules on the path alone already confine it: whatever the working
/// directory, a path that passes them stays in or below it. So the last
/// check never refuses anything, and an accepted path has at most
/// `MAX_BYTES` bytes in all and in each component, no forbidden byte, no
/// root and no segment `..`.
pub proof fn lemma_accepted_path_is_confined(path: Seq<u8>, cwd: Seq<u8>)
    requires
        path_rules(path) is Ok,
    ensures
        validation(path, cwd) is Ok,
        path.len() <= MAX_BYTES,
        !has_forbidden_byte(path),
        !has_root(path),
        !names_parent(path),
        !has_long_name(components_of(path)),
        only_descends(components_of(path)),
        stays_within(components_of(cwd), components_of(path)),
{
    lemma_short_relative_path(path);
    lemma_parent_reference_found(path);
    lemma_descent_stays_within(components_of(cwd), components_of(path));
}

/// The verdict is one of five: accepted, too long, a forbidden byte, an
/// absolute path or a traversal attempt. The rules on single components and
/// the containment check stand behind these and find nothing more.
pub proof fn lemma_verdicts(path: Seq<u8>, cwd: Seq<u8>)
    ensures
        validation(path, cwd) == path_rules(path),
        validation(path, cwd) == (if path.len() > MAX_BYTES {
            Err::<(), PathError>(PathError::TooLong)
        } else if has_forbidden_byte(path) {
            Err(PathError::InvalidCharacter)
        } else if has_root(path) {
            Err(PathError::AbsoluteNotAllowed)
        } else if names_parent(path) {
            Err(PathError::TraversalAttempt)
        } else {
            Ok(())
        }),
{
    lemma_parent_reference_found(path);
    if path_rules(path) is Ok {
        lemma_accepted_path_is_confined(path, cwd);
    } else if path.len() <= MAX_BYTES && !has_root(path) {
        lemma_short_relative_path(path);
    }
}

/// A path that holds `..` as a component is never accepted; where it is
/// short enough, free of forbidden bytes and relative, so that no earlier
/// rule speaks first, the error is the traversal attempt.
pub proof fn lemma_traversal_is_refused(path: Seq<u8>, cwd: Seq<u8>)
    requires
        names_parent(path),
    ensures
        validation(path, cwd) is Err,
        path.len() <= MAX_BYTES && !has_forbidden_byte(path) && !has_root(path) ==> validation(
            path,
            cwd,
        ) == Err::<(), PathError>(PathError::TraversalAttempt),
{
    lemma_verdicts(path, cwd);
}

/// An absolute path is never accepted; where it is short enough and free of
/// forbidden bytes, so that no earlier rule speaks first, the error says
/// that absolute paths are not allowed.
pub proof fn lemma_absolute_is_refused(path: Seq<u8>, cwd: Seq<u8>)
    requires
        has_root(path),
    ensures
        validation(path, cwd) is Err,
        path.len() <= MAX_BYTES && !has_forbidden_byte(path) ==> validation(path, cwd) == Err::<
            (),
            PathError,
        >(PathError::AbsoluteNotAllowed),
{
    lemma_verdicts(path, cwd);
}

/// A path that holds a run of more than `MAX_BYTES` bytes, be it the whole
/// path or one component of it, is refused as too long.
pub proof fn lemma_overlong_is_refused(path: Seq<u8>, cwd: Seq<u8>, from: int, end: int)
    requires
        0 <= from <= end <= path.len(),
        end - from > MAX_BYTES,
    ensures
        validation(path, cwd) == Err::<(), PathError>(PathError::TooLong),
{
}


} // verus!
