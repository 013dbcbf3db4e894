//! The grammar of paths: bytes separated by `/` into components, read as a
//! POSIX system reads them, and resolved without looking at the file
//! system.

use vstd::prelude::*;

verus! {

/// The byte that separates the components of a path.
pub const SEPARATOR: u8 = 47;

/// The byte `.`; one of it names the current directory, two the parent.
pub const DOT: u8 = 46;

/// One component of a path, as the contracts see it.
pub enum Part {
    /// The root marker: a separator at the very start of the path.
    Root,
    /// The current-directory marker `.`.
    Current,
    /// The parent-directory reference `..`.
    Parent,
    /// A plain name: a non-empty run of bytes other than `.` and `..`.
    Name(Seq<u8>),
}

/// One component of a path.
#[derive(Debug, Clone, PartialEq, Eq)]
pub enum Component {
    RootDir,
    CurDir,
    ParentDir,
    Normal(Vec<u8>),
}

impl View for Component {
    type V = Part;

    open spec fn view(&self) -> Part {
        match self {
            Component::RootDir => Part::Root,
            Component::CurDir => Part::Current,
            Component::ParentDir => Part::Parent,
            Component::Normal(name) => Part::Name(name@),
        }
    }
}

/// The views of a sequence of components, in order.
pub open spec fn parts_of(components: Seq<Component>) -> Seq<Part> {
    Seq::new(components.len(), |i: int| components[i]@)
}

/// Whether the path begins with a root indicator.
pub open spec fn has_root(path: Seq<u8>) -> bool {
    path.len() > 0 && path[0] == SEPARATOR
}

/// The index of the first separator at or after `from`, or the length of the
/// path where there is none.
pub open spec fn segment_end(path: Seq<u8>, from: int) -> int
    decreases path.len() - from,
{
    if from < 0 || from >= path.len() || path[from] == SEPARATOR {
        from
    } else {
        segment_end(path, from + 1)
    }
}

/// What one segment between separators contributes: nothing where it is
/// empty, else a marker or a name.
pub open spec fn segment_parts(segment: Seq<u8>) -> Seq<Part> {
    if segment.len() == 0 {
        Seq::empty()
    } else if segment =~= seq![DOT] {
        seq![Part::Current]
    } else if segment =~= seq![DOT, DOT] {
        seq![Part::Parent]
    } else {
        seq![Part::Name(segment)]
    }
}

/// The components of the segments that start at `from`, which is the start of
/// the path or follows a separator.
pub open spec fn parts_from(path: Seq<u8>, from: int) -> Seq<Part>
    decreases path.len() - from,
{
    if from < 0 || from >= path.len() {
        Seq::empty()
    } else {
        let end = segment_end(path, from);
        if from <= end < path.len() {
            segment_parts(path.subrange(from, end)) + parts_from(path, end + 1)
        } else if from <= end == path.len() {
            segment_parts(path.subrange(from, end))
        } else {
            Seq::empty()
        }
    }
}

/// The components of a path: the root marker where the path begins with a
/// separator, then one component for each non-empty segment.
pub open spec fn components_of(path: Seq<u8>) -> Seq<Part> {
    if has_root(path) {
        seq![Part::Root] + parts_from(path, 0)
    } else {
        parts_from(path, 0)
    }
}

/// `segment_end` stops inside the path, at or after `from`, on a separator or
/// at the end, and passes no separator on the way.
pub proof fn lemma_segment_end(path: Seq<u8>, from: int)
    requires
        0 <= from <= path.len(),
    ensures
        from <= segment_end(path, from) <= path.len(),
        segment_end(path, from) < path.len() ==> path[segment_end(path, from)] == SEPARATOR,
        forall|k: int| from <= k < segment_end(path, from) ==> path[k] != SEPARATOR,
    decreases path.len() - from,
{
    if from < path.len() && path[from] != SEPARATOR {
        lemma_segment_end(path, from + 1);
    }
}

/// Copies a run of bytes into a vector of its own.
fn copy_range(bytes: &[u8], start: usize, end: usize) -> (copy: Vec<u8>)
    requires
        start <= end <= bytes@.len(),
    ensures
        copy@ == bytes@.subrange(start as int, end as int),
{
    let mut copy: Vec<u8> = Vec::new();
    let mut i: usize = start;
    while i < end
        invariant
            start <= i <= end <= bytes@.len(),
            copy@ == bytes@.subrange(start as int, i as int),
        decreases end - i,
    {
        copy.push(bytes[i]);
        i += 1;
        assert(copy@ =~= bytes@.subrange(start as int, i as int));
    }
    copy
}

/// Splits a path into its components.
pub fn parse_components(path: &[u8]) -> (components: Vec<Component>)
    ensures
        parts_of(components@) == components_of(path@),
{
    let mut components: Vec<Component> = Vec::new();
    let n: usize = path.len();
    if n > 0 && path[0] == SEPARATOR {
        components.push(Component::RootDir);
    }
    let ghost lead: Seq<Part> = parts_of(components@);
    assert(lead =~= if has_root(path@) { seq![Part::Root] } else { Seq::empty() });
    let mut start: usize = 0;
    while start < n
        invariant
            n == path@.len(),
            start <= n,
            parts_of(components@) + parts_from(path@, start as int) == lead + parts_from(path@, 0),
        decreases n - start,
    {
        let mut end: usize = start;
        while end < n && path[end] != SEPARATOR
            invariant
                start <= end <= n,
                n == path@.len(),
                segment_end(path@, end as int) == segment_end(path@, start as int),
            decreases n - end,
        {
            end += 1;
        }
        let ghost before: Seq<Part> = parts_of(components@);
        let len: usize = end - start;
        if len == 0 {
        } else if len == 1 && path[start] == DOT {
            components.push(Component::CurDir);
            assert(path@.subrange(start as int, end as int) =~= seq![DOT]);
        } else if len == 2 && path[start] == DOT && path[start + 1] == DOT {
            components.push(Component::ParentDir);
            assert(path@.subrange(start as int, end as int) =~= seq![DOT, DOT]);
        } else {
            let name = copy_range(path, start, end);
            components.push(Component::Normal(name));
        }
        proof {
            let segment = path@.subrange(start as int, end as int);
            assert(segment.len() == len);
            if segment =~= seq![DOT] {
                assert(segment[0] == DOT);
            }
            if segment =~= seq![DOT, DOT] {
                assert(segment[0] == DOT && segment[1] == DOT);
            }
            assert(parts_of(components@) =~= before + segment_parts(segment));
            lemma_segment_end(path@, start as int);
            let next = if end < n { end + 1 } else { n as int };
            assert(parts_from(path@, start as int) =~= segment_parts(segment) + parts_from(
                path@,
                next,
            ));
            assert(before + (segment_parts(segment) + parts_from(path@, next)) =~= (before
                + segment_parts(segment)) + parts_from(path@, next));
        }
        start = if end < n { end + 1 } else { n };
    }
    assert(parts_from(path@, start as int) =~= Seq::<Part>::empty());
    assert(parts_of(components@) =~= lead + parts_from(path@, 0));
    components
}

/// What one component does to the components resolved so far: the root
/// starts over, `.` changes nothing, `..` leaves the last name (stays at the
/// root, and is kept where there is no name to leave), a name is entered.
pub open spec fn enter(resolved: Seq<Part>, part: Part) -> Seq<Part> {
    match part {
        Part::Root => seq![Part::Root],
        Part::Current => resolved,
        Part::Parent => if resolved.len() > 0 && resolved.last() is Name {
            resolved.drop_last()
        } else if resolved.len() > 0 && resolved.last() is Root {
            resolved
        } else {
            resolved.push(Part::Parent)
        },
        Part::Name(_) => resolved.push(part),
    }
}

/// The components reached by following `parts` from `resolved`, without
/// looking at the file system.
pub open spec fn resolve_onto(resolved: Seq<Part>, parts: Seq<Part>) -> Seq<Part>
    decreases parts.len(),
{
    if parts.len() == 0 {
        resolved
    } else {
        resolve_onto(enter(resolved, parts[0]), parts.drop_first())
    }
}

/// The normal form of a sequence of components.
pub open spec fn normalize(parts: Seq<Part>) -> Seq<Part> {
    resolve_onto(Seq::empty(), parts)
}

/// Whether following `parts` from the directory `base` ends in or below that
/// directory.
pub open spec fn stays_within(base: Seq<Part>, parts: Seq<Part>) -> bool {
    normalize(base).is_prefix_of(resolve_onto(normalize(base), parts))
}

/// Whether every component is a plain name or the current-directory marker.
pub open spec fn only_descends(parts: Seq<Part>) -> bool {
    forall|i: int| 0 <= i < parts.len() ==> (#[trigger] parts[i] is Name || parts[i] is Current)
}

/// Following plain names and `.` from a place below `base` ends below `base`.
pub proof fn lemma_descent_keeps_prefix(base: Seq<Part>, resolved: Seq<Part>, parts: Seq<Part>)
    requires
        only_descends(parts),
        base.is_prefix_of(resolved),
    ensures
        base.is_prefix_of(resolve_onto(resolved, parts)),
    decreases parts.len(),
{
    if parts.len() > 0 {
        let next = enter(resolved, parts[0]);
        assert(parts[0] is Name || parts[0] is Current);
        assert(base.is_prefix_of(next)) by {
            assert(next.subrange(0, base.len() as int) =~= resolved.subrange(0, base.len() as int));
        }
        assert(only_descends(parts.drop_first())) by {
            assert forall|i: int| 0 <= i < parts.drop_first().len() implies (
            #[trigger] parts.drop_first()[i] is Name || parts.drop_first()[i] is Current) by {
                assert(parts.drop_first()[i] == parts[i + 1]);
            }
        }
        lemma_descent_keeps_prefix(base, next, parts.drop_first());
    }
}

/// A path made of plain names and `.` alone never leaves the directory it is
/// resolved against, whatever that directory is.
pub proof fn lemma_descent_stays_within(base: Seq<Part>, parts: Seq<Part>)
    requires
        only_descends(parts),
    ensures
        stays_within(base, parts),
{
    let root = normalize(base);
    assert(root.subrange(0, root.len() as int) =~= root);
    lemma_descent_keeps_prefix(root, root, parts);
}

/// Following `first` and then `second` is following the two in a row.
pub proof fn lemma_resolve_concat(resolved: Seq<Part>, first: Seq<Part>, second: Seq<Part>)
    ensures
        resolve_onto(resolved, first + second) == resolve_onto(
            resolve_onto(resolved, first),
            second,
        ),
    decreases first.len(),
{
    if first.len() == 0 {
        assert(first + second =~= second);
    } else {
        assert((first + second)[0] == first[0]);
        assert((first + second).drop_first() =~= first.drop_first() + second);
        lemma_resolve_concat(enter(resolved, first[0]), first.drop_first(), second);
    }
}

/// To stay within a directory is this: the path joined onto the directory,
/// in normal form, begins with the normal form of the directory.
pub proof fn lemma_stays_within_joined(base: Seq<Part>, parts: Seq<Part>)
    ensures
        stays_within(base, parts) <==> normalize(base).is_prefix_of(normalize(base + parts)),
{
    lemma_resolve_concat(Seq::empty(), base, parts);
}

/// A `.` anywhere in a path changes nothing of where the path leads.
pub proof fn lemma_current_is_ignored(resolved: Seq<Part>, first: Seq<Part>, second: Seq<Part>)
    ensures
        resolve_onto(resolved, first + seq![Part::Current] + second) == resolve_onto(
            resolved,
            first + second,
        ),
{
    let reached = resolve_onto(resolved, first);
    lemma_resolve_concat(resolved, first, seq![Part::Current]);
    lemma_resolve_concat(resolved, first + seq![Part::Current], second);
    lemma_resolve_concat(resolved, first, second);
    let marker = seq![Part::Current];
    assert(marker.drop_first().len() == 0);
    assert(resolve_onto(reached, marker) == resolve_onto(
        enter(reached, marker[0]),
        marker.drop_first(),
    ));
}

impl Component {
    /// A copy of this component.
    pub fn duplicate(&self) -> (copy: Component)
        ensures
            copy@ == self@,
    {
        match self {
            Component::RootDir => Component::RootDir,
            Component::CurDir => Component::CurDir,
            Component::ParentDir => Component::ParentDir,
            Component::Normal(name) => {
                let bytes = copy_range(name.as_slice(), 0, name.len());
                assert(bytes@ =~= name@);
                Component::Normal(bytes)
            },
        }
    }

    /// Whether two components are the same marker or the same name.
    pub fn same_as(&self, other: &Component) -> (same: bool)
        ensures
            same == (self@ == other@),
    {
        match (self, other) {
            (Component::RootDir, Component::RootDir) => true,
            (Component::CurDir, Component::CurDir) => true,
            (Component::ParentDir, Component::ParentDir) => true,
            (Component::Normal(a), Component::Normal(b)) => {
                let same = same_bytes(a.as_slice(), b.as_slice());
                assert(same == (a@ == b@));
                same
            },
            _ => false,
        }
    }
}

/// Whether two runs of bytes are equal.
fn same_bytes(a: &[u8], b: &[u8]) -> (same: bool)
    ensures
        same == (a@ == b@),
{
    if a.len() != b.len() {
        return false;
    }
    let mut i: usize = 0;
    while i < a.len()
        invariant
            a@.len() == b@.len(),
            i <= a@.len(),
            forall|k: int| 0 <= k < i ==> a@[k] == b@[k],
        decreases a@.len() - i,
    {
        if a[i] != b[i] {
            return false;
        }
        i += 1;
    }
    assert(a@ =~= b@);
    true
}

/// Follows `components` from the components resolved so far.
pub fn resolve(resolved: Vec<Component>, components: &Vec<Component>) -> (reached: Vec<Component>)
    ensures
        parts_of(reached@) == resolve_onto(parts_of(resolved@), parts_of(components@)),
{
    let mut reached = resolved;
    let mut i: usize = 0;
    assert(parts_of(components@).subrange(0, components@.len() as int) =~= parts_of(components@));
    while i < components.len()
        invariant
            i <= components@.len(),
            resolve_onto(
                parts_of(reached@),
                parts_of(components@).subrange(i as int, components@.len() as int),
            ) == resolve_onto(parts_of(resolved@), parts_of(components@)),
        decreases components@.len() - i,
    {
        let ghost before = parts_of(reached@);
        let ghost rest = parts_of(components@).subrange(i as int, components@.len() as int);
        assert(rest[0] == components@[i as int]@);
        assert(rest.drop_first() =~= parts_of(components@).subrange(
            i + 1,
            components@.len() as int,
        ));
        match &components[i] {
            Component::RootDir => {
                reached = Vec::new();
                reached.push(Component::RootDir);
                assert(parts_of(reached@) =~= seq![Part::Root]);
            },
            Component::CurDir => {},
            Component::ParentDir => {
                let depth: usize = reached.len();
                if depth > 0 && reached[depth - 1].is_normal() {
                    reached.pop();
                    assert(parts_of(reached@) =~= before.drop_last());
                } else if depth > 0 && reached[depth - 1].is_root() {
                    assert(before.last() is Root);
                } else {
                    reached.push(Component::ParentDir);
                    assert(parts_of(reached@) =~= before.push(Part::Parent));
                }
            },
            Component::Normal(_) => {
                let entered = components[i].duplicate();
                reached.push(entered);
                assert(parts_of(reached@) =~= before.push(components@[i as int]@));
            },
        }
        assert(parts_of(reached@) == enter(before, rest[0]));
        i += 1;
    }
    assert(parts_of(components@).subrange(i as int, components@.len() as int).len() == 0);
    reached
}

impl Component {
    /// Whether this is a plain name.
    pub fn is_normal(&self) -> (normal: bool)
        ensures
            normal == (self@ is Name),
    {
        match self {
            Component::Normal(_) => true,
            _ => false,
        }
    }

    /// Whether this is the root marker.
    pub fn is_root(&self) -> (root: bool)
        ensures
            root == (self@ is Root),
    {
        match self {
            Component::RootDir => true,
            _ => false,
        }
    }
}

/// Whether `whole` begins with the components of `prefix`.
pub fn begins_with(whole: &Vec<Component>, prefix: &Vec<Component>) -> (begins: bool)
    ensures
        begins == parts_of(prefix@).is_prefix_of(parts_of(whole@)),
{
    if prefix.len() > whole.len() {
        return false;
    }
    let mut i: usize = 0;
    while i < prefix.len()
        invariant
            prefix@.len() <= whole@.len(),
            i <= prefix@.len(),
            forall|k: int| 0 <= k < i ==> prefix@[k]@ == whole@[k]@,
        decreases prefix@.len() - i,
    {
        if !prefix[i].same_as(&whole[i]) {
            assert(parts_of(prefix@)[i as int] != parts_of(whole@).subrange(
                0,
                prefix@.len() as int,
            )[i as int]);
            return false;
        }
        i += 1;
    }
    assert(parts_of(prefix@) =~= parts_of(whole@).subrange(0, prefix@.len() as int));
    true
}

/// Whether following `components` from the directory `base` ends in or below
/// that directory.
pub fn remains_within(base: &Vec<Component>, components: &Vec<Component>) -> (within: bool)
    ensures
        within == stays_within(parts_of(base@), parts_of(components@)),
{
    assert(parts_of(Seq::<Component>::empty()) =~= Seq::<Part>::empty());
    let anchor = resolve(Vec::new(), base);
    let reached = resolve(resolve(Vec::new(), base), components);
    begins_with(&reached, &anchor)
}


} // verus!
