//! Paths as byte strings: their raw components, the split into parent and
//! trailing name, and containment of one canonical path in another.

use vstd::prelude::*;
use vstd::string::StringExecFns;
use crate::error::{Error, ErrorImpl, ErrorView};
use crate::sys::names_of;

verus! {

/// The separator, `/`.
pub const SLASH: u8 = 47;

/// The byte `.`.
pub const PERIOD: u8 = 46;

/// The component `.`.
pub open spec fn dot() -> Seq<u8> {
    seq![PERIOD]
}

/// The component `..`.
pub open spec fn dotdot() -> Seq<u8> {
    seq![PERIOD, PERIOD]
}

/// The path `/`.
pub open spec fn slash() -> Seq<u8> {
    seq![SLASH]
}

/// The raw components of a path: what stands between its separators, empty
/// components included. A path without a separator is its own single
/// component, so the empty path has one empty component; a path that ends
/// in a separator has an empty last component.
pub open spec fn split(path: Seq<u8>) -> Seq<Seq<u8>>
    decreases path.len(),
{
    if path.len() == 0 {
        seq![Seq::empty()]
    } else {
        let before = split(path.drop_last());
        if path.last() == SLASH {
            before.push(Seq::empty())
        } else {
            before.drop_last().push(before.last().push(path.last()))
        }
    }
}

/// Components put together again, with a separator between neighbours.
pub open spec fn join(components: Seq<Seq<u8>>) -> Seq<u8>
    decreases components.len(),
{
    if components.len() == 0 {
        Seq::empty()
    } else if components.len() == 1 {
        components[0]
    } else {
        join(components.drop_last()) + slash() + components.last()
    }
}

/// Whether a byte string is free of separators, as every single name is.
pub open spec fn slash_free(name: Seq<u8>) -> bool {
    forall|i: int| 0 <= i < name.len() ==> name[i] != SLASH
}

/// Whether a path starts at the root.
pub open spec fn absolute(path: Seq<u8>) -> bool {
    path.len() > 0 && path[0] == SLASH
}

/// The index of the last separator of a path.
pub open spec fn last_slash(path: Seq<u8>) -> Option<int>
    decreases path.len(),
{
    if path.len() == 0 {
        None
    } else if path.last() == SLASH {
        Some(path.len() - 1)
    } else {
        last_slash(path.drop_last())
    }
}

/// The parent of a path and its trailing name. Without a separator the
/// parent is `.`; a separator at the very start leaves `/` as the parent;
/// after a trailing separator there is no name.
pub open spec fn parent_and_name(path: Seq<u8>) -> (Seq<u8>, Option<Seq<u8>>) {
    match last_slash(path) {
        None => (dot(), Some(path)),
        Some(cut) => (
            if cut == 0 {
                slash()
            } else {
                path.take(cut)
            },
            if cut + 1 == path.len() {
                None
            } else {
                Some(path.skip(cut + 1))
            },
        ),
    }
}

/// Whether the canonical path `path` lies in the tree under the canonical
/// path `root`: it is `root` itself, or `root`, a separator, and more.
pub open spec fn within(root: Seq<u8>, path: Seq<u8>) -> bool {
    &&& 0 < root.len() <= path.len()
    &&& path.take(root.len() as int) == root
    &&& (path.len() == root.len() || root.last() == SLASH || path[root.len() as int] == SLASH)
}

/// A path that lies within a root begins with that root.
pub proof fn within_begins_with(root: Seq<u8>, path: Seq<u8>)
    requires
        within(root, path),
    ensures
        root.is_prefix_of(path),
{
    assert(path.take(root.len() as int) =~= path.subrange(0, root.len() as int));
}

/// Every path has a component, no component holds a separator, and the
/// components joined give the path back.
pub proof fn split_is_faithful(path: Seq<u8>)
    ensures
        split(path).len() >= 1,
        forall|i: int| 0 <= i < split(path).len() ==> slash_free(#[trigger] split(path)[i]),
        join(split(path)) == path,
    decreases path.len(),
{
    if path.len() == 0 {
        assert(join(split(path)) =~= path);
    } else {
        let shorter = path.drop_last();
        split_is_faithful(shorter);
        let before = split(shorter);
        if path.last() == SLASH {
            let all = before.push(Seq::empty());
            assert(all.drop_last() =~= before);
            assert(join(all) =~= join(before) + slash() + Seq::<u8>::empty());
            assert(join(all) =~= path);
        } else {
            let last = before.last().push(path.last());
            let all = before.drop_last().push(last);
            assert(all.drop_last() =~= before.drop_last());
            assert(shorter.push(path.last()) =~= path);
            if before.len() == 1 {
                assert(join(before) == before[0]);
                assert(all.len() == 1 && all[0] == last);
                assert(join(all) =~= path);
            } else {
                assert(join(before) == join(before.drop_last()) + slash() + before.last());
                assert(join(all) == join(before.drop_last()) + slash() + last);
                assert(join(all) =~= path);
            }
        }
    }
}

/// The components of a path that ends in a separator and a name are those
/// of what stands before the separator, and the name.
pub proof fn split_of_parent_and_name(parent: Seq<u8>, name: Seq<u8>)
    requires
        slash_free(name),
    ensures
        split(parent + slash() + name) == split(parent).push(name),
    decreases name.len(),
{
    let path = parent + slash() + name;
    if name.len() == 0 {
        assert(path.drop_last() =~= parent);
        assert(name =~= Seq::<u8>::empty());
    } else {
        let shorter = name.drop_last();
        split_of_parent_and_name(parent, shorter);
        assert(path.drop_last() =~= parent + slash() + shorter);
        assert(path.last() == name.last());
        let before = split(parent).push(shorter);
        assert(before.drop_last() =~= split(parent));
        assert(before.last().push(name.last()) =~= name);
    }
}

/// A path without a separator is its own single component.
pub proof fn split_of_name(name: Seq<u8>)
    requires
        slash_free(name),
    ensures
        split(name) == seq![name],
    decreases name.len(),
{
    if name.len() == 0 {
        assert(name =~= Seq::<u8>::empty());
    } else {
        split_of_name(name.drop_last());
        let before = seq![name.drop_last()];
        assert(name.drop_last().push(name.last()) =~= name);
        assert(before.last() == name.drop_last());
        assert(before.drop_last().push(before.last().push(name.last())) =~= seq![name]);
    }
}

/// What the last separator of a path divides: the path is what stands
/// before it, the separator, and a name without separators.
pub proof fn last_slash_divides(path: Seq<u8>)
    ensures
        match last_slash(path) {
            None => slash_free(path),
            Some(cut) => 0 <= cut < path.len() && path[cut] == SLASH && slash_free(
                path.skip(cut + 1),
            ) && path == path.take(cut) + slash() + path.skip(cut + 1),
        },
    decreases path.len(),
{
    if path.len() == 0 {
    } else if path.last() == SLASH {
        let cut = path.len() - 1;
        assert(path =~= path.take(cut) + slash() + path.skip(cut + 1));
    } else {
        let shorter = path.drop_last();
        last_slash_divides(shorter);
        match last_slash(shorter) {
            None => {
                assert forall|i: int| 0 <= i < path.len() implies path[i] != SLASH by {
                    if i < shorter.len() {
                        assert(shorter[i] == path[i]);
                    }
                }
            },
            Some(cut) => {
                assert(shorter[cut] == path[cut]);
                let tail = path.skip(cut + 1);
                let shorter_tail = shorter.skip(cut + 1);
                assert forall|i: int| 0 <= i < tail.len() implies #[trigger] tail[i] != SLASH by {
                    if i < shorter_tail.len() {
                        assert(shorter_tail[i] == tail[i]);
                    }
                }
                assert(path =~= path.take(cut) + slash() + path.skip(cut + 1));
            },
        }
    }
}

/// A copy of a byte string.
pub fn copy_bytes(bytes: &[u8]) -> (copy: Vec<u8>)
    ensures
        copy@ == bytes@,
{
    let mut copy: Vec<u8> = Vec::new();
    let mut i: usize = 0;
    while i < bytes.len()
        invariant
            i <= bytes.len(),
            copy@ == bytes@.take(i as int),
        decreases bytes.len() - i,
    {
        copy.push(bytes[i]);
        assert(bytes@.take(i + 1) =~= bytes@.take(i as int).push(bytes@[i as int]));
        i += 1;
    }
    assert(bytes@.take(i as int) =~= bytes@);
    copy
}

/// Whether two byte strings are the same.
pub fn same_bytes(left: &[u8], right: &[u8]) -> (same: bool)
    ensures
        same == (left@ == right@),
{
    if left.len() != right.len() {
        return false;
    }
    let mut i: usize = 0;
    while i < left.len()
        invariant
            i <= left.len(),
            left.len() == right.len(),
            left@.take(i as int) == right@.take(i as int),
        decreases left.len() - i,
    {
        if left[i] != right[i] {
            return false;
        }
        assert(left@.take(i + 1) =~= left@.take(i as int).push(left@[i as int]));
        assert(right@.take(i + 1) =~= right@.take(i as int).push(right@[i as int]));
        i += 1;
    }
    assert(left@.take(i as int) =~= left@);
    assert(right@.take(i as int) =~= right@);
    true
}

/// Whether two strings are the same.
pub fn same_str(left: &str, right: &str) -> (same: bool)
    ensures
        same == (left@ == right@),
{
    let a = String::from_str(left);
    let b = String::from_str(right);
    a == b
}

/// Whether a component is `.`.
pub fn is_dot(name: &[u8]) -> (yes: bool)
    ensures
        yes == (name@ == dot()),
{
    let yes = name.len() == 1 && name[0] == PERIOD;
    proof {
        if yes {
            assert(name@ =~= dot());
        }
    }
    yes
}

/// Whether a component is `..`.
pub fn is_dotdot(name: &[u8]) -> (yes: bool)
    ensures
        yes == (name@ == dotdot()),
{
    let yes = name.len() == 2 && name[0] == PERIOD && name[1] == PERIOD;
    proof {
        if yes {
            assert(name@ =~= dotdot());
        }
    }
    yes
}

/// Whether a path starts at the root.
pub fn is_absolute(path: &[u8]) -> (yes: bool)
    ensures
        yes == absolute(path@),
{
    path.len() > 0 && path[0] == SLASH
}

/// The raw components of a path, in order.
pub fn raw_components(path: &[u8]) -> (components: Vec<Vec<u8>>)
    ensures
        names_of(components@) == split(path@),
        components@.len() >= 1,
{
    let mut components: Vec<Vec<u8>> = Vec::new();
    let mut current: Vec<u8> = Vec::new();
    let mut i: usize = 0;
    assert(path@.take(0) =~= Seq::<u8>::empty());
    assert(names_of(components@).push(current@) =~= seq![Seq::<u8>::empty()]);
    while i < path.len()
        invariant
            i <= path.len(),
            names_of(components@).push(current@) == split(path@.take(i as int)),
        decreases path.len() - i,
    {
        let ghost before = split(path@.take(i as int));
        let ghost longer = path@.take(i + 1);
        assert(longer.drop_last() =~= path@.take(i as int));
        assert(longer.last() == path@[i as int]);
        let ghost held = names_of(components@);
        if path[i] == SLASH {
            components.push(current);
            current = Vec::new();
            assert(names_of(components@) =~= before);
            assert(names_of(components@).push(current@) =~= before.push(Seq::empty()));
        } else {
            let ghost last = current@;
            current.push(path[i]);
            assert(before.drop_last() =~= held);
            assert(before.last() == last);
        }
        i += 1;
    }
    assert(path@.take(i as int) =~= path@);
    let ghost held = names_of(components@);
    components.push(current);
    assert(names_of(components@) =~= held.push(current@));
    components
}

/// Splits a path into the path of its parent and its trailing name. There
/// is no name where the path ends in a separator.
///
/// Fails with `InvalidArgument` on the empty path, and on no other.
pub fn path_split(path: &[u8]) -> (split: Result<(Vec<u8>, Option<Vec<u8>>), Error>)
    ensures
        path@.len() == 0 <==> split is Err,
        match split {
            Ok((parent, name)) => {
                &&& parent@ == parent_and_name(path@).0
                &&& match name {
                    Some(name) => parent_and_name(path@).1 == Some(name@) && slash_free(name@)
                        && name@.len() > 0,
                    None => parent_and_name(path@).1.is_none(),
                }
            },
            Err(e) => e@ == empty_path_error(),
        },
{
    if path.len() == 0 {
        return Err(
            Error::new(
                ErrorImpl::InvalidArgument {
                    name: String::from_str("path"),
                    description: String::from_str("path is empty"),
                },
            ),
        );
    }
    proof {
        last_slash_divides(path@);
    }
    let mut cut: usize = path.len();
    assert(path@.take(cut as int) =~= path@);
    while cut > 0 && path[cut - 1] != SLASH
        invariant
            cut <= path.len(),
            last_slash(path@) == last_slash(path@.take(cut as int)),
        decreases cut,
    {
        assert(path@.take(cut as int).drop_last() =~= path@.take(cut - 1));
        cut -= 1;
    }
    if cut == 0 {
        assert(path@.take(0).len() == 0);
        let mut parent: Vec<u8> = Vec::new();
        parent.push(PERIOD);
        assert(parent@ =~= dot());
        return Ok((parent, Some(copy_bytes(path))));
    }
    assert(path@.take(cut as int).last() == SLASH);
    let at: usize = cut - 1;
    assert(last_slash(path@) == Some(at as int));
    let parent = if at == 0 {
        let mut root: Vec<u8> = Vec::new();
        root.push(SLASH);
        assert(root@ =~= slash());
        root
    } else {
        let mut head: Vec<u8> = Vec::new();
        let mut i: usize = 0;
        while i < at
            invariant
                i <= at < path.len(),
                head@ == path@.take(i as int),
            decreases at - i,
        {
            head.push(path[i]);
            assert(path@.take(i + 1) =~= path@.take(i as int).push(path@[i as int]));
            i += 1;
        }
        head
    };
    if cut == path.len() {
        Ok((parent, None))
    } else {
        let mut name: Vec<u8> = Vec::new();
        let mut i: usize = cut;
        while i < path.len()
            invariant
                cut <= i <= path.len(),
                name@ == path@.subrange(cut as int, i as int),
            decreases path.len() - i,
        {
            name.push(path[i]);
            assert(path@.subrange(cut as int, i + 1) =~= path@.subrange(cut as int, i as int).push(
                path@[i as int],
            ));
            i += 1;
        }
        assert(path@.subrange(cut as int, path@.len() as int) =~= path@.skip(cut as int));
        Ok((parent, Some(name)))
    }
}

/// The error with which [`path_split`] refuses the empty path.
pub open spec fn empty_path_error() -> ErrorView {
    ErrorView::InvalidArgument { name: "path"@, description: "path is empty"@ }
}

/// Whether the canonical path `path` lies in the tree under the canonical
/// path `root`.
pub fn is_within(root: &[u8], path: &[u8]) -> (yes: bool)
    ensures
        yes == within(root@, path@),
{
    if root.len() == 0 || root.len() > path.len() {
        return false;
    }
    let mut i: usize = 0;
    while i < root.len()
        invariant
            i <= root.len() <= path.len(),
            path@.take(i as int) == root@.take(i as int),
        decreases root.len() - i,
    {
        if root[i] != path[i] {
            proof {
                if path@.take(root.len() as int) == root@ {
                    assert(path@.take(root.len() as int)[i as int] == root@[i as int]);
                }
            }
            return false;
        }
        assert(path@.take(i + 1) =~= path@.take(i as int).push(path@[i as int]));
        assert(root@.take(i + 1) =~= root@.take(i as int).push(root@[i as int]));
        i += 1;
    }
    assert(root@.take(i as int) =~= root@);
    path.len() == root.len() || root[root.len() - 1] == SLASH || path[root.len()] == SLASH
}

} // verus!
