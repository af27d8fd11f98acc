//! A model of the kernel, to state what the operations achieve: a tree of
//! inodes, what it answers to each system call, and what becomes of it.
//!
//! The model names each inode by one number, and a handle by the number of
//! the inode that it refers to: two handles to one inode are one number
//! here. The tree is only changed by the calls that the model is given; it
//! has `/proc`, it has no `openat2` and no hard links: what the kernel
//! resolves natively is the kernel's to get right.

use vstd::prelude::*;
use crate::error::ErrorView;
use crate::path::{dot, dotdot, slash};
use crate::remove_all::single_name;
use crate::step::{NextView, StepView};
use crate::sys::{
    kind_of_mode, FileKind, InodeId, ReplyView, SyscallView, AT_REMOVEDIR, EISDIR, ENOENT, ENOTDIR,
    O_CREAT, O_DIRECTORY, S_IFBLK, S_IFCHR, S_IFDIR, S_IFIFO, S_IFLNK, S_IFREG,
};

verus! {

pub const EBADF: i32 = 9;

pub const EEXIST: i32 = 17;

pub const EINVAL: i32 = 22;

pub const ENFILE: i32 = 23;

pub const ENOSYS: i32 = 38;

pub const ENOTEMPTY: i32 = 39;

/// The file-type bits of a socket.
pub const S_IFSOCK: u32 = 0o140000;

/// An inode of the model.
pub struct Node {
    pub kind: FileKind,
    pub id: InodeId,
    /// The path that the kernel reports for the inode.
    pub path: Seq<u8>,
    /// Of a directory: the directory that holds it.
    pub parent: i32,
    /// Of a directory: its entries.
    pub entries: Map<Seq<u8>, i32>,
    /// Of a symlink: its target.
    pub target: Seq<u8>,
}

/// A tree of inodes.
pub struct Tree {
    pub nodes: Map<i32, Node>,
}

/// The mode that `fstat` reports for an inode of the given kind.
pub open spec fn mode_of(kind: FileKind) -> u32 {
    match kind {
        FileKind::Regular => S_IFREG,
        FileKind::Directory => S_IFDIR,
        FileKind::Symlink => S_IFLNK,
        FileKind::Fifo => S_IFIFO,
        FileKind::CharacterDevice => S_IFCHR,
        FileKind::BlockDevice => S_IFBLK,
        FileKind::Other => S_IFSOCK,
    }
}

/// The kind is read back from the mode that stands for it.
pub proof fn kind_of_mode_of(kind: FileKind)
    ensures
        kind_of_mode(mode_of(kind)) == kind,
{
    assert(0o100000u32 & 0o170000u32 == 0o100000u32) by (bit_vector);
    assert(0o040000u32 & 0o170000u32 == 0o040000u32) by (bit_vector);
    assert(0o120000u32 & 0o170000u32 == 0o120000u32) by (bit_vector);
    assert(0o010000u32 & 0o170000u32 == 0o010000u32) by (bit_vector);
    assert(0o020000u32 & 0o170000u32 == 0o020000u32) by (bit_vector);
    assert(0o060000u32 & 0o170000u32 == 0o060000u32) by (bit_vector);
    assert(0o140000u32 & 0o170000u32 == 0o140000u32) by (bit_vector);
}

/// The path of the entry `name` of the directory with the path `dir`.
pub open spec fn child_path(dir: Seq<u8>, name: Seq<u8>) -> Seq<u8> {
    if dir.len() > 0 && dir.last() == crate::path::SLASH {
        dir + name
    } else {
        dir + slash() + name
    }
}

impl Tree {
    /// Whether a number names an inode of the tree.
    pub open spec fn has(self, fd: i32) -> bool {
        self.nodes.dom().contains(fd)
    }

    /// Whether a number names a directory of the tree.
    pub open spec fn is_dir(self, fd: i32) -> bool {
        self.has(fd) && self.nodes[fd].kind == FileKind::Directory
    }

    /// What a name leads to in a directory: the directory itself for `.`,
    /// the directory that holds it for `..`, and else what the entry of
    /// that name refers to.
    pub open spec fn lookup(self, dir: i32, name: Seq<u8>) -> Option<i32> {
        if name == dot() {
            Some(dir)
        } else if name == dotdot() {
            Some(self.nodes[dir].parent)
        } else if self.nodes[dir].entries.dom().contains(name) {
            Some(self.nodes[dir].entries[name])
        } else {
            None
        }
    }

    /// The tree is closed: what the entries and the parents of its
    /// directories refer to is in the tree, and each inode has a path.
    #[verifier::opaque]
    pub open spec fn wf(self) -> bool {
        forall|fd: i32| #[trigger]
            self.has(fd) ==> {
                &&& self.nodes[fd].path.len() > 0
                &&& self.nodes[fd].kind == FileKind::Directory ==> self.is_dir(
                    self.nodes[fd].parent,
                )
                &&& forall|name: Seq<u8>| #[trigger]
                    self.nodes[fd].entries.dom().contains(name) ==> self.has(
                        self.nodes[fd].entries[name],
                    )
            }
    }

    /// What closure says of one inode of the tree, and of one of its names.
    pub proof fn closed_at(self, fd: i32, name: Seq<u8>)
        requires
            self.wf(),
            self.has(fd),
        ensures
            self.nodes[fd].path.len() > 0,
            self.nodes[fd].kind == FileKind::Directory ==> self.is_dir(self.nodes[fd].parent),
            self.nodes[fd].entries.dom().contains(name) ==> self.has(self.nodes[fd].entries[name]),
            self.is_dir(fd) ==> (self.lookup(fd, name) matches Some(found) ==> self.has(found)),
    {
        reveal(Tree::wf);
    }

    /// A call that only reads leaves the tree as it is.
    pub proof fn reads_leave(self, call: SyscallView)
        requires
            call.reads_only(),
        ensures
            self.perform(call) == (self, self.answer(call)),
    {
    }

    /// What `openat` answers.
    pub open spec fn open_at(self, dir: i32, name: Seq<u8>, flags: i32) -> ReplyView {
        if !self.has(dir) {
            ReplyView::Failed(EBADF)
        } else if !self.is_dir(dir) {
            ReplyView::Failed(ENOTDIR)
        } else {
            match self.lookup(dir, name) {
                None => ReplyView::Failed(ENOENT),
                Some(fd) => if flags & O_DIRECTORY != 0 && !self.is_dir(fd) {
                    ReplyView::Failed(ENOTDIR)
                } else {
                    ReplyView::Fd(fd)
                },
            }
        }
    }

    /// What the tree answers to a call that only reads it.
    pub open spec fn answer(self, call: SyscallView) -> ReplyView {
        match call {
            SyscallView::Dup { fd } => if self.has(fd) {
                ReplyView::Fd(fd)
            } else {
                ReplyView::Failed(EBADF)
            },
            SyscallView::OpenAt { dir, name, flags, mode } => self.open_at(dir, name, flags),
            SyscallView::OpenAt2 { .. } => ReplyView::Failed(ENOSYS),
            SyscallView::Reopen { fd, flags } => if !self.has(fd) {
                ReplyView::Failed(EBADF)
            } else if flags & O_DIRECTORY != 0 && !self.is_dir(fd) {
                ReplyView::Failed(ENOTDIR)
            } else {
                ReplyView::Fd(fd)
            },
            SyscallView::Fstat { fd } => if self.has(fd) {
                ReplyView::Stat {
                    mode: mode_of(self.nodes[fd].kind),
                    dev: self.nodes[fd].id.dev,
                    ino: self.nodes[fd].id.ino,
                }
            } else {
                ReplyView::Failed(EBADF)
            },
            SyscallView::ReadLink { fd } => if !self.has(fd) {
                ReplyView::Failed(EBADF)
            } else if self.nodes[fd].kind == FileKind::Symlink {
                ReplyView::Bytes(self.nodes[fd].target)
            } else {
                ReplyView::Failed(EINVAL)
            },
            SyscallView::FdPath { fd } => if self.has(fd) {
                ReplyView::Bytes(self.nodes[fd].path)
            } else {
                ReplyView::Failed(ENOENT)
            },
            _ => ReplyView::Failed(ENOSYS),
        }
    }

    /// Whether an identity is that of no inode of the tree.
    pub open spec fn unused(self, id: InodeId) -> bool {
        forall|fd: i32| #[trigger] self.has(fd) ==> self.nodes[fd].id != id
    }

    /// Whether a number is free to name a new inode.
    pub open spec fn free(self, fd: i32) -> bool {
        !self.has(fd)
    }

    /// The tree with a new inode as the entry `name` of `dir`.
    pub open spec fn with_entry(
        self,
        dir: i32,
        name: Seq<u8>,
        new: i32,
        kind: FileKind,
        id: InodeId,
        target: Seq<u8>,
    ) -> Tree {
        let node = Node {
            kind,
            id,
            path: child_path(self.nodes[dir].path, name),
            parent: dir,
            entries: Map::empty(),
            target,
        };
        let holder = Node { entries: self.nodes[dir].entries.insert(name, new), ..self.nodes[dir] };
        Tree { nodes: self.nodes.insert(new, node).insert(dir, holder) }
    }

    /// The tree without the entry `name` of `dir`. What the entry referred
    /// to stays an inode for the handles that refer to it.
    pub open spec fn without_entry(self, dir: i32, name: Seq<u8>) -> Tree {
        let holder = Node { entries: self.nodes[dir].entries.remove(name), ..self.nodes[dir] };
        Tree { nodes: self.nodes.insert(dir, holder) }
    }

    /// What becomes of the tree when an inode of the given kind is created
    /// as the entry `name` of `dir`, and what the call is answered.
    pub open spec fn create(self, dir: i32, name: Seq<u8>, kind: FileKind, target: Seq<u8>) -> (
        Tree,
        ReplyView,
    ) {
        if !self.has(dir) {
            (self, ReplyView::Failed(EBADF))
        } else if !self.is_dir(dir) {
            (self, ReplyView::Failed(ENOTDIR))
        } else if name == dot() || name == dotdot() {
            (self, ReplyView::Failed(EEXIST))
        } else if !single_name(name) {
            (self, ReplyView::Failed(ENOENT))
        } else if self.nodes[dir].entries.dom().contains(name) {
            (self, ReplyView::Failed(EEXIST))
        } else if !(exists|new: i32| self.free(new)) {
            (self, ReplyView::Failed(ENFILE))
        } else {
            let new = choose|new: i32| self.free(new);
            let id = choose|id: InodeId| self.unused(id);
            (self.with_entry(dir, name, new, kind, id, target), ReplyView::Done)
        }
    }

    /// What becomes of the tree when the entry `name` of `dir` is unlinked,
    /// and what the call is answered. Without flags the entry must be no
    /// directory; with `AT_REMOVEDIR` it must be an empty directory.
    pub open spec fn unlink(self, dir: i32, name: Seq<u8>, flags: i32) -> (Tree, ReplyView) {
        if !self.has(dir) {
            (self, ReplyView::Failed(EBADF))
        } else if !self.is_dir(dir) {
            (self, ReplyView::Failed(ENOTDIR))
        } else if flags != 0 && flags != AT_REMOVEDIR {
            (self, ReplyView::Failed(EINVAL))
        } else if name == dot() || name == dotdot() {
            (self, ReplyView::Failed(EINVAL))
        } else if !self.nodes[dir].entries.dom().contains(name) {
            (self, ReplyView::Failed(ENOENT))
        } else {
            let entry = self.nodes[dir].entries[name];
            if flags == 0 && self.is_dir(entry) {
                (self, ReplyView::Failed(EISDIR))
            } else if flags == AT_REMOVEDIR && !self.is_dir(entry) {
                (self, ReplyView::Failed(ENOTDIR))
            } else if flags == AT_REMOVEDIR && self.nodes[entry].entries.dom() != Set::<
                Seq<u8>,
            >::empty() {
                (self, ReplyView::Failed(ENOTEMPTY))
            } else {
                (self.without_entry(dir, name), ReplyView::Done)
            }
        }
    }

    /// What becomes of the tree when what is no directory is renamed
    /// without flags, and what the call is answered. The model renames
    /// within the tree what is no directory, to a name that is free or
    /// names what is no directory; it answers `EINVAL` to every other
    /// rename.
    pub open spec fn rename(
        self,
        old_dir: i32,
        old_name: Seq<u8>,
        new_dir: i32,
        new_name: Seq<u8>,
        flags: u32,
    ) -> (Tree, ReplyView) {
        if !self.has(old_dir) || !self.has(new_dir) {
            (self, ReplyView::Failed(EBADF))
        } else if !self.is_dir(old_dir) || !self.is_dir(new_dir) {
            (self, ReplyView::Failed(ENOTDIR))
        } else if flags != 0 || !single_name(old_name) || !single_name(new_name) {
            (self, ReplyView::Failed(EINVAL))
        } else if !self.nodes[old_dir].entries.dom().contains(old_name) {
            (self, ReplyView::Failed(ENOENT))
        } else {
            let moved = self.nodes[old_dir].entries[old_name];
            if !self.has(moved) || self.is_dir(moved) {
                (self, ReplyView::Failed(EINVAL))
            } else if self.nodes[new_dir].entries.dom().contains(new_name) && self.is_dir(
                self.nodes[new_dir].entries[new_name],
            ) {
                (self, ReplyView::Failed(EISDIR))
            } else {
                let removed = self.without_entry(old_dir, old_name);
                let holder = Node {
                    entries: removed.nodes[new_dir].entries.insert(new_name, moved),
                    ..removed.nodes[new_dir]
                };
                let node = Node {
                    path: child_path(self.nodes[new_dir].path, new_name),
                    ..self.nodes[moved]
                };
                (
                    Tree { nodes: removed.nodes.insert(new_dir, holder).insert(moved, node) },
                    ReplyView::Done,
                )
            }
        }
    }

    /// What becomes of the tree on a call, and what the call is answered.
    pub open spec fn perform(self, call: SyscallView) -> (Tree, ReplyView) {
        match call {
            SyscallView::MkdirAt { dir, name, mode } => self.create(
                dir,
                name,
                FileKind::Directory,
                Seq::empty(),
            ),
            SyscallView::MknodAt { dir, name, mode, dev } => self.create(
                dir,
                name,
                kind_of_mode(mode),
                Seq::empty(),
            ),
            SyscallView::SymlinkAt { target, dir, name } => self.create(
                dir,
                name,
                FileKind::Symlink,
                target,
            ),
            SyscallView::UnlinkAt { dir, name, flags } => self.unlink(dir, name, flags),
            SyscallView::RenameAt2 { old_dir, old_name, new_dir, new_name, flags } => self.rename(
                old_dir,
                old_name,
                new_dir,
                new_name,
                flags,
            ),
            _ => (self, self.answer(call)),
        }
    }
}

impl SyscallView {
    /// Whether the call leaves the tree as it is.
    pub open spec fn reads_only(self) -> bool {
        match self {
            SyscallView::MkdirAt { .. } => false,
            SyscallView::MknodAt { .. } => false,
            SyscallView::SymlinkAt { .. } => false,
            SyscallView::LinkAt { .. } => false,
            SyscallView::UnlinkAt { .. } => false,
            SyscallView::RenameAt2 { .. } => false,
            SyscallView::OpenAt { flags, .. } => flags & O_CREAT == 0,
            _ => true,
        }
    }
}

/// What an operation ends with when a driver runs it against the tree: it
/// makes the moves of `step`, has each call performed on the tree, and
/// hands back what the tree answers. The operation has `fuel` moves to
/// end; the result is the tree as it is then, and what the operation ends
/// with.
pub open spec fn run<S, V>(
    step: spec_fn(S, ReplyView) -> (S, StepView<V>),
    tree: Tree,
    state: S,
    reply: ReplyView,
    fuel: nat,
) -> Option<(Tree, Result<V, ErrorView>)>
    decreases fuel,
{
    if fuel == 0 {
        None
    } else {
        let (next, out) = step(state, reply);
        match out.next {
            NextView::Done(result) => Some((tree, result)),
            NextView::Call(call) => {
                let (changed, answer) = tree.perform(call);
                run(step, changed, next, answer, (fuel - 1) as nat)
            },
        }
    }
}

/// An operation that ends within some number of moves ends in the same way
/// within any greater number.
pub proof fn run_is_monotonic<S, V>(
    step: spec_fn(S, ReplyView) -> (S, StepView<V>),
    tree: Tree,
    state: S,
    reply: ReplyView,
    fuel: nat,
    more: nat,
)
    requires
        run(step, tree, state, reply, fuel) is Some,
        fuel <= more,
    ensures
        run(step, tree, state, reply, more) == run(step, tree, state, reply, fuel),
    decreases fuel,
{
    let (next, out) = step(state, reply);
    match out.next {
        NextView::Done(result) => {},
        NextView::Call(call) => {
            let (changed, answer) = tree.perform(call);
            run_is_monotonic(step, changed, next, answer, (fuel - 1) as nat, (more - 1) as nat);
        },
    }
}

/// What an operation ends with does not depend on how many moves it is
/// given: two runs that end, from one state on one tree, end alike.
pub proof fn run_is_deterministic<S, V>(
    step: spec_fn(S, ReplyView) -> (S, StepView<V>),
    tree: Tree,
    state: S,
    reply: ReplyView,
    fuel: nat,
    other: nat,
)
    requires
        run(step, tree, state, reply, fuel) is Some,
        run(step, tree, state, reply, other) is Some,
    ensures
        run(step, tree, state, reply, fuel) == run(step, tree, state, reply, other),
{
    if fuel <= other {
        run_is_monotonic(step, tree, state, reply, fuel, other);
    } else {
        run_is_monotonic(step, tree, state, reply, other, fuel);
    }
}

} // verus!
