//! The operations of the library, driven against a small kernel in memory.

use std::collections::BTreeMap;

use pathrs::entry::EntryOp;
use pathrs::error::{Error, ErrorKind};
use pathrs::flags::{OpenFlags, RenameFlags, ResolverFlags};
use pathrs::handle::Handle;
use pathrs::kernel;
use pathrs::mkdir_all::MkdirAll;
use pathrs::remove_all::RemoveAll;
use pathrs::resolver::{Resolution, ResolverBackend};
use pathrs::root::{CloneRoot, InodeType, OpenRoot, Readlink, Root, RootRef};
use pathrs::step::{Next, Step};
use pathrs::sys::{FileKind, Reply, Syscall};
use pathrs::walk::Walk;

const ENOENT: i32 = 2;
const EBADF: i32 = 9;
const EEXIST: i32 = 17;
const ENOTDIR: i32 = 20;
const EISDIR: i32 = 21;
const EINVAL: i32 = 22;
const ENOSYS: i32 = 38;
const ENOTEMPTY: i32 = 39;
const ELOOP: i32 = 40;

const O_CREAT: i32 = 0o100;
const O_DIRECTORY: i32 = 0o200000;
const O_NOFOLLOW: i32 = 0o400000;
const O_PATH: i32 = 0o10000000;
const AT_REMOVEDIR: i32 = 0x200;
const AT_FDCWD: i32 = -100;

const S_IFMT: u32 = 0o170000;
const S_IFDIR: u32 = 0o040000;
const S_IFREG: u32 = 0o100000;
const S_IFLNK: u32 = 0o120000;
const S_IFIFO: u32 = 0o010000;
const S_IFCHR: u32 = 0o020000;
const S_IFBLK: u32 = 0o060000;

#[derive(Clone, Debug)]
struct Inode {
    mode: u32,
    entries: BTreeMap<Vec<u8>, usize>,
    target: Vec<u8>,
    /// Where the inode hangs in the tree: its directory and its name there.
    parent: usize,
    name: Vec<u8>,
    linked: bool,
}

/// An open file descriptor: the inode, and whether it was opened `O_PATH`.
#[derive(Clone, Copy, Debug)]
struct Open {
    inode: usize,
}

/// A kernel in memory: a tree of inodes below `/`, and a table of open file
/// descriptors. It keeps a log of the calls that it has answered.
struct Kernel {
    inodes: Vec<Inode>,
    fds: BTreeMap<i32, Open>,
    next_fd: i32,
    procfs: bool,
    openat2: bool,
    log: Vec<String>,
    closed: Vec<i32>,
    /// A change of the tree that is made right after the n-th call.
    trap: Option<(usize, fn(&mut Kernel))>,
    calls: usize,
}

impl Kernel {
    fn new() -> Kernel {
        let root = Inode {
            mode: S_IFDIR | 0o755,
            entries: BTreeMap::new(),
            target: Vec::new(),
            parent: 0,
            name: Vec::new(),
            linked: true,
        };
        Kernel {
            inodes: vec![root],
            fds: BTreeMap::new(),
            next_fd: 3,
            procfs: true,
            openat2: false,
            log: Vec::new(),
            closed: Vec::new(),
            trap: None,
            calls: 0,
        }
    }

    fn is_dir(&self, inode: usize) -> bool {
        self.inodes[inode].mode & S_IFMT == S_IFDIR
    }

    fn is_symlink(&self, inode: usize) -> bool {
        self.inodes[inode].mode & S_IFMT == S_IFLNK
    }

    fn add(&mut self, dir: usize, name: &str, mode: u32, target: &str) -> usize {
        let inode = self.inodes.len();
        self.inodes.push(Inode {
            mode,
            entries: BTreeMap::new(),
            target: target.as_bytes().to_vec(),
            parent: dir,
            name: name.as_bytes().to_vec(),
            linked: true,
        });
        self.inodes[dir].entries.insert(name.as_bytes().to_vec(), inode);
        inode
    }

    fn dir(&mut self, dir: usize, name: &str) -> usize {
        self.add(dir, name, S_IFDIR | 0o755, "")
    }

    fn file(&mut self, dir: usize, name: &str) -> usize {
        self.add(dir, name, S_IFREG | 0o644, "")
    }

    fn symlink(&mut self, dir: usize, name: &str, target: &str) -> usize {
        self.add(dir, name, S_IFLNK | 0o777, target)
    }

    /// The inode that a path leads to from `/`, without symlinks.
    fn lookup(&self, path: &str) -> Option<usize> {
        let mut at = 0;
        for part in path.split('/').filter(|p| !p.is_empty()) {
            at = *self.inodes[at].entries.get(part.as_bytes())?;
        }
        Some(at)
    }

    fn path_of(&self, inode: usize) -> Vec<u8> {
        if inode == 0 {
            return b"/".to_vec();
        }
        let mut parts: Vec<Vec<u8>> = Vec::new();
        let mut at = inode;
        while at != 0 {
            parts.push(self.inodes[at].name.clone());
            at = self.inodes[at].parent;
        }
        let mut path = Vec::new();
        for part in parts.iter().rev() {
            path.push(b'/');
            path.extend_from_slice(part);
        }
        if !self.inodes[inode].linked {
            path.extend_from_slice(b" (deleted)");
        }
        path
    }

    fn open_fd(&mut self, inode: usize) -> i32 {
        let fd = self.next_fd;
        self.next_fd += 1;
        self.fds.insert(fd, Open { inode });
        fd
    }

    /// Opens a root at a path from `/`.
    fn open_root(&mut self, path: &str) -> i32 {
        let inode = self.lookup(path).expect("root exists");
        self.open_fd(inode)
    }

    fn inode_of(&self, fd: i32) -> Option<usize> {
        self.fds.get(&fd).map(|open| open.inode)
    }

    fn close(&mut self, fd: i32) {
        assert!(self.fds.remove(&fd).is_some(), "closing a descriptor that is not open: {fd}");
        self.closed.push(fd);
    }

    /// The directory that a handle refers to, for a call on one of its
    /// names.
    fn dir_of(&self, fd: i32) -> Result<usize, i32> {
        let inode = self.inode_of(fd).ok_or(EBADF)?;
        if !self.is_dir(inode) {
            return Err(ENOTDIR);
        }
        Ok(inode)
    }

    fn entry(&self, dir: usize, name: &[u8]) -> Result<usize, i32> {
        if name.is_empty() {
            return Err(ENOENT);
        }
        if name.contains(&b'/') {
            panic!("the library handed the kernel more than a single name");
        }
        if name == b"." {
            return Ok(dir);
        }
        if name == b".." {
            return Ok(self.inodes[dir].parent);
        }
        self.inodes[dir].entries.get(name).copied().ok_or(ENOENT)
    }

    fn create(&mut self, dir: i32, name: &[u8], mode: u32, target: &[u8]) -> Reply {
        let dir = match self.dir_of(dir) {
            Ok(dir) => dir,
            Err(errno) => return Reply::Failed(errno),
        };
        match self.entry(dir, name) {
            Ok(_) => Reply::Failed(EEXIST),
            Err(ENOENT) if !name.is_empty() => {
                let inode = self.inodes.len();
                self.inodes.push(Inode {
                    mode,
                    entries: BTreeMap::new(),
                    target: target.to_vec(),
                    parent: dir,
                    name: name.to_vec(),
                    linked: true,
                });
                self.inodes[dir].entries.insert(name.to_vec(), inode);
                Reply::Done
            }
            Err(errno) => Reply::Failed(errno),
        }
    }

    /// Resolves a path as the kernel does with `RESOLVE_IN_ROOT`.
    fn resolve_in_root(&self, root: usize, path: &[u8], nofollow: bool, budget: &mut u32) -> Result<usize, i32> {
        if path.is_empty() {
            return Err(ENOENT);
        }
        let mut at = root;
        let parts: Vec<&[u8]> = path.split(|b| *b == b'/').collect();
        for (i, part) in parts.iter().enumerate() {
            let last = parts[i + 1..].iter().all(|p| p.is_empty());
            if part.is_empty() || *part == b"." {
                continue;
            }
            if !self.is_dir(at) {
                return Err(ENOTDIR);
            }
            if *part == b".." {
                if at != root {
                    at = self.inodes[at].parent;
                }
                continue;
            }
            let next = *self.inodes[at].entries.get(*part).ok_or(ENOENT)?;
            if self.is_symlink(next) && !(nofollow && last && i + 1 == parts.len()) {
                if *budget == 0 {
                    return Err(ELOOP);
                }
                *budget -= 1;
                let target = self.inodes[next].target.clone();
                let base = if target.starts_with(b"/") { root } else { at };
                at = self.resolve_in_root(base, &target, false, budget)?;
            } else {
                at = next;
            }
        }
        if path.ends_with(b"/") && !self.is_dir(at) {
            return Err(ENOTDIR);
        }
        Ok(at)
    }

    fn answer(&mut self, call: &Syscall) -> Reply {
        match call {
            Syscall::Dup { fd } => match self.inode_of(*fd) {
                Some(inode) => Reply::Fd(self.open_fd(inode)),
                None => Reply::Failed(EBADF),
            },
            Syscall::OpenAt { dir, name, flags, mode } => {
                if *dir == AT_FDCWD {
                    let path = String::from_utf8(name.clone()).unwrap();
                    return match self.lookup(&path) {
                        Some(inode) if flags & O_DIRECTORY != 0 && !self.is_dir(inode) => {
                            Reply::Failed(ENOTDIR)
                        }
                        Some(inode) => Reply::Fd(self.open_fd(inode)),
                        None => Reply::Failed(ENOENT),
                    };
                }
                assert!(flags & O_NOFOLLOW != 0, "the library opened a name without O_NOFOLLOW");
                let at = match self.dir_of(*dir) {
                    Ok(at) => at,
                    Err(errno) => return Reply::Failed(errno),
                };
                match self.entry(at, name) {
                    Ok(inode) => {
                        if flags & O_CREAT != 0 && self.is_dir(inode) {
                            return Reply::Failed(EISDIR);
                        }
                        if flags & O_PATH == 0 && self.is_symlink(inode) {
                            return Reply::Failed(ELOOP);
                        }
                        if flags & O_DIRECTORY != 0 && !self.is_dir(inode) {
                            return Reply::Failed(ENOTDIR);
                        }
                        Reply::Fd(self.open_fd(inode))
                    }
                    Err(ENOENT) if flags & O_CREAT != 0 && !name.is_empty() => {
                        match self.create(*dir, name, S_IFREG | (mode & 0o7777), b"") {
                            Reply::Done => {
                                let inode = self.inodes[at].entries[name.as_slice()];
                                Reply::Fd(self.open_fd(inode))
                            }
                            other => other,
                        }
                    }
                    Err(errno) => Reply::Failed(errno),
                }
            }
            Syscall::OpenAt2 { dir, path, flags, resolve } => {
                if !self.openat2 {
                    return Reply::Failed(ENOSYS);
                }
                if *dir == AT_FDCWD {
                    return Reply::Fd(self.open_fd(0));
                }
                let root = match self.dir_of(*dir) {
                    Ok(root) => root,
                    Err(errno) => return Reply::Failed(errno),
                };
                let mut budget = if resolve & 0x04 != 0 { 0 } else { 40 };
                match self.resolve_in_root(root, path, flags & O_NOFOLLOW != 0, &mut budget) {
                    Ok(inode) if resolve & 0x04 != 0 && self.is_symlink(inode) => {
                        Reply::Failed(ELOOP)
                    }
                    Ok(inode) => Reply::Fd(self.open_fd(inode)),
                    Err(errno) => Reply::Failed(errno),
                }
            }
            Syscall::Reopen { fd, flags } => match self.inode_of(*fd) {
                Some(inode) if flags & O_DIRECTORY != 0 && !self.is_dir(inode) => {
                    Reply::Failed(ENOTDIR)
                }
                Some(inode) => Reply::Fd(self.open_fd(inode)),
                None => Reply::Failed(EBADF),
            },
            Syscall::Fstat { fd } => match self.inode_of(*fd) {
                Some(inode) => {
                    Reply::Stat { mode: self.inodes[inode].mode, dev: 7, ino: inode as u64 }
                }
                None => Reply::Failed(EBADF),
            },
            Syscall::ReadLink { fd } => match self.inode_of(*fd) {
                Some(inode) if self.is_symlink(inode) => {
                    Reply::Bytes(self.inodes[inode].target.clone())
                }
                Some(_) => Reply::Failed(EINVAL),
                None => Reply::Failed(EBADF),
            },
            Syscall::FdPath { fd } => {
                if !self.procfs {
                    return Reply::Failed(ENOENT);
                }
                match self.inode_of(*fd) {
                    Some(inode) => Reply::Bytes(self.path_of(inode)),
                    None => Reply::Failed(ENOENT),
                }
            }
            Syscall::ReadDir { fd } => match self.dir_of(*fd) {
                Ok(dir) => Reply::Names(self.inodes[dir].entries.keys().cloned().collect()),
                Err(errno) => Reply::Failed(errno),
            },
            Syscall::MkdirAt { dir, name, mode } => {
                self.create(*dir, name, S_IFDIR | (mode & 0o7777), b"")
            }
            Syscall::MknodAt { dir, name, mode, dev: _ } => self.create(*dir, name, *mode, b""),
            Syscall::SymlinkAt { target, dir, name } => {
                self.create(*dir, name, S_IFLNK | 0o777, target)
            }
            Syscall::LinkAt { old_dir, old_name, new_dir, new_name } => {
                let old_dir = match self.dir_of(*old_dir) {
                    Ok(dir) => dir,
                    Err(errno) => return Reply::Failed(errno),
                };
                let source = match self.entry(old_dir, old_name) {
                    Ok(inode) => inode,
                    Err(errno) => return Reply::Failed(errno),
                };
                let mode = self.inodes[source].mode;
                self.create(*new_dir, new_name, mode, b"")
            }
            Syscall::UnlinkAt { dir, name, flags } => {
                let dir = match self.dir_of(*dir) {
                    Ok(dir) => dir,
                    Err(errno) => return Reply::Failed(errno),
                };
                if name.as_slice() == b"." || name.as_slice() == b".." {
                    return Reply::Failed(EINVAL);
                }
                let inode = match self.entry(dir, name) {
                    Ok(inode) => inode,
                    Err(errno) => return Reply::Failed(errno),
                };
                if flags & AT_REMOVEDIR != 0 {
                    if !self.is_dir(inode) {
                        return Reply::Failed(ENOTDIR);
                    }
                    if !self.inodes[inode].entries.is_empty() {
                        return Reply::Failed(ENOTEMPTY);
                    }
                } else if self.is_dir(inode) {
                    return Reply::Failed(EISDIR);
                }
                self.inodes[dir].entries.remove(name.as_slice());
                self.inodes[inode].linked = false;
                Reply::Done
            }
            Syscall::RenameAt2 { old_dir, old_name, new_dir, new_name, flags: _ } => {
                let old_dir = match self.dir_of(*old_dir) {
                    Ok(dir) => dir,
                    Err(errno) => return Reply::Failed(errno),
                };
                let new_dir = match self.dir_of(*new_dir) {
                    Ok(dir) => dir,
                    Err(errno) => return Reply::Failed(errno),
                };
                if [&b"."[..], &b".."[..]].contains(&old_name.as_slice())
                    || [&b"."[..], &b".."[..]].contains(&new_name.as_slice())
                {
                    return Reply::Failed(EINVAL);
                }
                let inode = match self.entry(old_dir, old_name) {
                    Ok(inode) => inode,
                    Err(errno) => return Reply::Failed(errno),
                };
                if new_name.is_empty() {
                    return Reply::Failed(ENOENT);
                }
                self.inodes[old_dir].entries.remove(old_name.as_slice());
                if let Some(old) = self.inodes[new_dir].entries.insert(new_name.clone(), inode) {
                    self.inodes[old].linked = false;
                }
                self.inodes[inode].parent = new_dir;
                self.inodes[inode].name = new_name.clone();
                Reply::Done
            }
        }
    }

    fn perform(&mut self, call: &Syscall) -> Reply {
        self.log.push(format!("{call:?}"));
        for name in names_below_a_handle(call) {
            assert!(!name.contains(&b'/'), "the library handed over more than one component");
        }
        let reply = self.answer(call);
        self.calls += 1;
        if let Some((at, change)) = self.trap {
            if at == self.calls {
                self.trap = None;
                change(self);
            }
        }
        reply
    }

    /// How many calls of the log begin with `prefix`.
    fn count(&self, prefix: &str) -> usize {
        self.log.iter().filter(|line| line.starts_with(prefix)).count()
    }
}

/// The names that a call hands over with a directory handle.
fn names_below_a_handle(call: &Syscall) -> Vec<&Vec<u8>> {
    match call {
        Syscall::OpenAt { dir, name, .. } if *dir != AT_FDCWD => vec![name],
        Syscall::MkdirAt { name, .. }
        | Syscall::MknodAt { name, .. }
        | Syscall::SymlinkAt { name, .. }
        | Syscall::UnlinkAt { name, .. } => vec![name],
        Syscall::LinkAt { old_name, new_name, .. }
        | Syscall::RenameAt2 { old_name, new_name, .. } => vec![old_name, new_name],
        _ => Vec::new(),
    }
}

/// Runs an operation to its end: performs each call that it asks for, and
/// closes each handle that it releases.
fn drive<T>(kernel: &mut Kernel, mut step: impl FnMut(Reply) -> Step<T>) -> Result<T, Error> {
    let mut reply = Reply::Start;
    for _ in 0..100_000 {
        let Step { retired, next } = step(reply);
        for fd in retired {
            kernel.close(fd);
        }
        match next {
            Next::Call(call) => reply = kernel.perform(&call),
            Next::Done(result) => return result,
        }
    }
    panic!("the operation does not end");
}

fn resolved(kernel: &mut Kernel, mut resolution: Resolution) -> Result<Handle, Error> {
    drive(kernel, |reply| resolution.step(reply))
}

fn entry_op(kernel: &mut Kernel, mut op: EntryOp) -> Result<Option<i32>, Error> {
    drive(kernel, |reply| op.step(reply))
}

fn made(kernel: &mut Kernel, mut op: MkdirAll) -> Result<Handle, Error> {
    drive(kernel, |reply| op.step(reply))
}

fn removed(kernel: &mut Kernel, mut op: RemoveAll) -> Result<(), Error> {
    drive(kernel, |reply| op.step(reply))
}

fn link_read(kernel: &mut Kernel, mut op: Readlink) -> Result<Vec<u8>, Error> {
    drive(kernel, |reply| op.step(reply))
}

fn cloned(kernel: &mut Kernel, mut op: CloneRoot) -> Result<Root, Error> {
    drive(kernel, |reply| op.step(reply))
}

fn opened(kernel: &mut Kernel, mut op: OpenRoot) -> Result<Root, Error> {
    drive(kernel, |reply| op.step(reply))
}

/// A kernel with the tree `/tmp/r` and `/etc/passwd`, and a root at
/// `/tmp/r` that resolves by the emulated resolver.
fn setup() -> (Kernel, Root, usize) {
    let mut kernel = Kernel::new();
    let tmp = kernel.dir(0, "tmp");
    let r = kernel.dir(tmp, "r");
    let etc = kernel.dir(0, "etc");
    kernel.file(etc, "passwd");
    let fd = kernel.open_root("/tmp/r");
    let root = Root::from_fd(fd).with_resolver_backend(ResolverBackend::Emulated);
    (kernel, root, r)
}

fn errno(result: Result<Handle, Error>) -> Option<i32> {
    match result.expect_err("the resolution fails").kind() {
        ErrorKind::OsError(errno) => errno,
        kind => panic!("not an error of the kernel: {kind:?}"),
    }
}

/// The inode that a resolution reaches, which the test then closes.
fn reach(kernel: &mut Kernel, root: &Root, path: &str) -> usize {
    let handle = resolved(kernel, root.resolve(path.as_bytes())).expect("the path resolves");
    let inode = kernel.inode_of(handle.as_fd()).expect("the handle is open");
    kernel.close(handle.into_fd());
    inode
}

/// Only the root is open: the operation has leaked no handle.
fn assert_no_leak(kernel: &Kernel, root: &Root) {
    let open: Vec<i32> = kernel.fds.keys().copied().collect();
    assert_eq!(open, vec![root.as_fd()]);
}

#[test]
fn from_fd() {
    let (mut kernel, _, _) = setup();
    let root = opened(&mut kernel, Root::open(b"/tmp/r")).expect("the root opens");
    let root_ref1 = root.as_ref();
    let fd = root.as_fd();
    let root_ref2 = RootRef::from_fd(&fd);

    assert_eq!(
        root.as_fd(),
        root_ref1.as_fd(),
        "Root::as_ref should have the same underlying fd"
    );
    assert_eq!(
        root.as_fd(),
        root_ref2.as_fd(),
        "RootRef::from_fd should have the same underlying fd"
    );
}

#[test]
fn open_root_asks_for_a_directory_without_rights() {
    let (mut kernel, _, r) = setup();
    let root = opened(&mut kernel, Root::open(b"/tmp/r")).expect("the root opens");
    assert_eq!(kernel.inode_of(root.as_fd()), Some(r));
    assert!(kernel.log.last().unwrap().contains(&format!("flags: {}", O_PATH | O_DIRECTORY | O_NOFOLLOW)));
    assert_eq!(root.resolver_backend(), ResolverBackend::Auto);
    assert_eq!(root.resolver_flags(), ResolverFlags::empty());
    let missing = opened(&mut kernel, Root::open(b"/tmp/none")).expect_err("no such root");
    assert_eq!(missing.kind(), ErrorKind::OsError(Some(ENOENT)));
    assert_eq!(missing.message(), "open root handle failed");
    let file = opened(&mut kernel, Root::open(b"/etc/passwd")).expect_err("no directory");
    assert_eq!(file.kind(), ErrorKind::OsError(Some(ENOTDIR)));
}

#[test]
fn resolve_plain_paths() {
    let (mut kernel, root, r) = setup();
    let a = kernel.dir(r, "a");
    let b = kernel.dir(a, "b");
    let c = kernel.file(b, "c");

    assert_eq!(reach(&mut kernel, &root, "a/b/c"), c);
    assert_eq!(errno(resolved(&mut kernel, root.resolve(b"a/b/c/"))), Some(ENOTDIR));
    assert_eq!(reach(&mut kernel, &root, "a/../a/b/c"), c);
    assert_eq!(reach(&mut kernel, &root, "a/b/"), b);
    assert_eq!(reach(&mut kernel, &root, "/a//b/./"), b);
    assert_eq!(reach(&mut kernel, &root, "."), r);
    assert_eq!(reach(&mut kernel, &root, "/"), r);
    assert_eq!(errno(resolved(&mut kernel, root.resolve(b"a/x/c"))), Some(ENOENT));
    assert_eq!(errno(resolved(&mut kernel, root.resolve(b"a/b/c/d"))), Some(ENOTDIR));
    assert_no_leak(&kernel, &root);
}

#[test]
fn resolve_empty_path_is_enoent() {
    let (mut kernel, root, _) = setup();
    let error = resolved(&mut kernel, root.resolve(b"")).expect_err("nothing to resolve");
    assert_eq!(error.kind(), ErrorKind::OsError(Some(ENOENT)));
    assert!(kernel.log.is_empty());
}

#[test]
fn dotdot_does_not_leave_the_root() {
    let (mut kernel, root, r) = setup();
    let a = kernel.dir(r, "a");
    assert_eq!(reach(&mut kernel, &root, ".."), r);
    assert_eq!(reach(&mut kernel, &root, "../../../.."), r);
    assert_eq!(reach(&mut kernel, &root, "a/../../a"), a);
    assert_eq!(errno(resolved(&mut kernel, root.resolve(b"../etc/passwd"))), Some(ENOENT));
    assert_no_leak(&kernel, &root);
}

#[test]
fn absolute_symlink_is_anchored_at_the_root() {
    let (mut kernel, root, r) = setup();
    kernel.symlink(r, "link", "/etc/passwd");
    assert_eq!(errno(resolved(&mut kernel, root.resolve(b"link"))), Some(ENOENT));

    let strict = root.as_ref().with_resolver_flags(ResolverFlags::no_symlinks());
    assert_eq!(errno(resolved(&mut kernel, strict.resolve(b"link"))), Some(ELOOP));
    assert_eq!(errno(resolved(&mut kernel, strict.resolve_nofollow(b"link"))), Some(ELOOP));

    let etc = kernel.dir(r, "etc");
    let passwd = kernel.file(etc, "passwd");
    assert_eq!(reach(&mut kernel, &root, "link"), passwd);
    assert_no_leak(&kernel, &root);
}

#[test]
fn no_symlinks_refuses_symlinks_in_the_middle() {
    let (mut kernel, root, r) = setup();
    let d = kernel.dir(r, "d");
    kernel.file(d, "f");
    kernel.symlink(r, "l", "d");
    let strict = root.as_ref().with_resolver_flags(ResolverFlags::no_symlinks());
    assert_eq!(errno(resolved(&mut kernel, strict.resolve(b"l/f"))), Some(ELOOP));
    let f = resolved(&mut kernel, strict.resolve(b"d/f")).expect("no symlink on the way");
    kernel.close(f.into_fd());
    assert_eq!(root.resolver_flags(), ResolverFlags::empty());
    assert_no_leak(&kernel, &root);
}

#[test]
fn symlink_to_dotdot_stays_at_the_root() {
    let (mut kernel, root, r) = setup();
    kernel.symlink(r, "up", "..");
    let sub = kernel.dir(r, "sub");
    let file = kernel.file(sub, "file");
    assert_eq!(reach(&mut kernel, &root, "up/sub/file"), file);
    assert_eq!(reach(&mut kernel, &root, "up"), r);
    assert_no_leak(&kernel, &root);
}

#[test]
fn symlink_loop_is_eloop() {
    let (mut kernel, root, r) = setup();
    kernel.symlink(r, "loop1", "loop2");
    kernel.symlink(r, "loop2", "loop1");
    assert_eq!(errno(resolved(&mut kernel, root.resolve(b"loop1"))), Some(ELOOP));
    // One frame for each expansion within the budget, and the one too many.
    assert_eq!(kernel.count("ReadLink"), 41);
    assert_no_leak(&kernel, &root);
}

#[test]
fn long_targets_are_eloop() {
    let (mut kernel, root, r) = setup();
    let long = "x/".repeat(1500);
    kernel.symlink(r, "a", &format!("{long}b"));
    let mut at = r;
    for _ in 0..1500 {
        at = kernel.dir(at, "x");
    }
    kernel.symlink(at, "b", &format!("{}", "y".repeat(2000)));
    assert_eq!(errno(resolved(&mut kernel, root.resolve(b"a"))), Some(ELOOP));
    assert_no_leak(&kernel, &root);
}

#[test]
fn relative_symlinks_are_expanded_in_place() {
    let (mut kernel, root, r) = setup();
    let a = kernel.dir(r, "a");
    let b = kernel.dir(a, "b");
    let c = kernel.file(b, "c");
    kernel.symlink(a, "to_b", "b");
    kernel.symlink(r, "deep", "a/to_b/c");
    kernel.symlink(a, "dangle", "nowhere");
    assert_eq!(reach(&mut kernel, &root, "a/to_b/c"), c);
    assert_eq!(reach(&mut kernel, &root, "deep"), c);
    assert_eq!(reach(&mut kernel, &root, "a/to_b"), b);
    assert_eq!(errno(resolved(&mut kernel, root.resolve(b"a/dangle"))), Some(ENOENT));
    assert_eq!(errno(resolved(&mut kernel, root.resolve(b"a/dangle/x"))), Some(ENOENT));
    assert_no_leak(&kernel, &root);
}

#[test]
fn dotdot_after_a_symlink_takes_back_its_steps() {
    let (mut kernel, root, r) = setup();
    let a = kernel.dir(r, "a");
    let b = kernel.dir(a, "b");
    kernel.symlink(r, "l", "a/b");
    kernel.symlink(r, "here", ".");
    // The symlink contributed two steps: a `..` takes one of them back.
    assert_eq!(reach(&mut kernel, &root, "l/.."), a);
    assert_eq!(reach(&mut kernel, &root, "l/../.."), r);
    assert_eq!(reach(&mut kernel, &root, "l"), b);
    // A symlink that led nowhere: the `..` only undoes it.
    assert_eq!(reach(&mut kernel, &root, "a/b/../../here/.."), r);
    assert_no_leak(&kernel, &root);
}

#[test]
fn resolve_nofollow_reaches_the_symlink() {
    let (mut kernel, root, r) = setup();
    let d = kernel.dir(r, "d");
    let link = kernel.symlink(r, "link", "d");
    let handle = resolved(&mut kernel, root.resolve_nofollow(b"link")).expect("resolves");
    assert_eq!(kernel.inode_of(handle.as_fd()), Some(link));
    kernel.close(handle.into_fd());
    // A separator at the end makes the symlink a component in the middle.
    let handle = resolved(&mut kernel, root.resolve_nofollow(b"link/")).expect("resolves");
    assert_eq!(kernel.inode_of(handle.as_fd()), Some(d));
    kernel.close(handle.into_fd());
    assert_eq!(reach(&mut kernel, &root, "link"), d);
    assert_no_leak(&kernel, &root);
}

#[test]
fn readlink_hands_back_the_target_as_it_is() {
    let (mut kernel, root, r) = setup();
    kernel.symlink(r, "link", "/etc/../passwd");
    kernel.file(r, "file");
    let target = link_read(&mut kernel, root.readlink(b"link")).expect("a symlink");
    assert_eq!(target, b"/etc/../passwd".to_vec());
    let error = link_read(&mut kernel, root.readlink(b"file")).expect_err("no symlink");
    assert_eq!(error.kind(), ErrorKind::OsError(Some(EINVAL)));
    assert_eq!(error.message(), "readlink resolve symlink failed");
    let error = link_read(&mut kernel, root.readlink(b"none")).expect_err("nothing there");
    assert_eq!(error.kind(), ErrorKind::OsError(Some(ENOENT)));
    assert_eq!(error.message(), "resolve symlink O_NOFOLLOW for readlink");
    assert_no_leak(&kernel, &root);
}

#[test]
fn resolution_is_contained_and_deterministic() {
    let (mut kernel, root, r) = setup();
    let a = kernel.dir(r, "a");
    kernel.file(a, "f");
    kernel.symlink(a, "up", "../..");
    kernel.symlink(r, "abs", "/a/f");
    for path in ["a/f", "a/up", "a/up/a/f", "abs", "a/../..//a/./f", "a/up/../../.."] {
        let first = resolved(&mut kernel, root.resolve(path.as_bytes())).expect("resolves");
        let second = resolved(&mut kernel, root.resolve(path.as_bytes())).expect("resolves");
        let inode = kernel.inode_of(first.as_fd()).unwrap();
        assert_eq!(kernel.inode_of(second.as_fd()), Some(inode));
        assert!(kernel.path_of(inode).starts_with(b"/tmp/r"));
        kernel.close(first.into_fd());
        kernel.close(second.into_fd());
    }
    assert_no_leak(&kernel, &root);
}

fn swap_a_for_a_symlink(kernel: &mut Kernel) {
    let r = kernel.lookup("/tmp/r").unwrap();
    let a = kernel.inodes[r].entries.remove(&b"a"[..]).unwrap();
    let outside = kernel.dir(0, "outside");
    kernel.inodes[outside].entries.insert(b"a".to_vec(), a);
    kernel.inodes[a].parent = outside;
    kernel.symlink(r, "a", "/");
}

#[test]
fn swapped_directory_is_a_safety_violation() {
    let (mut kernel, root, r) = setup();
    let a = kernel.dir(r, "a");
    kernel.dir(a, "b");
    // The calls for `a`: fstat and dup of the root, the open, the fstat and
    // the two paths of the containment check. Then `a` is moved away.
    kernel.trap = Some((6, swap_a_for_a_symlink));
    let error = resolved(&mut kernel, root.resolve(b"a/b")).expect_err("the walk was led astray");
    assert_eq!(error.kind(), ErrorKind::SafetyViolation);
    assert_eq!(
        error.message(),
        "violation of safety requirement: resolved component is outside of the root"
    );
    assert_no_leak(&kernel, &root);
}

#[test]
fn containment_without_procfs_goes_by_ancestors() {
    let (mut kernel, root, r) = setup();
    kernel.procfs = false;
    let a = kernel.dir(r, "a");
    let b = kernel.dir(a, "b");
    let c = kernel.file(b, "c");
    assert_eq!(reach(&mut kernel, &root, "a/b/c"), c);
    assert_eq!(reach(&mut kernel, &root, "a/b/.."), a);
    assert_no_leak(&kernel, &root);

    kernel.trap = Some((kernel.calls + 5, swap_a_for_a_symlink));
    let error = resolved(&mut kernel, root.resolve(b"a/b")).expect_err("the walk was led astray");
    assert_eq!(error.kind(), ErrorKind::SafetyViolation);
    assert_no_leak(&kernel, &root);
}

#[test]
fn create_makes_each_type() {
    let (mut kernel, root, r) = setup();
    kernel.dir(r, "d");
    let types = [
        ("d/file", InodeType::File(0o100644), S_IFREG | 0o644, FileKind::Regular),
        ("d/dir", InodeType::Directory(0o2755), S_IFDIR | 0o755, FileKind::Directory),
        ("d/fifo", InodeType::Fifo(0o600), S_IFIFO | 0o600, FileKind::Fifo),
        ("d/chr", InodeType::CharacterDevice(0o666, 0x0103), S_IFCHR | 0o666, FileKind::CharacterDevice),
        ("d/blk", InodeType::BlockDevice(0o7660, 0x0800), S_IFBLK | 0o7660, FileKind::BlockDevice),
    ];
    for (path, inode_type, mode, kind) in types {
        assert_eq!(entry_op(&mut kernel, root.create(path.as_bytes(), &inode_type)).unwrap(), None);
        let inode = reach(&mut kernel, &root, path);
        assert_eq!(kernel.inodes[inode].mode, mode);
        assert_eq!(FileKind::from_mode(kernel.inodes[inode].mode), kind);
    }
    assert!(kernel.log.iter().any(|l| l.contains("MknodAt") && l.contains("dev: 259")));

    let link = InodeType::Symlink(b"file".to_vec());
    entry_op(&mut kernel, root.create(b"d/link", &link)).unwrap();
    let handle = resolved(&mut kernel, root.resolve_nofollow(b"d/link")).unwrap();
    let inode = kernel.inode_of(handle.as_fd()).unwrap();
    assert_eq!(FileKind::from_mode(kernel.inodes[inode].mode), FileKind::Symlink);
    kernel.close(handle.into_fd());

    let hard = InodeType::Hardlink(b"d/file".to_vec());
    entry_op(&mut kernel, root.create(b"hard", &hard)).unwrap();
    let inode = reach(&mut kernel, &root, "hard");
    assert_eq!(FileKind::from_mode(kernel.inodes[inode].mode), FileKind::Regular);
    assert!(kernel.log.iter().any(|l| l.starts_with("LinkAt") && l.contains("old_name: [102, 105, 108, 101]")));

    let again = entry_op(&mut kernel, root.create(b"d/file", &InodeType::File(0o644)));
    assert_eq!(again.unwrap_err().kind(), ErrorKind::OsError(Some(EEXIST)));
    assert_no_leak(&kernel, &root);
}

#[test]
fn single_name_operations_refuse_trailing_slash() {
    let (mut kernel, root, r) = setup();
    kernel.dir(r, "d");
    let error = entry_op(&mut kernel, root.create(b"d/", &InodeType::Directory(0o755)))
        .expect_err("no name to create");
    assert_eq!(error.kind(), ErrorKind::InvalidArgument);
    assert_eq!(error.message(), "invalid path argument: file creation path has trailing slash");
    let error = entry_op(&mut kernel, root.remove_dir(b"d/")).expect_err("no name");
    assert_eq!(error.message(), "invalid path argument: file removal path has trailing slash");
    let error = entry_op(&mut kernel, root.rename(b"d", b"d/", RenameFlags::empty()))
        .expect_err("no name");
    assert_eq!(
        error.message(),
        "invalid destination argument: rename destination path has trailing slash"
    );
    let error = entry_op(&mut kernel, root.rename(b"d/", b"e", RenameFlags::empty()))
        .expect_err("no name");
    assert_eq!(error.message(), "invalid source argument: rename source path has trailing slash");
    let hard = InodeType::Hardlink(b"d/".to_vec());
    let error = entry_op(&mut kernel, root.create(b"h", &hard)).expect_err("no name");
    assert_eq!(error.message(), "invalid target argument: hardlink target has trailing slash");
    let error = removed(&mut kernel, root.remove_all(b"d/")).expect_err("no name");
    assert_eq!(error.kind(), ErrorKind::InvalidArgument);
    let error = entry_op(&mut kernel, root.create(b"d/x/", &InodeType::Directory(0o755)))
        .expect_err("the parent is missing");
    assert_eq!(error.kind(), ErrorKind::OsError(Some(ENOENT)));
    let error = entry_op(&mut kernel, root.create(b"", &InodeType::File(0o644)))
        .expect_err("nothing to create");
    assert_eq!(error.kind(), ErrorKind::InvalidArgument);
    assert_eq!(error.message(), "resolve file creation path");
    assert_no_leak(&kernel, &root);
}

#[test]
fn create_file_opens_what_it_creates() {
    let (mut kernel, root, r) = setup();
    let d = kernel.dir(r, "d");
    let fd = entry_op(&mut kernel, root.create_file(b"d/new", OpenFlags::from_bits(2), 0o640))
        .expect("the file is created")
        .expect("a file descriptor");
    let inode = kernel.inodes[d].entries[&b"new"[..]];
    assert_eq!(kernel.inode_of(fd), Some(inode));
    assert_eq!(kernel.inodes[inode].mode, S_IFREG | 0o640);
    let call = kernel.log.last().unwrap();
    assert!(call.contains(&format!("flags: {}", 2 | O_CREAT | O_NOFOLLOW)), "{call}");
    kernel.close(fd);
    assert_no_leak(&kernel, &root);
}

#[test]
fn remove_then_resolve_is_enoent() {
    let (mut kernel, root, r) = setup();
    let d = kernel.dir(r, "d");
    kernel.file(d, "f");
    kernel.dir(d, "e");
    assert_eq!(entry_op(&mut kernel, root.remove_file(b"d/f")).unwrap(), None);
    assert_eq!(errno(resolved(&mut kernel, root.resolve(b"d/f"))), Some(ENOENT));
    let wrong = entry_op(&mut kernel, root.remove_file(b"d/e")).expect_err("a directory");
    assert_eq!(wrong.kind(), ErrorKind::OsError(Some(EISDIR)));
    assert_eq!(wrong.message(), "pathrs remove failed");
    entry_op(&mut kernel, root.remove_dir(b"d/e")).unwrap();
    assert_eq!(errno(resolved(&mut kernel, root.resolve(b"d/e"))), Some(ENOENT));
    entry_op(&mut kernel, root.remove_dir(b"d")).unwrap();
    assert_eq!(errno(resolved(&mut kernel, root.resolve(b"d"))), Some(ENOENT));
    assert_no_leak(&kernel, &root);
}

#[test]
fn rename_moves_the_entry() {
    let (mut kernel, root, r) = setup();
    let a = kernel.file(r, "a");
    kernel.dir(r, "d");
    entry_op(&mut kernel, root.rename(b"a", b"d/b", RenameFlags::empty())).unwrap();
    assert_eq!(errno(resolved(&mut kernel, root.resolve(b"a"))), Some(ENOENT));
    assert_eq!(reach(&mut kernel, &root, "d/b"), a);
    assert!(kernel.log.iter().any(|l| l.starts_with("RenameAt2") && l.contains("flags: 0")));
    entry_op(&mut kernel, root.rename(b"d/b", b"c", RenameFlags::from_bits(1))).unwrap();
    assert!(kernel.log.iter().any(|l| l.starts_with("RenameAt2") && l.contains("flags: 1")));
    assert_no_leak(&kernel, &root);
}

#[test]
fn mkdir_all_creates_what_is_missing() {
    let (mut kernel, root, r) = setup();
    let handle = made(&mut kernel, root.mkdir_all(b"x/y/z", 0o755)).expect("directories are made");
    let z = kernel.lookup("/tmp/r/x/y/z").expect("three directories");
    assert_eq!(kernel.inode_of(handle.as_fd()), Some(z));
    assert_eq!(kernel.count("MkdirAt"), 3);
    assert_eq!(kernel.inodes[z].mode, S_IFDIR | 0o755);
    kernel.close(handle.into_fd());

    let handle = made(&mut kernel, root.mkdir_all(b"x/y/z", 0o755)).expect("nothing to make");
    assert_eq!(kernel.inode_of(handle.as_fd()), Some(z));
    assert_eq!(kernel.count("MkdirAt"), 3);
    kernel.close(handle.into_fd());

    let handle = made(&mut kernel, root.mkdir_all(b"x/y/z/w", 0o700)).expect("one more");
    let w = kernel.lookup("/tmp/r/x/y/z/w").expect("the fourth directory");
    assert_eq!(kernel.inode_of(handle.as_fd()), Some(w));
    assert_eq!(kernel.count("MkdirAt"), 4);
    assert!(kernel.log.iter().any(|l| l.starts_with("MkdirAt") && l.contains("name: [119]")));
    kernel.close(handle.into_fd());
    assert_eq!(kernel.inodes[r].entries.len(), 1);
    assert_no_leak(&kernel, &root);
}

#[test]
fn mkdir_all_refuses_bad_modes_and_paths() {
    let (mut kernel, root, r) = setup();
    kernel.file(r, "f");
    let error = made(&mut kernel, root.mkdir_all(b"a", 0o10755)).expect_err("bits beyond");
    assert_eq!(error.kind(), ErrorKind::InvalidArgument);
    assert_eq!(error.message(), "invalid perm argument: mode cannot contain non-0o7777 bits");
    for mode in [0o4755, 0o2755, 0o6000] {
        let error = made(&mut kernel, root.mkdir_all(b"a", mode)).expect_err("set-id bits");
        assert_eq!(error.kind(), ErrorKind::InvalidArgument);
        assert_eq!(
            error.message(),
            "invalid perm argument: mode contains setuid or setgid bits that are silently ignored by mkdirat"
        );
    }
    assert!(kernel.log.is_empty());
    let sticky = made(&mut kernel, root.mkdir_all(b"t", 0o1777)).expect("the sticky bit is fine");
    kernel.close(sticky.into_fd());

    let error = made(&mut kernel, root.mkdir_all(b"a/../b", 0o755)).expect_err("a `..` to create");
    assert_eq!(error.kind(), ErrorKind::OsError(Some(ENOENT)));
    assert_eq!(error.message(), "yet-to-be-created path contains '..' components");
    assert_eq!(kernel.lookup("/tmp/r/a"), None);

    let error = made(&mut kernel, root.mkdir_all(b"f/a", 0o755)).expect_err("a file on the way");
    assert_eq!(error.kind(), ErrorKind::OsError(Some(ENOTDIR)));
    let error = made(&mut kernel, root.mkdir_all(b"f", 0o755)).expect_err("a file at the end");
    assert_eq!(error.kind(), ErrorKind::OsError(Some(ENOTDIR)));
    assert_eq!(error.message(), "cannot create directories in resolved handle");
    assert_no_leak(&kernel, &root);
}

#[test]
fn remove_all_removes_the_tree() {
    let (mut kernel, root, r) = setup();
    let d = kernel.dir(r, "d");
    kernel.file(d, "f1");
    let sub = kernel.dir(d, "sub");
    kernel.file(sub, "f2");
    kernel.symlink(sub, "dangle", "nowhere");
    let keep = kernel.dir(r, "keep");
    kernel.symlink(d, "out", "/keep");

    removed(&mut kernel, root.remove_all(b"d")).expect("the tree is removed");
    assert_eq!(kernel.lookup("/tmp/r/d"), None);
    assert_eq!(kernel.lookup("/tmp/r/keep"), Some(keep));
    assert!(kernel.log.last().unwrap().starts_with("UnlinkAt"));
    assert!(kernel.log.last().unwrap().contains(&format!("flags: {AT_REMOVEDIR}")));
    assert_eq!(kernel.count("ReadLink"), 0);
    assert_eq!(errno(resolved(&mut kernel, root.resolve(b"d"))), Some(ENOENT));

    kernel.file(r, "plain");
    removed(&mut kernel, root.remove_all(b"plain")).expect("a file is removed");
    assert_eq!(kernel.lookup("/tmp/r/plain"), None);

    let error = removed(&mut kernel, root.remove_all(b"none")).expect_err("nothing there");
    assert_eq!(error.kind(), ErrorKind::OsError(Some(ENOENT)));
    for path in ["keep/..", "keep/.", ".."] {
        let error = removed(&mut kernel, root.remove_all(path.as_bytes())).expect_err("no entry");
        assert_eq!(error.kind(), ErrorKind::InvalidArgument);
    }
    assert_eq!(kernel.lookup("/tmp/r/keep"), Some(keep));
    assert_no_leak(&kernel, &root);
}

#[test]
fn try_clone_duplicates_the_descriptor() {
    let (mut kernel, root, r) = setup();
    let strict = root.with_resolver_flags(ResolverFlags::no_symlinks());
    let copy = cloned(&mut kernel, strict.try_clone()).expect("the root is cloned");
    assert_ne!(copy.as_fd(), strict.as_fd());
    assert_eq!(kernel.inode_of(copy.as_fd()), Some(r));
    assert_eq!(copy.resolver_flags(), ResolverFlags::no_symlinks());
    assert_eq!(copy.resolver_backend(), ResolverBackend::Emulated);
    kernel.close(copy.into_fd());
    let gone = Root::from_fd(99);
    let error = cloned(&mut kernel, gone.try_clone()).expect_err("nothing to clone");
    assert_eq!(error.kind(), ErrorKind::OsError(Some(EBADF)));
    assert_eq!(error.message(), "clone underlying root file failed");
}

#[test]
fn flags_of_a_view_are_its_own() {
    let (_, mut root, _) = setup();
    let mut view = root.as_ref();
    view.set_resolver_flags(ResolverFlags::no_symlinks());
    assert_eq!(view.resolver_flags(), ResolverFlags::no_symlinks());
    assert_eq!(root.resolver_flags(), ResolverFlags::empty());
    root.set_resolver_flags(ResolverFlags::from_bits(4));
    assert_eq!(root.resolver_flags(), ResolverFlags::no_symlinks());
    assert_eq!(root.as_ref().resolver_flags(), ResolverFlags::no_symlinks());
    let mut copy = root.as_ref();
    copy.set_resolver_backend(ResolverBackend::KernelNative);
    assert_eq!(copy.resolver_backend(), ResolverBackend::KernelNative);
    assert_eq!(root.resolver_backend(), ResolverBackend::Emulated);
}

#[test]
fn kernel_backend_resolves_in_one_call() {
    let (mut kernel, root, r) = setup();
    kernel.openat2 = true;
    let a = kernel.dir(r, "a");
    let f = kernel.file(a, "f");
    kernel.symlink(r, "l", "/a/f");
    let native = root.as_ref().with_resolver_backend(ResolverBackend::KernelNative);
    let handle = resolved(&mut kernel, native.resolve(b"l")).expect("the kernel resolves");
    assert_eq!(kernel.inode_of(handle.as_fd()), Some(f));
    assert_eq!(kernel.log.len(), 1);
    assert!(kernel.log[0].contains(&format!("flags: {O_PATH}, resolve: 16")));
    kernel.close(handle.into_fd());

    let strict = native.with_resolver_flags(ResolverFlags::no_symlinks());
    assert_eq!(errno(resolved(&mut kernel, strict.resolve(b"l"))), Some(ELOOP));
    assert!(kernel.log.last().unwrap().contains("resolve: 20"));
    let _ = resolved(&mut kernel, native.resolve_nofollow(b"l")).map(|h| kernel.close(h.into_fd()));
    assert!(kernel.log.last().unwrap().contains(&format!("flags: {}", O_PATH | O_NOFOLLOW)));

    let auto = root.as_ref().with_resolver_backend(ResolverBackend::Auto);
    kernel.log.clear();
    let handle = resolved(&mut kernel, auto.resolve(b"a/f")).expect("the kernel resolves");
    assert_eq!(kernel.inode_of(handle.as_fd()), Some(f));
    assert_eq!(kernel.log.len(), 2);
    kernel.close(handle.into_fd());
    assert_no_leak(&kernel, &root);
}

#[test]
fn auto_backend_falls_back_to_the_walk() {
    let (mut kernel, root, r) = setup();
    let a = kernel.dir(r, "a");
    let auto = root.as_ref().with_resolver_backend(ResolverBackend::Auto);
    let handle = resolved(&mut kernel, auto.resolve(b"a")).expect("the walk resolves");
    assert_eq!(kernel.inode_of(handle.as_fd()), Some(a));
    assert!(kernel.log[0].starts_with("OpenAt2"));
    assert!(kernel.log[1].starts_with("Fstat"));
    kernel.close(handle.into_fd());

    let native = root.as_ref().with_resolver_backend(ResolverBackend::KernelNative);
    let error = resolved(&mut kernel, native.resolve(b"a")).expect_err("no openat2");
    assert_eq!(error.kind(), ErrorKind::OsError(Some(ENOSYS)));
    assert_eq!(error.message(), "open sub-path");
    assert_no_leak(&kernel, &root);
}

#[test]
fn kernel_resolve_probes_first() {
    let (mut kernel, root, r) = setup();
    let a = kernel.dir(r, "a");
    let mut resolution = kernel::resolve(&root, b"a");
    let error = drive(&mut kernel, |reply| resolution.step(reply)).expect_err("no openat2");
    assert_eq!(error.kind(), ErrorKind::NotSupported);
    assert_eq!(error.message(), "feature kernel resolution not supported on this kernel");

    kernel.openat2 = true;
    let mut resolution = kernel::resolve(&root, b"a");
    let handle = drive(&mut kernel, |reply| resolution.step(reply)).expect("resolves");
    assert_eq!(kernel.inode_of(handle.as_fd()), Some(a));
    kernel.close(handle.into_fd());
    assert_no_leak(&kernel, &root);
}

#[test]
fn partial_resolution_stops_at_what_is_missing() {
    let (mut kernel, root, r) = setup();
    let a = kernel.dir(r, "a");
    let mut walk = Walk::new(root.as_fd(), b"a/b/./c/", ResolverFlags::empty(), false, true);
    let partial = drive(&mut kernel, |reply| walk.step(reply)).expect("stops at b");
    assert_eq!(kernel.inode_of(partial.handle.as_fd()), Some(a));
    assert_eq!(partial.remaining, vec![b"b".to_vec(), b".".to_vec(), b"c".to_vec(), b"".to_vec()]);
    assert!(walk.is_finished());
    kernel.close(partial.handle.into_fd());

    let mut walk = Walk::new(root.as_fd(), b"a", ResolverFlags::empty(), false, true);
    let partial = drive(&mut kernel, |reply| walk.step(reply)).expect("resolves all");
    assert_eq!(kernel.inode_of(partial.handle.as_fd()), Some(a));
    assert!(partial.remaining.is_empty());
    kernel.close(partial.handle.into_fd());
    assert_no_leak(&kernel, &root);
}

#[test]
fn reopen_opens_the_same_inode_again() {
    let (mut kernel, root, r) = setup();
    let d = kernel.dir(r, "d");
    kernel.file(r, "f");
    let handle = resolved(&mut kernel, root.resolve(b"d")).expect("resolves");
    let mut reopen = handle.reopen(OpenFlags::directory());
    let fd = drive(&mut kernel, |reply| reopen.step(reply)).expect("a directory");
    assert_ne!(fd, handle.as_fd());
    assert_eq!(kernel.inode_of(fd), Some(d));
    assert!(kernel.log.last().unwrap().contains(&format!("flags: {O_DIRECTORY}")));
    kernel.close(fd);
    kernel.close(handle.into_fd());

    let handle = resolved(&mut kernel, root.resolve(b"f")).expect("resolves");
    let mut reopen = handle.reopen(OpenFlags::directory());
    let error = drive(&mut kernel, |reply| reopen.step(reply)).expect_err("no directory");
    assert_eq!(error.kind(), ErrorKind::OsError(Some(ENOTDIR)));
    assert_eq!(error.message(), "reopen handle failed");
    kernel.close(handle.into_fd());
    assert_no_leak(&kernel, &root);
}

#[test]
fn a_finished_operation_refuses_replies() {
    let (mut kernel, root, _) = setup();
    let mut resolution = root.resolve(b".");
    let handle = drive(&mut kernel, |reply| resolution.step(reply)).expect("resolves");
    kernel.close(handle.into_fd());
    let Step { retired, next } = resolution.step(Reply::Done);
    assert!(retired.is_empty());
    match next {
        Next::Done(Err(error)) => {
            assert_eq!(error.kind(), ErrorKind::InvalidArgument);
            assert_eq!(error.message(), "invalid reply argument: the operation is over");
        }
        other => panic!("the operation goes on: {other:?}"),
    }
}

#[test]
fn a_reply_that_answers_nothing_ends_the_walk() {
    let (mut kernel, root, _) = setup();
    let mut resolution = root.resolve(b"a");
    let first = resolution.step(Reply::Start);
    assert!(matches!(first.next, Next::Call(Syscall::Fstat { .. })));
    let Step { retired, next } = resolution.step(Reply::Bytes(b"x".to_vec()));
    assert!(retired.is_empty());
    match next {
        Next::Done(Err(error)) => assert_eq!(error.kind(), ErrorKind::InvalidArgument),
        other => panic!("the operation goes on: {other:?}"),
    }
    assert_no_leak(&kernel, &root);
    let _ = &mut kernel;
}
