//! The vocabulary shared with the driver: the system calls that the library
//! asks for, the answers that it is given, and the numbers that the kernel
//! gives to file types, flags and errors.

use vstd::prelude::*;

verus! {

/// The bits of `st_mode` that hold the file type.
pub const S_IFMT: u32 = 0o170000;

pub const S_IFIFO: u32 = 0o010000;

pub const S_IFCHR: u32 = 0o020000;

pub const S_IFDIR: u32 = 0o040000;

pub const S_IFBLK: u32 = 0o060000;

pub const S_IFREG: u32 = 0o100000;

pub const S_IFLNK: u32 = 0o120000;

pub const O_CREAT: i32 = 0o100;

pub const O_DIRECTORY: i32 = 0o200000;

pub const O_NOFOLLOW: i32 = 0o400000;

pub const O_PATH: i32 = 0o10000000;

/// The flags with which the resolver opens each component: a handle
/// without read or write rights, to the named entry itself.
pub const O_PATH_NOFOLLOW: i32 = 0o10400000;

/// The flags with which a directory is opened for reading its entries.
pub const O_DIRECTORY_NOFOLLOW: i32 = 0o600000;

/// The flags with which a root is opened: a handle without read or write
/// rights, to a directory, and not through a symlink at the end of the
/// path.
pub const O_PATH_DIRECTORY: i32 = 0o10600000;

/// In place of a directory handle: relative to the working directory.
pub const AT_FDCWD: i32 = -100;

/// Makes `unlinkat` remove a directory.
pub const AT_REMOVEDIR: i32 = 0x200;

pub const ENOENT: i32 = 2;

pub const ENOTDIR: i32 = 20;

pub const EISDIR: i32 = 21;

pub const ELOOP: i32 = 40;

/// `openat2`: treat the directory handle as the root of the resolution.
pub const RESOLVE_IN_ROOT: u64 = 0x10;

/// `openat2`: fail on any symlink.
pub const RESOLVE_NO_SYMLINKS: u64 = 0x04;

/// `libc::S_IFMT`, the mask of the file type in a mode, as the `libc` crate
/// has it for Linux.
#[verifier::external_body]
pub(crate) fn s_ifmt() -> (bits: u32)
    ensures
        bits == S_IFMT,
{
    libc::S_IFMT
}

/// `libc::S_IFREG`, the file type of a regular file, as the `libc` crate has
/// it for Linux.
#[verifier::external_body]
pub(crate) fn s_ifreg() -> (bits: u32)
    ensures
        bits == S_IFREG,
{
    libc::S_IFREG
}

/// `libc::S_IFDIR`, the file type of a directory, as the `libc` crate has it
/// for Linux.
#[verifier::external_body]
pub(crate) fn s_ifdir() -> (bits: u32)
    ensures
        bits == S_IFDIR,
{
    libc::S_IFDIR
}

/// `libc::S_IFLNK`, the file type of a symlink, as the `libc` crate has it
/// for Linux.
#[verifier::external_body]
pub(crate) fn s_iflnk() -> (bits: u32)
    ensures
        bits == S_IFLNK,
{
    libc::S_IFLNK
}

/// `libc::S_IFIFO`, the file type of a named pipe, as the `libc` crate has
/// it for Linux.
#[verifier::external_body]
pub(crate) fn s_ififo() -> (bits: u32)
    ensures
        bits == S_IFIFO,
{
    libc::S_IFIFO
}

/// `libc::S_IFCHR`, the file type of a character device, as the `libc`
/// crate has it for Linux.
#[verifier::external_body]
pub(crate) fn s_ifchr() -> (bits: u32)
    ensures
        bits == S_IFCHR,
{
    libc::S_IFCHR
}

/// `libc::S_IFBLK`, the file type of a block device, as the `libc` crate has
/// it for Linux.
#[verifier::external_body]
pub(crate) fn s_ifblk() -> (bits: u32)
    ensures
        bits == S_IFBLK,
{
    libc::S_IFBLK
}

/// `libc::O_PATH`, as the `libc` crate has it for Linux on x86-64.
#[verifier::external_body]
pub(crate) fn o_path() -> (bits: i32)
    ensures
        bits == O_PATH,
{
    libc::O_PATH
}

/// `libc::O_NOFOLLOW`, as the `libc` crate has it for Linux on x86-64.
#[verifier::external_body]
pub(crate) fn o_nofollow() -> (bits: i32)
    ensures
        bits == O_NOFOLLOW,
{
    libc::O_NOFOLLOW
}

/// `libc::O_DIRECTORY`, as the `libc` crate has it for Linux on x86-64.
#[verifier::external_body]
pub(crate) fn o_directory() -> (bits: i32)
    ensures
        bits == O_DIRECTORY,
{
    libc::O_DIRECTORY
}

/// `libc::O_CREAT`, as the `libc` crate has it for Linux on x86-64.
#[verifier::external_body]
pub(crate) fn o_creat() -> (bits: i32)
    ensures
        bits == O_CREAT,
{
    libc::O_CREAT
}

/// `libc::AT_FDCWD`, as the `libc` crate has it for Linux.
#[verifier::external_body]
pub(crate) fn at_fdcwd() -> (fd: i32)
    ensures
        fd == AT_FDCWD,
{
    libc::AT_FDCWD
}

/// `libc::AT_REMOVEDIR`, as the `libc` crate has it for Linux.
#[verifier::external_body]
pub(crate) fn at_removedir() -> (bits: i32)
    ensures
        bits == AT_REMOVEDIR,
{
    libc::AT_REMOVEDIR
}

/// `libc::ENOENT`, as the `libc` crate has it for Linux.
#[verifier::external_body]
pub(crate) fn enoent() -> (errno: i32)
    ensures
        errno == ENOENT,
{
    libc::ENOENT
}

/// `libc::ENOTDIR`, as the `libc` crate has it for Linux.
#[verifier::external_body]
pub(crate) fn enotdir() -> (errno: i32)
    ensures
        errno == ENOTDIR,
{
    libc::ENOTDIR
}

/// `libc::EISDIR`, as the `libc` crate has it for Linux.
#[verifier::external_body]
pub(crate) fn eisdir() -> (errno: i32)
    ensures
        errno == EISDIR,
{
    libc::EISDIR
}

/// `libc::ELOOP`, as the `libc` crate has it for Linux on x86-64.
#[verifier::external_body]
pub(crate) fn eloop() -> (errno: i32)
    ensures
        errno == ELOOP,
{
    libc::ELOOP
}

/// `libc::RESOLVE_IN_ROOT`, as the `libc` crate has it for Linux.
#[verifier::external_body]
pub(crate) fn resolve_in_root() -> (bits: u64)
    ensures
        bits == RESOLVE_IN_ROOT,
{
    libc::RESOLVE_IN_ROOT
}

/// `libc::RESOLVE_NO_SYMLINKS`, as the `libc` crate has it for Linux.
#[verifier::external_body]
pub(crate) fn resolve_no_symlinks() -> (bits: u64)
    ensures
        bits == RESOLVE_NO_SYMLINKS,
{
    libc::RESOLVE_NO_SYMLINKS
}

/// The flags with which the resolver opens each component.
pub(crate) fn o_path_nofollow() -> (bits: i32)
    ensures
        bits == O_PATH_NOFOLLOW,
{
    let path: i32 = o_path();
    let nofollow: i32 = o_nofollow();
    assert(0o10000000i32 | 0o400000i32 == 0o10400000i32) by (bit_vector);
    path | nofollow
}

/// The flags with which a directory is opened for reading its entries.
pub(crate) fn o_directory_nofollow() -> (bits: i32)
    ensures
        bits == O_DIRECTORY_NOFOLLOW,
{
    let directory: i32 = o_directory();
    let nofollow: i32 = o_nofollow();
    assert(0o200000i32 | 0o400000i32 == 0o600000i32) by (bit_vector);
    directory | nofollow
}

/// The flags with which a root is opened.
pub(crate) fn o_path_directory() -> (bits: i32)
    ensures
        bits == O_PATH_DIRECTORY,
{
    let path: i32 = o_path();
    let directory: i32 = o_directory_nofollow();
    assert(0o10000000i32 | 0o600000i32 == 0o10600000i32) by (bit_vector);
    path | directory
}

/// What kind of inode a mode describes.
#[derive(Debug, Clone, Copy, PartialEq, Eq)]
pub enum FileKind {
    Regular,
    Directory,
    Symlink,
    Fifo,
    CharacterDevice,
    BlockDevice,
    /// A socket, or a type that this kernel interface does not name.
    Other,
}

/// The kind of inode that the file-type bits of `mode` stand for.
pub open spec fn kind_of_mode(mode: u32) -> FileKind {
    let fmt = mode & S_IFMT;
    if fmt == S_IFREG {
        FileKind::Regular
    } else if fmt == S_IFDIR {
        FileKind::Directory
    } else if fmt == S_IFLNK {
        FileKind::Symlink
    } else if fmt == S_IFIFO {
        FileKind::Fifo
    } else if fmt == S_IFCHR {
        FileKind::CharacterDevice
    } else if fmt == S_IFBLK {
        FileKind::BlockDevice
    } else {
        FileKind::Other
    }
}

impl FileKind {
    /// Reads the file type out of an `st_mode`.
    pub fn from_mode(mode: u32) -> (kind: FileKind)
        ensures
            kind == kind_of_mode(mode),
    {
        let fmt: u32 = mode & s_ifmt();
        if fmt == s_ifreg() {
            FileKind::Regular
        } else if fmt == s_ifdir() {
            FileKind::Directory
        } else if fmt == s_iflnk() {
            FileKind::Symlink
        } else if fmt == s_ififo() {
            FileKind::Fifo
        } else if fmt == s_ifchr() {
            FileKind::CharacterDevice
        } else if fmt == s_ifblk() {
            FileKind::BlockDevice
        } else {
            FileKind::Other
        }
    }
}

/// The identity of an inode: its device and its number on it.
#[derive(Debug, Clone, Copy, PartialEq, Eq)]
pub struct InodeId {
    pub dev: u64,
    pub ino: u64,
}

impl InodeId {
    /// Whether two identities name the same inode.
    pub fn same(&self, other: &InodeId) -> (same: bool)
        ensures
            same == (*self == *other),
    {
        self.dev == other.dev && self.ino == other.ino
    }
}

/// A system call that an operation asks its driver to make. Handles are
/// file descriptors; names are byte strings without a terminator.
#[derive(Debug)]
#[allow(inconsistent_fields)]
pub enum Syscall {
    /// Duplicate a handle (`fcntl(fd, F_DUPFD_CLOEXEC)`).
    Dup { fd: i32 },
    /// `openat(dir, name, flags | O_CLOEXEC, mode)`.
    OpenAt { dir: i32, name: Vec<u8>, flags: i32, mode: u32 },
    /// `openat2(dir, path, {flags | O_CLOEXEC, mode: 0, resolve})`.
    OpenAt2 { dir: i32, path: Vec<u8>, flags: i32, resolve: u64 },
    /// Open again what `fd` refers to, through its entry under
    /// `/proc/self/fd`, with `flags | O_CLOEXEC`.
    Reopen { fd: i32, flags: i32 },
    /// `fstat(fd)`.
    Fstat { fd: i32 },
    /// `readlinkat(fd, "")`: the target of the symlink that `fd` refers to.
    ReadLink { fd: i32 },
    /// `readlink("/proc/self/fd/<fd>")`: the path that the kernel holds for
    /// what `fd` refers to.
    FdPath { fd: i32 },
    /// The names in the directory that `fd` refers to, without `.` and
    /// `..`.
    ReadDir { fd: i32 },
    /// `mkdirat(dir, name, mode)`.
    MkdirAt { dir: i32, name: Vec<u8>, mode: u32 },
    /// `mknodat(dir, name, mode, dev)`.
    MknodAt { dir: i32, name: Vec<u8>, mode: u32, dev: u64 },
    /// `symlinkat(target, dir, name)`.
    SymlinkAt { target: Vec<u8>, dir: i32, name: Vec<u8> },
    /// `linkat(old_dir, old_name, new_dir, new_name, 0)`.
    LinkAt { old_dir: i32, old_name: Vec<u8>, new_dir: i32, new_name: Vec<u8> },
    /// `unlinkat(dir, name, flags)`.
    UnlinkAt { dir: i32, name: Vec<u8>, flags: i32 },
    /// `renameat2(old_dir, old_name, new_dir, new_name, flags)`.
    RenameAt2 { old_dir: i32, old_name: Vec<u8>, new_dir: i32, new_name: Vec<u8>, flags: u32 },
}

/// The mathematical content of a [`Syscall`].
#[allow(inconsistent_fields)]
pub enum SyscallView {
    Dup { fd: i32 },
    OpenAt { dir: i32, name: Seq<u8>, flags: i32, mode: u32 },
    OpenAt2 { dir: i32, path: Seq<u8>, flags: i32, resolve: u64 },
    Reopen { fd: i32, flags: i32 },
    Fstat { fd: i32 },
    ReadLink { fd: i32 },
    FdPath { fd: i32 },
    ReadDir { fd: i32 },
    MkdirAt { dir: i32, name: Seq<u8>, mode: u32 },
    MknodAt { dir: i32, name: Seq<u8>, mode: u32, dev: u64 },
    SymlinkAt { target: Seq<u8>, dir: i32, name: Seq<u8> },
    LinkAt { old_dir: i32, old_name: Seq<u8>, new_dir: i32, new_name: Seq<u8> },
    UnlinkAt { dir: i32, name: Seq<u8>, flags: i32 },
    RenameAt2 { old_dir: i32, old_name: Seq<u8>, new_dir: i32, new_name: Seq<u8>, flags: u32 },
}

impl View for Syscall {
    type V = SyscallView;

    open spec fn view(&self) -> SyscallView {
        match self {
            Syscall::Dup { fd } => SyscallView::Dup { fd: *fd },
            Syscall::OpenAt { dir, name, flags, mode } => SyscallView::OpenAt {
                dir: *dir,
                name: name@,
                flags: *flags,
                mode: *mode,
            },
            Syscall::OpenAt2 { dir, path, flags, resolve } => SyscallView::OpenAt2 {
                dir: *dir,
                path: path@,
                flags: *flags,
                resolve: *resolve,
            },
            Syscall::Reopen { fd, flags } => SyscallView::Reopen { fd: *fd, flags: *flags },
            Syscall::Fstat { fd } => SyscallView::Fstat { fd: *fd },
            Syscall::ReadLink { fd } => SyscallView::ReadLink { fd: *fd },
            Syscall::FdPath { fd } => SyscallView::FdPath { fd: *fd },
            Syscall::ReadDir { fd } => SyscallView::ReadDir { fd: *fd },
            Syscall::MkdirAt { dir, name, mode } => SyscallView::MkdirAt {
                dir: *dir,
                name: name@,
                mode: *mode,
            },
            Syscall::MknodAt { dir, name, mode, dev } => SyscallView::MknodAt {
                dir: *dir,
                name: name@,
                mode: *mode,
                dev: *dev,
            },
            Syscall::SymlinkAt { target, dir, name } => SyscallView::SymlinkAt {
                target: target@,
                dir: *dir,
                name: name@,
            },
            Syscall::LinkAt { old_dir, old_name, new_dir, new_name } => SyscallView::LinkAt {
                old_dir: *old_dir,
                old_name: old_name@,
                new_dir: *new_dir,
                new_name: new_name@,
            },
            Syscall::UnlinkAt { dir, name, flags } => SyscallView::UnlinkAt {
                dir: *dir,
                name: name@,
                flags: *flags,
            },
            Syscall::RenameAt2 { old_dir, old_name, new_dir, new_name, flags } =>
                SyscallView::RenameAt2 {
                    old_dir: *old_dir,
                    old_name: old_name@,
                    new_dir: *new_dir,
                    new_name: new_name@,
                    flags: *flags,
                },
        }
    }
}

/// What the driver hands back: the outcome of the system call that the
/// operation asked for last.
#[derive(Debug)]
pub enum Reply {
    /// Nothing was asked yet: the operation is to make its first move.
    Start,
    /// The call opened or duplicated a handle.
    Fd(i32),
    /// The `st_mode`, `st_dev` and `st_ino` that `fstat` reported.
    Stat { mode: u32, dev: u64, ino: u64 },
    /// The bytes that a `readlink` reported.
    Bytes(Vec<u8>),
    /// The names that a directory holds.
    Names(Vec<Vec<u8>>),
    /// The call succeeded and has nothing to report.
    Done,
    /// The call failed with this `errno`.
    Failed(i32),
}

/// The mathematical content of a [`Reply`].
pub enum ReplyView {
    Start,
    Fd(i32),
    Stat { mode: u32, dev: u64, ino: u64 },
    Bytes(Seq<u8>),
    Names(Seq<Seq<u8>>),
    Done,
    Failed(i32),
}

/// The byte strings that a vector of byte vectors holds.
pub open spec fn names_of(names: Seq<Vec<u8>>) -> Seq<Seq<u8>> {
    Seq::new(names.len(), |i: int| names[i]@)
}

impl View for Reply {
    type V = ReplyView;

    open spec fn view(&self) -> ReplyView {
        match self {
            Reply::Start => ReplyView::Start,
            Reply::Fd(fd) => ReplyView::Fd(*fd),
            Reply::Stat { mode, dev, ino } => ReplyView::Stat { mode: *mode, dev: *dev, ino: *ino },
            Reply::Bytes(bytes) => ReplyView::Bytes(bytes@),
            Reply::Names(names) => ReplyView::Names(names_of(names@)),
            Reply::Done => ReplyView::Done,
            Reply::Failed(errno) => ReplyView::Failed(*errno),
        }
    }
}

} // verus!
