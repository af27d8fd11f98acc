//! Roots: the directories that anchor every resolution, and the operations
//! on the tree below them. Every operation resolves first and acts then:
//! it never hands the kernel more than a directory handle and one name.

use vstd::prelude::*;
use crate::entry::{Action, ActionView, EntryOp, EntryOpView, EntryStage, Wording, WordingView};
use crate::error::{Error, ErrorView};
use crate::flags::{OpenFlags, RenameFlags, ResolverFlags};
use crate::lookup::{ParentLookup, ParentLookupView};
use crate::mkdir_all::{MkdirAll, MkdirAllView, DIRECTORY_MODE_BITS, MODE_BITS};
use crate::path::copy_bytes;
use crate::remove_all::{RemoveAll, RemoveAllView, RemoveStage};
use crate::resolver::{Resolution, ResolutionView, Resolver, ResolverBackend};
use crate::step::{Next, NextView, Step, StepView};
use crate::sys::{
    at_fdcwd, at_removedir, o_creat, o_nofollow, o_path_directory, s_ifblk, s_ifchr, s_ififo,
    s_ifreg, Reply, ReplyView, Syscall, SyscallView, AT_FDCWD, AT_REMOVEDIR, O_CREAT, O_NOFOLLOW,
    O_PATH_DIRECTORY, S_IFBLK, S_IFCHR, S_IFIFO, S_IFREG,
};
use crate::walk::{unexpected, unexpected_reply};

verus! {

/// An inode type to be created with [`Root::create`].
#[derive(Debug, Clone)]
#[non_exhaustive]
pub enum InodeType {
    /// Ordinary file, with its mode.
    File(u32),
    /// Directory, with its mode.
    Directory(u32),
    /// Symlink with the given target, which is taken as it is.
    Symlink(Vec<u8>),
    /// Hard link to the given path, which is resolved within the root.
    Hardlink(Vec<u8>),
    /// Named pipe, with its mode.
    Fifo(u32),
    /// Character device, with its mode and device number.
    CharacterDevice(u32, u64),
    /// Block device, with its mode and device number.
    BlockDevice(u32, u64),
}

/// The mathematical content of an [`InodeType`].
pub enum InodeTypeView {
    File(u32),
    Directory(u32),
    Symlink(Seq<u8>),
    Hardlink(Seq<u8>),
    Fifo(u32),
    CharacterDevice(u32, u64),
    BlockDevice(u32, u64),
}

impl View for InodeType {
    type V = InodeTypeView;

    open spec fn view(&self) -> InodeTypeView {
        match self {
            InodeType::File(perm) => InodeTypeView::File(*perm),
            InodeType::Directory(perm) => InodeTypeView::Directory(*perm),
            InodeType::Symlink(target) => InodeTypeView::Symlink(target@),
            InodeType::Hardlink(target) => InodeTypeView::Hardlink(target@),
            InodeType::Fifo(perm) => InodeTypeView::Fifo(*perm),
            InodeType::CharacterDevice(perm, dev) => InodeTypeView::CharacterDevice(*perm, *dev),
            InodeType::BlockDevice(perm, dev) => InodeTypeView::BlockDevice(*perm, *dev),
        }
    }
}

impl InodeTypeView {
    /// The system call that creates an inode of this type. The mode of a
    /// node is masked to its permission, set-id and sticky bits, and gets
    /// the bits of the file type; the mode of a directory is masked to its
    /// permission and sticky bits.
    pub open spec fn action(self) -> ActionView {
        match self {
            InodeTypeView::File(perm) => ActionView::Mknod {
                mode: S_IFREG | (perm & MODE_BITS),
                dev: 0,
            },
            InodeTypeView::Directory(perm) => ActionView::Mkdir { mode: perm & DIRECTORY_MODE_BITS },
            InodeTypeView::Symlink(target) => ActionView::Symlink { target },
            InodeTypeView::Hardlink(_) => ActionView::Link,
            InodeTypeView::Fifo(perm) => ActionView::Mknod {
                mode: S_IFIFO | (perm & MODE_BITS),
                dev: 0,
            },
            InodeTypeView::CharacterDevice(perm, dev) => ActionView::Mknod {
                mode: S_IFCHR | (perm & MODE_BITS),
                dev,
            },
            InodeTypeView::BlockDevice(perm, dev) => ActionView::Mknod {
                mode: S_IFBLK | (perm & MODE_BITS),
                dev,
            },
        }
    }

    /// The path of the entry that a hard link is made to; empty for every
    /// other type.
    pub open spec fn source(self) -> Seq<u8> {
        match self {
            InodeTypeView::Hardlink(target) => target,
            _ => Seq::empty(),
        }
    }
}

/// Which `unlinkat` removes an inode.
#[derive(Debug, Clone, Copy)]
enum RemoveInodeType {
    /// Anything but a directory.
    Regular,
    /// An empty directory.
    Directory,
}

/// The words of the lookup of a path to create.
pub open spec fn creation_words() -> WordingView {
    WordingView {
        context: "resolve file creation path"@,
        argument: "path"@,
        trailing: "file creation path has trailing slash"@,
    }
}

/// The words of the lookup of the source of a hard link.
pub open spec fn hardlink_words() -> WordingView {
    WordingView {
        context: "resolve hardlink source path"@,
        argument: "target"@,
        trailing: "hardlink target has trailing slash"@,
    }
}

/// The words of the lookup of a path to remove.
pub open spec fn removal_words() -> WordingView {
    WordingView {
        context: "resolve file removal path"@,
        argument: "path"@,
        trailing: "file removal path has trailing slash"@,
    }
}

/// The words of the lookup of the source of a rename.
pub open spec fn rename_source_words() -> WordingView {
    WordingView {
        context: "resolve rename source path"@,
        argument: "source"@,
        trailing: "rename source path has trailing slash"@,
    }
}

/// The words of the lookup of the destination of a rename.
pub open spec fn rename_destination_words() -> WordingView {
    WordingView {
        context: "resolve rename destination path"@,
        argument: "destination"@,
        trailing: "rename destination path has trailing slash"@,
    }
}

/// The state in which an operation on single entries begins.
pub open spec fn entry_op(
    resolver: Resolver,
    root: i32,
    action: ActionView,
    operation: Seq<char>,
    first: Seq<u8>,
    first_words: WordingView,
    second: Seq<u8>,
    second_words: WordingView,
) -> EntryOpView {
    EntryOpView {
        stage: EntryStage::First,
        action,
        operation,
        first: ParentLookupView::start(resolver, root, first),
        first_words,
        second: ParentLookupView::start(resolver, root, second),
        second_words,
        dir: None,
        name: Seq::empty(),
        other_dir: None,
        other_name: Seq::empty(),
    }
}

/// What a root is: its file descriptor and its configuration.
pub struct RootView {
    pub fd: i32,
    pub resolver: Resolver,
}

/// A handle to the root of a directory tree. It owns its file descriptor.
#[derive(Debug)]
pub struct Root {
    inner: i32,
    resolver: Resolver,
}

/// A borrowed view of a root: it shares the file descriptor and has a copy
/// of the configuration, so that changes to its configuration do not reach
/// the root it came from.
#[derive(Debug, Clone, Copy)]
pub struct RootRef<'fd> {
    inner: &'fd i32,
    resolver: Resolver,
}

impl View for Root {
    type V = RootView;

    closed spec fn view(&self) -> RootView {
        RootView { fd: self.inner, resolver: self.resolver }
    }
}

impl<'fd> View for RootRef<'fd> {
    type V = RootView;

    closed spec fn view(&self) -> RootView {
        RootView { fd: *self.inner, resolver: self.resolver }
    }
}

/// Where an operation of one system call stands.
#[derive(Debug, Clone, Copy, PartialEq, Eq)]
pub enum CallStage {
    /// Nothing was asked yet.
    Fresh,
    /// The call was asked for.
    Asked,
    /// The operation is over.
    Over,
}

/// The operation that opens a root.
#[derive(Debug)]
pub struct OpenRoot {
    stage: CallStage,
    path: Vec<u8>,
}

/// The mathematical content of an [`OpenRoot`].
pub struct OpenRootView {
    pub stage: CallStage,
    pub path: Seq<u8>,
}

impl OpenRootView {
    /// The move that the operation makes on a reply: it asks for the path
    /// to be opened as a directory, without rights to read or write and
    /// without following a symlink at its end, and ends with a root of the
    /// default configuration or with the error of the call.
    pub open spec fn step(self, reply: ReplyView) -> (OpenRootView, StepView<RootView>) {
        let over = OpenRootView { stage: CallStage::Over, ..self };
        match self.stage {
            CallStage::Over => (
                self,
                StepView::failed(
                    Seq::empty(),
                    ErrorView::invalid("reply"@, "the operation is over"@),
                ),
            ),
            CallStage::Fresh => match reply {
                ReplyView::Start => (
                    OpenRootView { stage: CallStage::Asked, ..self },
                    StepView::call(
                        Seq::empty(),
                        SyscallView::OpenAt {
                            dir: AT_FDCWD,
                            name: self.path,
                            flags: O_PATH_DIRECTORY,
                            mode: 0,
                        },
                    ),
                ),
                _ => (over, StepView::failed(Seq::empty(), unexpected_reply())),
            },
            CallStage::Asked => match reply {
                ReplyView::Fd(fd) => (
                    over,
                    StepView::done(
                        Seq::empty(),
                        RootView {
                            fd,
                            resolver: Resolver {
                                backend: ResolverBackend::Auto,
                                flags: ResolverFlags { bits: 0 },
                            },
                        },
                    ),
                ),
                ReplyView::Failed(errno) => (
                    over,
                    StepView::failed(Seq::empty(), ErrorView::raw_os("open root handle"@, errno)),
                ),
                _ => (over, StepView::failed(Seq::empty(), unexpected_reply())),
            },
        }
    }
}

impl View for OpenRoot {
    type V = OpenRootView;

    closed spec fn view(&self) -> OpenRootView {
        OpenRootView { stage: self.stage, path: self.path@ }
    }
}

impl OpenRoot {
    /// Makes the next move of the operation.
    pub fn step(&mut self, reply: Reply) -> (step: Step<Root>)
        ensures
            (final(self)@, step@) == old(self)@.step(reply@),
    {
        match self.stage {
            CallStage::Over => Step {
                retired: Vec::new(),
                next: Next::Done(Err(Error::invalid_argument("reply", "the operation is over"))),
            },
            CallStage::Fresh => match reply {
                Reply::Start => {
                    self.stage = CallStage::Asked;
                    Step {
                        retired: Vec::new(),
                        next: Next::Call(
                            Syscall::OpenAt {
                                dir: at_fdcwd(),
                                name: copy_bytes(self.path.as_slice()),
                                flags: o_path_directory(),
                                mode: 0,
                            },
                        ),
                    }
                },
                _ => {
                    self.stage = CallStage::Over;
                    Step { retired: Vec::new(), next: Next::Done(Err(unexpected())) }
                },
            },
            CallStage::Asked => {
                self.stage = CallStage::Over;
                match reply {
                    Reply::Fd(fd) => Step {
                        retired: Vec::new(),
                        next: Next::Done(Ok(Root::from_fd(fd))),
                    },
                    Reply::Failed(errno) => Step {
                        retired: Vec::new(),
                        next: Next::Done(Err(Error::raw_os_error("open root handle", errno))),
                    },
                    _ => Step { retired: Vec::new(), next: Next::Done(Err(unexpected())) },
                }
            },
        }
    }
}

/// The operation that makes an independent copy of a root.
#[derive(Debug)]
pub struct CloneRoot {
    stage: CallStage,
    fd: i32,
    resolver: Resolver,
}

/// The mathematical content of a [`CloneRoot`].
pub struct CloneRootView {
    pub stage: CallStage,
    pub fd: i32,
    pub resolver: Resolver,
}

impl CloneRootView {
    /// The move that the operation makes on a reply: it asks for a
    /// duplicate of the file descriptor, and ends with a root that has the
    /// duplicate and the same configuration, or with the error of the call.
    pub open spec fn step(self, reply: ReplyView) -> (CloneRootView, StepView<RootView>) {
        let over = CloneRootView { stage: CallStage::Over, ..self };
        match self.stage {
            CallStage::Over => (
                self,
                StepView::failed(
                    Seq::empty(),
                    ErrorView::invalid("reply"@, "the operation is over"@),
                ),
            ),
            CallStage::Fresh => match reply {
                ReplyView::Start => (
                    CloneRootView { stage: CallStage::Asked, ..self },
                    StepView::call(Seq::empty(), SyscallView::Dup { fd: self.fd }),
                ),
                _ => (over, StepView::failed(Seq::empty(), unexpected_reply())),
            },
            CallStage::Asked => match reply {
                ReplyView::Fd(fd) => (
                    over,
                    StepView::done(Seq::empty(), RootView { fd, resolver: self.resolver }),
                ),
                ReplyView::Failed(errno) => (
                    over,
                    StepView::failed(
                        Seq::empty(),
                        ErrorView::os("clone underlying root file"@, errno),
                    ),
                ),
                _ => (over, StepView::failed(Seq::empty(), unexpected_reply())),
            },
        }
    }
}

impl View for CloneRoot {
    type V = CloneRootView;

    closed spec fn view(&self) -> CloneRootView {
        CloneRootView { stage: self.stage, fd: self.fd, resolver: self.resolver }
    }
}

impl CloneRoot {
    /// Makes the next move of the operation.
    pub fn step(&mut self, reply: Reply) -> (step: Step<Root>)
        ensures
            (final(self)@, step@) == old(self)@.step(reply@),
    {
        match self.stage {
            CallStage::Over => Step {
                retired: Vec::new(),
                next: Next::Done(Err(Error::invalid_argument("reply", "the operation is over"))),
            },
            CallStage::Fresh => match reply {
                Reply::Start => {
                    self.stage = CallStage::Asked;
                    Step { retired: Vec::new(), next: Next::Call(Syscall::Dup { fd: self.fd }) }
                },
                _ => {
                    self.stage = CallStage::Over;
                    Step { retired: Vec::new(), next: Next::Done(Err(unexpected())) }
                },
            },
            CallStage::Asked => {
                self.stage = CallStage::Over;
                match reply {
                    Reply::Fd(fd) => Step {
                        retired: Vec::new(),
                        next: Next::Done(Ok(Root { inner: fd, resolver: self.resolver })),
                    },
                    Reply::Failed(errno) => Step {
                        retired: Vec::new(),
                        next: Next::Done(
                            Err(Error::os_error("clone underlying root file", errno)),
                        ),
                    },
                    _ => Step { retired: Vec::new(), next: Next::Done(Err(unexpected())) },
                }
            },
        }
    }
}

/// Where a `readlink` stands.
#[derive(Debug, Clone, Copy, PartialEq, Eq)]
pub enum ReadlinkStage {
    /// The symlink is being resolved.
    Resolving,
    /// Its target is being read.
    Reading,
    /// The operation is over.
    Over,
}

/// The operation that reads the target of a symlink.
#[derive(Debug)]
pub struct Readlink {
    stage: ReadlinkStage,
    resolution: Resolution,
    link: Option<i32>,
}

/// The mathematical content of a [`Readlink`].
pub struct ReadlinkView {
    pub stage: ReadlinkStage,
    pub resolution: ResolutionView,
    /// The handle of the symlink.
    pub link: Option<i32>,
}

impl ReadlinkView {
    /// The move that the operation makes on a reply: it resolves the path
    /// without following a symlink at its end, reads the target of what it
    /// has reached, and ends with the bytes of the target, as they are. The
    /// handle of the symlink is released.
    pub open spec fn step(self, reply: ReplyView) -> (ReadlinkView, StepView<Seq<u8>>) {
        let over = ReadlinkView { stage: ReadlinkStage::Over, link: None, ..self };
        match self.stage {
            ReadlinkStage::Over => (
                self,
                StepView::failed(
                    Seq::empty(),
                    ErrorView::invalid("reply"@, "the operation is over"@),
                ),
            ),
            ReadlinkStage::Resolving => {
                let (resolution, step) = self.resolution.step(reply);
                match step.next {
                    NextView::Call(call) => (
                        ReadlinkView { resolution, ..self },
                        StepView::call(step.retired, call),
                    ),
                    NextView::Done(Err(error)) => (
                        ReadlinkView { resolution, ..over },
                        StepView::failed(
                            step.retired,
                            error.wrap("resolve symlink O_NOFOLLOW for readlink"@),
                        ),
                    ),
                    NextView::Done(Ok(fd)) => (
                        ReadlinkView { stage: ReadlinkStage::Reading, resolution, link: Some(fd) },
                        StepView::call(step.retired, SyscallView::ReadLink { fd }),
                    ),
                }
            },
            ReadlinkStage::Reading => {
                let retired = crate::step::held(self.link);
                match reply {
                    ReplyView::Bytes(target) => (over, StepView::done(retired, target)),
                    ReplyView::Failed(errno) => (
                        over,
                        StepView::failed(
                            retired,
                            ErrorView::raw_os("readlink resolve symlink"@, errno),
                        ),
                    ),
                    _ => (over, StepView::failed(retired, unexpected_reply())),
                }
            },
        }
    }
}

impl View for Readlink {
    type V = ReadlinkView;

    closed spec fn view(&self) -> ReadlinkView {
        ReadlinkView { stage: self.stage, resolution: self.resolution@, link: self.link }
    }
}

impl Readlink {
    /// Whether the operation is in order.
    pub closed spec fn wf(&self) -> bool {
        self.resolution.wf()
    }

    /// Makes the next move of the operation.
    pub fn step(&mut self, reply: Reply) -> (step: Step<Vec<u8>>)
        requires
            old(self).wf(),
        ensures
            final(self).wf(),
            (final(self)@, step@) == old(self)@.step(reply@),
    {
        match self.stage {
            ReadlinkStage::Over => Step {
                retired: Vec::new(),
                next: Next::Done(Err(Error::invalid_argument("reply", "the operation is over"))),
            },
            ReadlinkStage::Resolving => {
                let Step { retired, next } = self.resolution.step(reply);
                match next {
                    Next::Call(call) => Step { retired, next: Next::Call(call) },
                    Next::Done(Err(error)) => {
                        self.stage = ReadlinkStage::Over;
                        self.link = None;
                        Step {
                            retired,
                            next: Next::Done(
                                Err(error.wrap("resolve symlink O_NOFOLLOW for readlink")),
                            ),
                        }
                    },
                    Next::Done(Ok(handle)) => {
                        let fd = handle.into_fd();
                        self.stage = ReadlinkStage::Reading;
                        self.link = Some(fd);
                        Step { retired, next: Next::Call(Syscall::ReadLink { fd }) }
                    },
                }
            },
            ReadlinkStage::Reading => {
                let mut retired: Vec<i32> = Vec::new();
                crate::step::release(&mut retired, self.link);
                assert(retired@ =~= crate::step::held(self.link));
                self.stage = ReadlinkStage::Over;
                self.link = None;
                match reply {
                    Reply::Bytes(target) => Step { retired, next: Next::Done(Ok(target)) },
                    Reply::Failed(errno) => Step {
                        retired,
                        next: Next::Done(
                            Err(Error::raw_os_error("readlink resolve symlink", errno)),
                        ),
                    },
                    _ => Step { retired, next: Next::Done(Err(unexpected())) },
                }
            },
        }
    }
}

/// The mode of a node of the given file type.
fn node_mode(file_type: u32, perm: u32) -> (mode: u32)
    ensures
        mode == file_type | (perm & MODE_BITS),
{
    file_type | (perm & MODE_BITS)
}

impl Root {
    /// Starts to open a root: `path` is to name an existing directory.
    pub fn open(path: &[u8]) -> (op: OpenRoot)
        ensures
            op@ == (OpenRootView { stage: CallStage::Fresh, path: path@ }),
    {
        OpenRoot { stage: CallStage::Fresh, path: copy_bytes(path) }
    }

    /// Adopts a file descriptor that refers to a directory. The
    /// configuration is the default one.
    pub fn from_fd(fd: i32) -> (root: Root)
        ensures
            root@.fd == fd,
            root@.resolver.backend == ResolverBackend::Auto,
            root@.resolver.flags.bits == 0,
    {
        Root { inner: fd, resolver: Resolver::default() }
    }

    /// The file descriptor of the root.
    pub fn as_fd(&self) -> (fd: i32)
        ensures
            fd == self@.fd,
    {
        self.inner
    }

    /// Gives up the root for its file descriptor.
    pub fn into_fd(self) -> (fd: i32)
        ensures
            fd == self@.fd,
    {
        self.inner
    }

    /// Borrows the root: the view has the same file descriptor and a copy
    /// of the configuration.
    pub fn as_ref(&self) -> (view: RootRef<'_>)
        ensures
            view@ == self@,
    {
        RootRef { inner: &self.inner, resolver: self.resolver }
    }

    /// The flags of resolution of the root.
    pub fn resolver_flags(&self) -> (flags: ResolverFlags)
        ensures
            flags == self@.resolver.flags,
    {
        self.resolver.flags
    }

    /// Sets the flags of resolution of the root, and of nothing else.
    pub fn set_resolver_flags(&mut self, flags: ResolverFlags)
        ensures
            final(self)@.resolver.flags == flags,
            final(self)@.resolver.backend == old(self)@.resolver.backend,
            final(self)@.fd == old(self)@.fd,
    {
        self.resolver.flags = flags;
    }

    /// The root with the flags of resolution set.
    pub fn with_resolver_flags(self, flags: ResolverFlags) -> (root: Root)
        ensures
            root@.resolver.flags == flags,
            root@.resolver.backend == self@.resolver.backend,
            root@.fd == self@.fd,
    {
        let mut root = self;
        root.set_resolver_flags(flags);
        root
    }

    /// The backend of resolution of the root.
    pub fn resolver_backend(&self) -> (backend: ResolverBackend)
        ensures
            backend == self@.resolver.backend,
    {
        self.resolver.backend
    }

    /// Sets the backend of resolution of the root.
    pub fn set_resolver_backend(&mut self, backend: ResolverBackend)
        ensures
            final(self)@.resolver.backend == backend,
            final(self)@.resolver.flags == old(self)@.resolver.flags,
            final(self)@.fd == old(self)@.fd,
    {
        self.resolver.backend = backend;
    }

    /// The root with the backend of resolution set.
    pub fn with_resolver_backend(self, backend: ResolverBackend) -> (root: Root)
        ensures
            root@.resolver.backend == backend,
            root@.resolver.flags == self@.resolver.flags,
            root@.fd == self@.fd,
    {
        let mut root = self;
        root.set_resolver_backend(backend);
        root
    }

    /// Starts to make an independent copy of the root.
    pub fn try_clone(&self) -> (op: CloneRoot)
        ensures
            op@ == (CloneRootView {
                stage: CallStage::Fresh,
                fd: self@.fd,
                resolver: self@.resolver,
            }),
    {
        self.as_ref().try_clone()
    }

    /// Starts to resolve `path` within the root. A symlink at the end of
    /// the path is followed.
    pub fn resolve(&self, path: &[u8]) -> (resolution: Resolution)
        ensures
            resolution.wf(),
            resolution@ == ResolutionView::start(self@.resolver, self@.fd, path@, false),
    {
        self.as_ref().resolve(path)
    }

    /// Starts to resolve `path` within the root. A symlink at the end of
    /// the path is not followed: the handle is one to the symlink itself.
    pub fn resolve_nofollow(&self, path: &[u8]) -> (resolution: Resolution)
        ensures
            resolution.wf(),
            resolution@ == ResolutionView::start(self@.resolver, self@.fd, path@, true),
    {
        self.as_ref().resolve_nofollow(path)
    }

    /// Starts to read the target of the symlink at `path` within the root.
    pub fn readlink(&self, path: &[u8]) -> (op: Readlink)
        ensures
            op.wf(),
            op@ == (ReadlinkView {
                stage: ReadlinkStage::Resolving,
                resolution: ResolutionView::start(self@.resolver, self@.fd, path@, true),
                link: None,
            }),
    {
        self.as_ref().readlink(path)
    }

    /// Starts to create an inode of the given type at `path` within the
    /// root.
    pub fn create(&self, path: &[u8], inode_type: &InodeType) -> (op: EntryOp)
        ensures
            op.wf(),
            op@ == entry_op(
                self@.resolver,
                self@.fd,
                inode_type@.action(),
                "pathrs create"@,
                path@,
                creation_words(),
                inode_type@.source(),
                hardlink_words(),
            ),
    {
        self.as_ref().create(path, inode_type)
    }

    /// Starts to create an ordinary file at `path` within the root and to
    /// open it in one call.
    pub fn create_file(&self, path: &[u8], flags: OpenFlags, perm: u32) -> (op: EntryOp)
        ensures
            op.wf(),
            op@ == entry_op(
                self@.resolver,
                self@.fd,
                ActionView::Open { flags: flags.bits | O_CREAT | O_NOFOLLOW, mode: perm },
                "pathrs create_file"@,
                path@,
                creation_words(),
                Seq::empty(),
                creation_words(),
            ),
    {
        self.as_ref().create_file(path, flags, perm)
    }

    /// Starts to create the directory at `path` within the root, and every
    /// directory above it that is missing.
    pub fn mkdir_all(&self, path: &[u8], perm: u32) -> (op: MkdirAll)
        ensures
            op.wf(),
            op@ == MkdirAllView::start(self@.resolver, self@.fd, path@, perm),
    {
        self.as_ref().mkdir_all(path, perm)
    }

    /// Starts to remove the empty directory at `path` within the root.
    pub fn remove_dir(&self, path: &[u8]) -> (op: EntryOp)
        ensures
            op.wf(),
            op@ == entry_op(
                self@.resolver,
                self@.fd,
                ActionView::Unlink { flags: AT_REMOVEDIR },
                "pathrs remove"@,
                path@,
                removal_words(),
                Seq::empty(),
                removal_words(),
            ),
    {
        self.as_ref().remove_dir(path)
    }

    /// Starts to remove the file, or whatever is no directory, at `path`
    /// within the root.
    pub fn remove_file(&self, path: &[u8]) -> (op: EntryOp)
        ensures
            op.wf(),
            op@ == entry_op(
                self@.resolver,
                self@.fd,
                ActionView::Unlink { flags: 0 },
                "pathrs remove"@,
                path@,
                removal_words(),
                Seq::empty(),
                removal_words(),
            ),
    {
        self.as_ref().remove_file(path)
    }

    /// Starts to remove what is at `path` within the root, with everything
    /// below it.
    pub fn remove_all(&self, path: &[u8]) -> (op: RemoveAll)
        ensures
            op.wf(),
            op@ == (RemoveAllView {
                stage: RemoveStage::Lookup,
                lookup: ParentLookupView::start(self@.resolver, self@.fd, path@),
                top: None,
                levels: Seq::empty(),
            }),
    {
        self.as_ref().remove_all(path)
    }

    /// Starts to rename `source` to `destination`, both within the root.
    /// The flags are handed to `renameat2` as they are.
    pub fn rename(&self, source: &[u8], destination: &[u8], rflags: RenameFlags) -> (op: EntryOp)
        ensures
            op.wf(),
            op@ == entry_op(
                self@.resolver,
                self@.fd,
                ActionView::Rename { flags: rflags.bits },
                "pathrs rename"@,
                source@,
                rename_source_words(),
                destination@,
                rename_destination_words(),
            ),
    {
        self.as_ref().rename(source, destination, rflags)
    }
}

impl<'fd> RootRef<'fd> {
    /// A view of the directory that a borrowed file descriptor refers to.
    /// The configuration is the default one.
    pub fn from_fd(inner: &'fd i32) -> (view: RootRef<'fd>)
        ensures
            view@.fd == *inner,
            view@.resolver.backend == ResolverBackend::Auto,
            view@.resolver.flags.bits == 0,
    {
        RootRef { inner, resolver: Resolver::default() }
    }

    /// The file descriptor of the root.
    pub fn as_fd(&self) -> (fd: i32)
        ensures
            fd == self@.fd,
    {
        *self.inner
    }

    /// The flags of resolution of the view.
    pub fn resolver_flags(&self) -> (flags: ResolverFlags)
        ensures
            flags == self@.resolver.flags,
    {
        self.resolver.flags
    }

    /// Sets the flags of resolution of the view, and of nothing else: not
    /// of the root that it came from.
    pub fn set_resolver_flags(&mut self, flags: ResolverFlags)
        ensures
            final(self)@.resolver.flags == flags,
            final(self)@.resolver.backend == old(self)@.resolver.backend,
            final(self)@.fd == old(self)@.fd,
    {
        self.resolver.flags = flags;
    }

    /// The view with the flags of resolution set.
    pub fn with_resolver_flags(self, flags: ResolverFlags) -> (view: RootRef<'fd>)
        ensures
            view@.resolver.flags == flags,
            view@.resolver.backend == self@.resolver.backend,
            view@.fd == self@.fd,
    {
        let mut view = self;
        view.set_resolver_flags(flags);
        view
    }

    /// The backend of resolution of the view.
    pub fn resolver_backend(&self) -> (backend: ResolverBackend)
        ensures
            backend == self@.resolver.backend,
    {
        self.resolver.backend
    }

    /// Sets the backend of resolution of the view.
    pub fn set_resolver_backend(&mut self, backend: ResolverBackend)
        ensures
            final(self)@.resolver.backend == backend,
            final(self)@.resolver.flags == old(self)@.resolver.flags,
            final(self)@.fd == old(self)@.fd,
    {
        self.resolver.backend = backend;
    }

    /// The view with the backend of resolution set.
    pub fn with_resolver_backend(self, backend: ResolverBackend) -> (view: RootRef<'fd>)
        ensures
            view@.resolver.backend == backend,
            view@.resolver.flags == self@.resolver.flags,
            view@.fd == self@.fd,
    {
        let mut view = self;
        view.set_resolver_backend(backend);
        view
    }

    /// Starts to make a root of its own from the view: the file descriptor
    /// is duplicated, the configuration copied.
    pub fn try_clone(&self) -> (op: CloneRoot)
        ensures
            op@ == (CloneRootView {
                stage: CallStage::Fresh,
                fd: self@.fd,
                resolver: self@.resolver,
            }),
    {
        CloneRoot { stage: CallStage::Fresh, fd: *self.inner, resolver: self.resolver }
    }

    /// Starts to resolve `path` within the root. A symlink at the end of
    /// the path is followed.
    pub fn resolve(&self, path: &[u8]) -> (resolution: Resolution)
        ensures
            resolution.wf(),
            resolution@ == ResolutionView::start(self@.resolver, self@.fd, path@, false),
    {
        self.resolver.resolve(*self.inner, path, false)
    }

    /// Starts to resolve `path` within the root. A symlink at the end of
    /// the path is not followed: the handle is one to the symlink itself.
    pub fn resolve_nofollow(&self, path: &[u8]) -> (resolution: Resolution)
        ensures
            resolution.wf(),
            resolution@ == ResolutionView::start(self@.resolver, self@.fd, path@, true),
    {
        self.resolver.resolve(*self.inner, path, true)
    }

    /// Starts to look up the parent directory of `path` within the root,
    /// and splits off the trailing name.
    pub fn resolve_parent(&self, path: &[u8]) -> (lookup: ParentLookup)
        ensures
            lookup.wf(),
            lookup@ == ParentLookupView::start(self@.resolver, self@.fd, path@),
    {
        ParentLookup::new(&self.resolver, *self.inner, path)
    }

    /// Starts to read the target of the symlink at `path` within the root.
    /// The target is not made safe for use outside of the root.
    pub fn readlink(&self, path: &[u8]) -> (op: Readlink)
        ensures
            op.wf(),
            op@ == (ReadlinkView {
                stage: ReadlinkStage::Resolving,
                resolution: ResolutionView::start(self@.resolver, self@.fd, path@, true),
                link: None,
            }),
    {
        Readlink {
            stage: ReadlinkStage::Resolving,
            resolution: self.resolve_nofollow(path),
            link: None,
        }
    }

    /// Starts to create an inode of the given type at `path` within the
    /// root. The parent of the path is resolved, and the inode made under
    /// the trailing name by one call: `mknodat`, `mkdirat`, `symlinkat`, or
    /// `linkat` to a source that is resolved within the root as well. A
    /// path that ends in a separator is refused.
    pub fn create(&self, path: &[u8], inode_type: &InodeType) -> (op: EntryOp)
        ensures
            op.wf(),
            op@ == entry_op(
                self@.resolver,
                self@.fd,
                inode_type@.action(),
                "pathrs create"@,
                path@,
                creation_words(),
                inode_type@.source(),
                hardlink_words(),
            ),
    {
        let nothing: Vec<u8> = Vec::new();
        let first = self.resolve_parent(path);
        let (action, second) = match inode_type {
            InodeType::File(perm) => (
                Action::Mknod { mode: node_mode(s_ifreg(), *perm), dev: 0 },
                self.resolve_parent(nothing.as_slice()),
            ),
            InodeType::Directory(perm) => (
                Action::Mkdir { mode: *perm & DIRECTORY_MODE_BITS },
                self.resolve_parent(nothing.as_slice()),
            ),
            InodeType::Symlink(target) => (
                Action::Symlink { target: copy_bytes(target.as_slice()) },
                self.resolve_parent(nothing.as_slice()),
            ),
            InodeType::Hardlink(target) => (Action::Link, self.resolve_parent(target.as_slice())),
            InodeType::Fifo(perm) => (
                Action::Mknod { mode: node_mode(s_ififo(), *perm), dev: 0 },
                self.resolve_parent(nothing.as_slice()),
            ),
            InodeType::CharacterDevice(perm, dev) => (
                Action::Mknod { mode: node_mode(s_ifchr(), *perm), dev: *dev },
                self.resolve_parent(nothing.as_slice()),
            ),
            InodeType::BlockDevice(perm, dev) => (
                Action::Mknod { mode: node_mode(s_ifblk(), *perm), dev: *dev },
                self.resolve_parent(nothing.as_slice()),
            ),
        };
        EntryOp::new(
            action,
            "pathrs create",
            first,
            Wording {
                context: "resolve file creation path",
                argument: "path",
                trailing: "file creation path has trailing slash",
            },
            second,
            Wording {
                context: "resolve hardlink source path",
                argument: "target",
                trailing: "hardlink target has trailing slash",
            },
        )
    }

    /// Starts to create an ordinary file at `path` within the root and to
    /// open it in one call, so that the descriptor is one to the file that
    /// was created. The flags are the caller's, with `O_CREAT` and
    /// `O_NOFOLLOW` set; the operation ends with the file descriptor.
    pub fn create_file(&self, path: &[u8], flags: OpenFlags, perm: u32) -> (op: EntryOp)
        ensures
            op.wf(),
            op@ == entry_op(
                self@.resolver,
                self@.fd,
                ActionView::Open { flags: flags.bits | O_CREAT | O_NOFOLLOW, mode: perm },
                "pathrs create_file"@,
                path@,
                creation_words(),
                Seq::empty(),
                creation_words(),
            ),
    {
        let nothing: Vec<u8> = Vec::new();
        let first = self.resolve_parent(path);
        let second = self.resolve_parent(nothing.as_slice());
        let words = Wording {
            context: "resolve file creation path",
            argument: "path",
            trailing: "file creation path has trailing slash",
        };
        EntryOp::new(
            Action::Open { flags: flags.bits | o_creat() | o_nofollow(), mode: perm },
            "pathrs create_file",
            first,
            words,
            second,
            words,
        )
    }

    /// Starts to create the directory at `path` within the root, and every
    /// directory above it that is missing. Directories that exist are
    /// accepted; the operation ends with a handle to the deepest directory,
    /// opened as a directory.
    pub fn mkdir_all(&self, path: &[u8], perm: u32) -> (op: MkdirAll)
        ensures
            op.wf(),
            op@ == MkdirAllView::start(self@.resolver, self@.fd, path@, perm),
    {
        MkdirAll::new(&self.resolver, *self.inner, path, perm)
    }

    fn remove_inode(&self, path: &[u8], inode_type: RemoveInodeType) -> (op: EntryOp)
        ensures
            op.wf(),
            op@ == entry_op(
                self@.resolver,
                self@.fd,
                ActionView::Unlink {
                    flags: match inode_type {
                        RemoveInodeType::Regular => 0,
                        RemoveInodeType::Directory => AT_REMOVEDIR,
                    },
                },
                "pathrs remove"@,
                path@,
                removal_words(),
                Seq::empty(),
                removal_words(),
            ),
    {
        let nothing: Vec<u8> = Vec::new();
        let first = self.resolve_parent(path);
        let second = self.resolve_parent(nothing.as_slice());
        let flags: i32 = match inode_type {
            RemoveInodeType::Regular => 0,
            RemoveInodeType::Directory => at_removedir(),
        };
        let words = Wording {
            context: "resolve file removal path",
            argument: "path",
            trailing: "file removal path has trailing slash",
        };
        EntryOp::new(Action::Unlink { flags }, "pathrs remove", first, words, second, words)
    }

    /// Starts to remove the empty directory at `path` within the root.
    pub fn remove_dir(&self, path: &[u8]) -> (op: EntryOp)
        ensures
            op.wf(),
            op@ == entry_op(
                self@.resolver,
                self@.fd,
                ActionView::Unlink { flags: AT_REMOVEDIR },
                "pathrs remove"@,
                path@,
                removal_words(),
                Seq::empty(),
                removal_words(),
            ),
    {
        self.remove_inode(path, RemoveInodeType::Directory)
    }

    /// Starts to remove the file, or whatever is no directory, at `path`
    /// within the root.
    pub fn remove_file(&self, path: &[u8]) -> (op: EntryOp)
        ensures
            op.wf(),
            op@ == entry_op(
                self@.resolver,
                self@.fd,
                ActionView::Unlink { flags: 0 },
                "pathrs remove"@,
                path@,
                removal_words(),
                Seq::empty(),
                removal_words(),
            ),
    {
        self.remove_inode(path, RemoveInodeType::Regular)
    }

    /// Starts to remove what is at `path` within the root, with everything
    /// below it. Symlinks in the tree are unlinked, not followed.
    pub fn remove_all(&self, path: &[u8]) -> (op: RemoveAll)
        ensures
            op.wf(),
            op@ == (RemoveAllView {
                stage: RemoveStage::Lookup,
                lookup: ParentLookupView::start(self@.resolver, self@.fd, path@),
                top: None,
                levels: Seq::empty(),
            }),
    {
        RemoveAll::new(self.resolve_parent(path))
    }

    /// Starts to rename `source` to `destination`, both within the root.
    /// Both parents are resolved; the flags are handed to `renameat2` as
    /// they are.
    pub fn rename(&self, source: &[u8], destination: &[u8], rflags: RenameFlags) -> (op: EntryOp)
        ensures
            op.wf(),
            op@ == entry_op(
                self@.resolver,
                self@.fd,
                ActionView::Rename { flags: rflags.bits },
                "pathrs rename"@,
                source@,
                rename_source_words(),
                destination@,
                rename_destination_words(),
            ),
    {
        let first = self.resolve_parent(source);
        let second = self.resolve_parent(destination);
        EntryOp::new(
            Action::Rename { flags: rflags.bits },
            "pathrs rename",
            first,
            Wording {
                context: "resolve rename source path",
                argument: "source",
                trailing: "rename source path has trailing slash",
            },
            second,
            Wording {
                context: "resolve rename destination path",
                argument: "destination",
                trailing: "rename destination path has trailing slash",
            },
        )
    }
}

} // verus!
