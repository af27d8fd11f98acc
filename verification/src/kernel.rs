//! The kernel-native resolver: the whole walk in one `openat2` call that
//! treats the root handle as the root of the resolution.

use vstd::prelude::*;
use crate::error::{Error, ErrorView};
use crate::handle::Handle;
use crate::path::{copy_bytes, dot, PERIOD};
use crate::root::Root;
use crate::step::{Next, Step, StepView};
use crate::sys::{
    at_fdcwd, o_path, resolve_in_root, Reply, ReplyView, Syscall, SyscallView, AT_FDCWD, O_PATH,
    RESOLVE_IN_ROOT,
};
use crate::walk::{unexpected, unexpected_reply};

verus! {

/// Where a kernel-native resolution stands.
#[derive(Debug, Clone, Copy, PartialEq, Eq)]
pub enum KernelStage {
    /// Nothing was asked yet.
    Fresh,
    /// The kernel is being probed for `openat2`.
    Probing,
    /// The path is being opened.
    Opening,
    /// The resolution is over.
    Over,
}

/// A kernel-native resolution.
#[derive(Debug)]
pub struct KernelResolve {
    root: i32,
    path: Vec<u8>,
    flags: i32,
    resolve: u64,
    probe: bool,
    stage: KernelStage,
}

/// The mathematical content of a [`KernelResolve`].
pub struct KernelResolveView {
    pub root: i32,
    pub path: Seq<u8>,
    /// The flags of the open.
    pub flags: i32,
    /// The flags of the resolution.
    pub resolve: u64,
    /// Whether the kernel is probed first.
    pub probe: bool,
    pub stage: KernelStage,
}

/// The error for a kernel without `openat2`.
pub open spec fn unsupported() -> ErrorView {
    ErrorView::NotSupported { feature: "kernel resolution"@ }
}

impl KernelResolveView {
    /// The call that resolves the path.
    pub open spec fn open_call(self) -> SyscallView {
        SyscallView::OpenAt2 {
            dir: self.root,
            path: self.path,
            flags: self.flags,
            resolve: self.resolve,
        }
    }

    /// The call that probes the kernel: it opens the working directory.
    pub open spec fn probe_call() -> SyscallView {
        SyscallView::OpenAt2 { dir: AT_FDCWD, path: dot(), flags: O_PATH, resolve: 0 }
    }

    /// The move that the resolution makes on a reply. A probe that fails
    /// ends it with `NotSupported`; the handle that a probe opened is
    /// released. The open ends it with the handle, or with the error of the
    /// call in the context of opening the sub-path.
    pub open spec fn step(self, reply: ReplyView) -> (KernelResolveView, StepView<i32>) {
        let over = KernelResolveView { stage: KernelStage::Over, ..self };
        let opening = KernelResolveView { stage: KernelStage::Opening, ..self };
        match self.stage {
            KernelStage::Over => (
                self,
                StepView::failed(
                    Seq::empty(),
                    ErrorView::invalid("reply"@, "the operation is over"@),
                ),
            ),
            KernelStage::Fresh => match reply {
                ReplyView::Start => if self.probe {
                    (
                        KernelResolveView { stage: KernelStage::Probing, ..self },
                        StepView::call(Seq::empty(), KernelResolveView::probe_call()),
                    )
                } else {
                    (opening, StepView::call(Seq::empty(), self.open_call()))
                },
                _ => (over, StepView::failed(Seq::empty(), unexpected_reply())),
            },
            KernelStage::Probing => match reply {
                ReplyView::Fd(fd) => (opening, StepView::call(seq![fd], self.open_call())),
                ReplyView::Failed(_) => (over, StepView::failed(Seq::empty(), unsupported())),
                _ => (over, StepView::failed(Seq::empty(), unexpected_reply())),
            },
            KernelStage::Opening => match reply {
                ReplyView::Fd(fd) => (over, StepView::done(Seq::empty(), fd)),
                ReplyView::Failed(errno) => (
                    over,
                    StepView::failed(
                        Seq::empty(),
                        ErrorView::raw_os("openat2"@, errno).wrap("open sub-path"@),
                    ),
                ),
                _ => (over, StepView::failed(Seq::empty(), unexpected_reply())),
            },
        }
    }
}

impl View for KernelResolve {
    type V = KernelResolveView;

    closed spec fn view(&self) -> KernelResolveView {
        KernelResolveView {
            root: self.root,
            path: self.path@,
            flags: self.flags,
            resolve: self.resolve,
            probe: self.probe,
            stage: self.stage,
        }
    }
}

impl KernelResolve {
    /// A resolution of `path` in the directory that `root` refers to, with
    /// the given flags of the open and of the resolution. With `probe` the
    /// kernel is first asked whether it has `openat2` at all.
    pub fn new(root: i32, path: &[u8], flags: i32, resolve: u64, probe: bool) -> (resolution:
        KernelResolve)
        ensures
            resolution@ == (KernelResolveView {
                root,
                path: path@,
                flags,
                resolve,
                probe,
                stage: KernelStage::Fresh,
            }),
    {
        KernelResolve { root, path: copy_bytes(path), flags, resolve, probe, stage: KernelStage::Fresh }
    }

    fn open_call(&self) -> (call: Syscall)
        ensures
            call@ == self@.open_call(),
    {
        Syscall::OpenAt2 {
            dir: self.root,
            path: copy_bytes(self.path.as_slice()),
            flags: self.flags,
            resolve: self.resolve,
        }
    }

    fn stop(&mut self, error: Error) -> (step: Step<Handle>)
        ensures
            final(self)@ == (KernelResolveView { stage: KernelStage::Over, ..old(self)@ }),
            step@ == StepView::<i32>::failed(Seq::empty(), error@),
    {
        self.stage = KernelStage::Over;
        Step { retired: Vec::new(), next: Next::Done(Err(error)) }
    }

    /// Makes the next move of the resolution.
    pub fn step(&mut self, reply: Reply) -> (step: Step<Handle>)
        ensures
            (final(self)@, step@) == old(self)@.step(reply@),
    {
        match self.stage {
            KernelStage::Over => Step {
                retired: Vec::new(),
                next: Next::Done(Err(Error::invalid_argument("reply", "the operation is over"))),
            },
            KernelStage::Fresh => match reply {
                Reply::Start => {
                    if self.probe {
                        self.stage = KernelStage::Probing;
                        let mut here: Vec<u8> = Vec::new();
                        here.push(PERIOD);
                        assert(here@ =~= dot());
                        Step {
                            retired: Vec::new(),
                            next: Next::Call(
                                Syscall::OpenAt2 {
                                    dir: at_fdcwd(),
                                    path: here,
                                    flags: o_path(),
                                    resolve: 0,
                                },
                            ),
                        }
                    } else {
                        self.stage = KernelStage::Opening;
                        Step { retired: Vec::new(), next: Next::Call(self.open_call()) }
                    }
                },
                _ => self.stop(unexpected()),
            },
            KernelStage::Probing => match reply {
                Reply::Fd(fd) => {
                    self.stage = KernelStage::Opening;
                    let mut retired: Vec<i32> = Vec::new();
                    retired.push(fd);
                    assert(retired@ =~= seq![fd]);
                    Step { retired, next: Next::Call(self.open_call()) }
                },
                Reply::Failed(_) => self.stop(Error::not_supported("kernel resolution")),
                _ => self.stop(unexpected()),
            },
            KernelStage::Opening => match reply {
                Reply::Fd(fd) => {
                    self.stage = KernelStage::Over;
                    Step { retired: Vec::new(), next: Next::Done(Ok(Handle::from_fd(fd))) }
                },
                Reply::Failed(errno) => self.stop(
                    Error::raw_os_error("openat2", errno).wrap("open sub-path"),
                ),
                _ => self.stop(unexpected()),
            },
        }
    }
}

/// Starts to resolve `path` within `root` through `openat2`, after a probe
/// of the kernel. The trailing component is followed if it is a symlink.
pub fn resolve(root: &Root, path: &[u8]) -> (resolution: KernelResolve)
    ensures
        resolution@ == (KernelResolveView {
            root: root@.fd,
            path: path@,
            flags: O_PATH,
            resolve: RESOLVE_IN_ROOT,
            probe: true,
            stage: KernelStage::Fresh,
        }),
{
    KernelResolve::new(root.as_fd(), path, o_path(), resolve_in_root(), true)
}

} // verus!
