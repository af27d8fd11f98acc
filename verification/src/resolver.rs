//! The configuration of resolution, and the resolution of a path by the
//! backend that it names.

use vstd::prelude::*;
use crate::error::{Error, ErrorView};
use crate::flags::ResolverFlags;
use crate::handle::Handle;
use crate::kernel::{unsupported, KernelResolve, KernelResolveView};
use crate::step::{Next, NextView, Step, StepView};
use crate::sys::{
    o_path, resolve_in_root, Reply, ReplyView, O_PATH, O_PATH_NOFOLLOW, RESOLVE_IN_ROOT,
};
use crate::walk::{unexpected, unexpected_reply, Partial, PartialView, Walk, WalkView};

verus! {

/// Which resolver does the work.
#[derive(Debug, Clone, Copy, PartialEq, Eq)]
pub enum ResolverBackend {
    /// The kernel's, where a probe finds it, else the emulated one.
    Auto,
    /// The kernel's: `openat2` with the root handle as the root.
    KernelNative,
    /// The emulated one: a walk, component by component.
    Emulated,
}

/// The configuration of resolution below a root.
#[derive(Debug, Clone, Copy)]
pub struct Resolver {
    pub backend: ResolverBackend,
    pub flags: ResolverFlags,
}

impl Default for Resolver {
    fn default() -> (resolver: Resolver)
        ensures
            resolver.backend == ResolverBackend::Auto,
            resolver.flags.bits == 0,
    {
        Resolver { backend: ResolverBackend::Auto, flags: ResolverFlags::empty() }
    }
}

/// Where a resolution stands.
#[derive(Debug, Clone, Copy, PartialEq, Eq)]
pub enum Stage {
    /// Nothing was asked yet.
    Fresh,
    /// The kernel resolves.
    Kernel,
    /// The walk resolves.
    Emulated,
    /// The resolution is over.
    Over,
}

/// The resolution of a path to a handle.
#[derive(Debug)]
pub struct Resolution {
    backend: ResolverBackend,
    stage: Stage,
    kernel: KernelResolve,
    walk: Walk,
}

/// The mathematical content of a [`Resolution`].
pub struct ResolutionView {
    pub backend: ResolverBackend,
    pub stage: Stage,
    pub kernel: KernelResolveView,
    pub walk: WalkView,
}

/// The flags with which the kernel opens what it has resolved.
pub open spec fn kernel_open_flags(nofollow: bool) -> i32 {
    if nofollow {
        O_PATH_NOFOLLOW
    } else {
        O_PATH
    }
}

/// A step of the walk as a step of the resolution: the handle without the
/// empty rest, and the error as it leaves the resolver.
pub open spec fn walk_step(step: StepView<PartialView>) -> StepView<i32> {
    StepView {
        retired: step.retired,
        next: match step.next {
            NextView::Call(call) => NextView::Call(call),
            NextView::Done(Ok(partial)) => NextView::Done(Ok(partial.handle)),
            NextView::Done(Err(error)) => NextView::Done(Err(error.at_boundary())),
        },
    }
}

impl ResolutionView {
    /// The state in which the resolution of `path` in `root` begins.
    pub open spec fn start(
        resolver: Resolver,
        root: i32,
        path: Seq<u8>,
        nofollow: bool,
    ) -> ResolutionView {
        ResolutionView {
            backend: resolver.backend,
            stage: Stage::Fresh,
            kernel: KernelResolveView {
                root,
                path,
                flags: kernel_open_flags(nofollow),
                resolve: RESOLVE_IN_ROOT | resolver.flags.bits,
                probe: resolver.backend == ResolverBackend::Auto,
                stage: crate::kernel::KernelStage::Fresh,
            },
            walk: WalkView::start(root, path, resolver.flags, nofollow, false),
        }
    }

    /// The walk takes over, after the handles in `retired` are released.
    pub open spec fn emulate(self, retired: Seq<i32>) -> (ResolutionView, StepView<i32>) {
        let (walk, step) = self.walk.step(ReplyView::Start);
        (
            ResolutionView {
                stage: if step.is_done() {
                    Stage::Over
                } else {
                    Stage::Emulated
                },
                walk,
                ..self
            },
            walk_step(StepView { retired: retired + step.retired, ..step }),
        )
    }

    /// The move that the resolution makes on a reply. The emulated backend
    /// is the walk; the kernel's is the kernel-native resolution; with
    /// `Auto` the walk takes over where the probe finds no `openat2`.
    pub open spec fn step(self, reply: ReplyView) -> (ResolutionView, StepView<i32>) {
        match self.stage {
            Stage::Over => (
                self,
                StepView::failed(
                    Seq::empty(),
                    ErrorView::invalid("reply"@, "the operation is over"@),
                ),
            ),
            Stage::Fresh => match reply {
                ReplyView::Start => if self.backend == ResolverBackend::Emulated {
                    self.emulate(Seq::empty())
                } else {
                    let (kernel, step) = self.kernel.step(reply);
                    (ResolutionView { stage: Stage::Kernel, kernel, ..self }, step)
                },
                _ => (
                    ResolutionView { stage: Stage::Over, ..self },
                    StepView::failed(Seq::empty(), unexpected_reply()),
                ),
            },
            Stage::Kernel => {
                let (kernel, step) = self.kernel.step(reply);
                let next = ResolutionView { kernel, ..self };
                if self.backend == ResolverBackend::Auto && step.next == NextView::<i32>::Done(
                    Err(unsupported()),
                ) {
                    next.emulate(step.retired)
                } else {
                    (
                        ResolutionView {
                            stage: if step.is_done() {
                                Stage::Over
                            } else {
                                Stage::Kernel
                            },
                            ..next
                        },
                        step,
                    )
                }
            },
            Stage::Emulated => {
                let (walk, step) = self.walk.step(reply);
                (
                    ResolutionView {
                        stage: if step.is_done() {
                            Stage::Over
                        } else {
                            Stage::Emulated
                        },
                        walk,
                        ..self
                    },
                    walk_step(step),
                )
            },
        }
    }
}

impl View for Resolution {
    type V = ResolutionView;

    closed spec fn view(&self) -> ResolutionView {
        ResolutionView {
            backend: self.backend,
            stage: self.stage,
            kernel: self.kernel@,
            walk: self.walk@,
        }
    }
}

/// A step of the walk as a step of the resolution.
fn from_walk(step: Step<Partial>) -> (mapped: Step<Handle>)
    ensures
        mapped@ == walk_step(step@),
{
    let Step { retired, next } = step;
    match next {
        Next::Call(call) => Step { retired, next: Next::Call(call) },
        Next::Done(Ok(partial)) => Step { retired, next: Next::Done(Ok(partial.handle)) },
        Next::Done(Err(error)) => Step { retired, next: Next::Done(Err(error.at_boundary())) },
    }
}

/// Whether a step ends its operation.
pub fn step_is_done<T: View>(step: &Step<T>) -> (done: bool)
    ensures
        done == step@.is_done(),
{
    match &step.next {
        Next::Done(_) => true,
        Next::Call(_) => false,
    }
}

impl Resolution {
    /// Whether the resolution is in order.
    pub closed spec fn wf(&self) -> bool {
        self.walk.wf()
    }

    fn emulate(&mut self, retired: Vec<i32>) -> (step: Step<Handle>)
        requires
            old(self).wf(),
        ensures
            final(self).wf(),
            (final(self)@, step@) == old(self)@.emulate(retired@),
    {
        let first = self.walk.step(Reply::Start);
        self.stage = if step_is_done(&first) {
            Stage::Over
        } else {
            Stage::Emulated
        };
        let Step { retired: more, next } = first;
        let mut all = retired;
        let mut more = more;
        all.append(&mut more);
        from_walk(Step { retired: all, next })
    }

    /// Makes the next move of the resolution.
    pub fn step(&mut self, reply: Reply) -> (step: Step<Handle>)
        requires
            old(self).wf(),
        ensures
            final(self).wf(),
            (final(self)@, step@) == old(self)@.step(reply@),
    {
        match self.stage {
            Stage::Over => Step {
                retired: Vec::new(),
                next: Next::Done(Err(Error::invalid_argument("reply", "the operation is over"))),
            },
            Stage::Fresh => match reply {
                Reply::Start => {
                    match self.backend {
                        ResolverBackend::Emulated => self.emulate(Vec::new()),
                        _ => {
                            self.stage = Stage::Kernel;
                            self.kernel.step(Reply::Start)
                        },
                    }
                },
                _ => {
                    self.stage = Stage::Over;
                    Step { retired: Vec::new(), next: Next::Done(Err(unexpected())) }
                },
            },
            Stage::Kernel => {
                let step = self.kernel.step(reply);
                let auto = match self.backend {
                    ResolverBackend::Auto => true,
                    _ => false,
                };
                let lacking = auto && match &step.next {
                    Next::Done(Err(error)) => is_unsupported(error),
                    _ => false,
                };
                if lacking {
                    self.emulate(step.retired)
                } else {
                    if step_is_done(&step) {
                        self.stage = Stage::Over;
                    }
                    step
                }
            },
            Stage::Emulated => {
                let step = self.walk.step(reply);
                if step_is_done(&step) {
                    self.stage = Stage::Over;
                }
                from_walk(step)
            },
        }
    }
}

/// Whether an error is the one for a kernel without `openat2`.
fn is_unsupported(error: &Error) -> (yes: bool)
    ensures
        yes == (error@ == unsupported()),
{
    match &*error.0 {
        crate::error::ErrorImpl::NotSupported { feature } => {
            let same = crate::path::same_str(feature.as_str(), "kernel resolution");
            same
        },
        _ => false,
    }
}

impl Resolver {
    /// Starts to resolve `path` in the directory that `root` refers to.
    /// With `no_follow_trailing` a symlink at the very end of the path is
    /// not followed.
    pub fn resolve(&self, root: i32, path: &[u8], no_follow_trailing: bool) -> (resolution:
        Resolution)
        ensures
            resolution.wf(),
            resolution@ == ResolutionView::start(*self, root, path@, no_follow_trailing),
    {
        let flags: i32 = if no_follow_trailing {
            crate::sys::o_path_nofollow()
        } else {
            o_path()
        };
        let probe = match self.backend {
            ResolverBackend::Auto => true,
            _ => false,
        };
        Resolution {
            backend: self.backend,
            stage: Stage::Fresh,
            kernel: KernelResolve::new(
                root,
                path,
                flags,
                resolve_in_root() | self.flags.bits,
                probe,
            ),
            walk: Walk::new(root, path, self.flags, no_follow_trailing, false),
        }
    }

    /// Starts to resolve as much of `path` as exists in the directory that
    /// `root` refers to. The walk stops at the first component that cannot
    /// be opened, and ends with the handle that it has reached and the
    /// components that are left. Partial resolution is always emulated.
    pub fn resolve_partial(&self, root: i32, path: &[u8], no_follow_trailing: bool) -> (walk: Walk)
        ensures
            walk.wf(),
            walk@ == WalkView::start(root, path@, self.flags, no_follow_trailing, true),
    {
        Walk::new(root, path, self.flags, no_follow_trailing, true)
    }
}

} // verus!
