//! `mkdir_all`: find the deepest part of a path that exists, then create
//! what is missing below it, one directory at a time.

use vstd::prelude::*;
use crate::error::{Error, ErrorView};
use crate::handle::Handle;
use crate::path::{copy_bytes, dot, dotdot, is_dot, is_dotdot};
use crate::resolver::{Resolution, ResolutionView, Resolver};
use crate::step::{held, release, Next, NextView, Step, StepView};
use crate::sys::{
    enoent, names_of, o_directory, Reply, ReplyView, Syscall, SyscallView, ENOENT, O_DIRECTORY,
};
use crate::walk::{unexpected, unexpected_reply, Partial, PartialView, Walk, WalkView};

verus! {

/// The permission bits, with the set-id bits and the sticky bit.
pub const MODE_BITS: u32 = 0o7777;

/// The permission bits with the sticky bit: those that `mkdirat` honours.
pub const DIRECTORY_MODE_BITS: u32 = 0o1777;

/// Where a `mkdir_all` stands.
#[derive(Debug, Clone, Copy, PartialEq, Eq)]
pub enum MkdirStage {
    /// Nothing was asked yet.
    Fresh,
    /// The existing part of the path is being resolved.
    Walking,
    /// What was resolved is being opened as a directory.
    Reopening,
    /// A directory is being created.
    Making,
    /// The directory that was created is being resolved.
    Opening,
    /// The directory that was created is being opened as a directory.
    Adopting,
    /// The operation is over.
    Over,
}

/// A `mkdir_all`.
#[derive(Debug)]
pub struct MkdirAll {
    stage: MkdirStage,
    resolver: Resolver,
    perm: u32,
    walk: Walk,
    inner: Resolution,
    parts: Vec<Vec<u8>>,
    part: Vec<u8>,
    found: Option<i32>,
    current: Option<i32>,
}

/// The mathematical content of a [`MkdirAll`].
pub struct MkdirAllView {
    pub stage: MkdirStage,
    pub resolver: Resolver,
    /// The mode of the directories to create.
    pub perm: u32,
    /// The resolution of the part of the path that exists.
    pub walk: WalkView,
    /// The resolution of the directory that was created last.
    pub inner: ResolutionView,
    /// The names of the directories that are still to be created.
    pub parts: Seq<Seq<u8>>,
    /// The name of the directory that is being created.
    pub part: Seq<u8>,
    /// The handle that is being opened as a directory.
    pub found: Option<i32>,
    /// The deepest directory so far, opened as a directory.
    pub current: Option<i32>,
}

/// Whether a component names something: it is neither empty nor `.`.
pub open spec fn names_something(component: Seq<u8>) -> bool {
    component.len() > 0 && component != dot()
}

/// The components that name something, in order.
pub open spec fn named(components: Seq<Seq<u8>>) -> Seq<Seq<u8>> {
    components.filter(|c: Seq<u8>| names_something(c))
}

/// Whether one of the components is `..`.
pub open spec fn has_dotdot(components: Seq<Seq<u8>>) -> bool {
    exists|i: int| 0 <= i < components.len() && components[i] == dotdot()
}

/// The error for a mode with bits beyond the permission bits.
pub open spec fn beyond_mode_bits() -> ErrorView {
    ErrorView::invalid("perm"@, "mode cannot contain non-0o7777 bits"@)
}

/// The error for a mode with set-id bits.
pub open spec fn set_id_bits() -> ErrorView {
    ErrorView::invalid(
        "perm"@,
        "mode contains setuid or setgid bits that are silently ignored by mkdirat"@,
    )
}

/// The error for a `..` among the directories to create.
pub open spec fn dotdot_to_create() -> ErrorView {
    ErrorView::os("mkdir_all remaining components"@, ENOENT).wrap(
        "yet-to-be-created path contains '..' components"@,
    )
}

impl MkdirAllView {
    /// The state in which a `mkdir_all` of `path` below `root` begins.
    pub open spec fn start(resolver: Resolver, root: i32, path: Seq<u8>, perm: u32)
        -> MkdirAllView {
        MkdirAllView {
            stage: MkdirStage::Fresh,
            resolver,
            perm,
            walk: WalkView::start(root, path, resolver.flags, false, true),
            inner: ResolutionView::start(resolver, root, Seq::empty(), true),
            parts: Seq::empty(),
            part: Seq::empty(),
            found: None,
            current: None,
        }
    }

    /// The state of an operation that is over: it holds no handle.
    pub open spec fn settled(self) -> MkdirAllView {
        MkdirAllView { stage: MkdirStage::Over, found: None, current: None, ..self }
    }

    /// The operation fails: the handles that it holds are released.
    pub open spec fn fail(self, retired: Seq<i32>, error: ErrorView) -> (
        MkdirAllView,
        StepView<i32>,
    ) {
        (
            self.settled(),
            StepView::failed(retired + held(self.found) + held(self.current), error),
        )
    }

    /// The operation asks for `handle` to be opened as a directory.
    pub open spec fn reopen(self, stage: MkdirStage, retired: Seq<i32>, handle: i32) -> (
        MkdirAllView,
        StepView<i32>,
    ) {
        (
            MkdirAllView { stage, found: Some(handle), ..self },
            StepView::call(retired, SyscallView::Reopen { fd: handle, flags: O_DIRECTORY }),
        )
    }

    /// The operation goes on to the next directory to create, or ends with
    /// the deepest one.
    pub open spec fn next_part(self, retired: Seq<i32>) -> (MkdirAllView, StepView<i32>) {
        match self.current {
            None => self.fail(retired, ErrorView::safety("the operation holds no directory"@)),
            Some(current) => if self.parts.len() == 0 {
                (self.settled(), StepView::done(retired + held(self.found), current))
            } else {
                (
                    MkdirAllView {
                        stage: MkdirStage::Making,
                        part: self.parts[0],
                        parts: self.parts.skip(1),
                        ..self
                    },
                    StepView::call(
                        retired,
                        SyscallView::MkdirAt { dir: current, name: self.parts[0], mode: self.perm },
                    ),
                )
            },
        }
    }

    /// What the operation makes of a step of the resolution of the
    /// existing part. The components that are left and name something are
    /// the directories to create.
    pub open spec fn after_walk(self, step: StepView<PartialView>) -> (
        MkdirAllView,
        StepView<i32>,
    ) {
        match step.next {
            NextView::Call(call) => (self, StepView::call(step.retired, call)),
            NextView::Done(Err(error)) => self.fail(step.retired, error.at_boundary()),
            NextView::Done(Ok(partial)) => MkdirAllView {
                parts: named(partial.remaining),
                ..self
            }.reopen(MkdirStage::Reopening, step.retired, partial.handle),
        }
    }

    /// What the operation makes of a step of the resolution of the
    /// directory that it has created.
    pub open spec fn after_inner(self, step: StepView<i32>) -> (MkdirAllView, StepView<i32>) {
        match step.next {
            NextView::Call(call) => (self, StepView::call(step.retired, call)),
            NextView::Done(Err(error)) => self.fail(
                step.retired,
                error.wrap("failed to open newly-created directory with O_DIRECTORY"@),
            ),
            NextView::Done(Ok(handle)) => self.reopen(MkdirStage::Adopting, step.retired, handle),
        }
    }

    /// The first move: a mode with bits beyond the permission bits, or
    /// with set-id bits, is refused before anything is resolved.
    pub open spec fn on_start(self, reply: ReplyView) -> (MkdirAllView, StepView<i32>) {
        match reply {
            ReplyView::Start => if self.perm & !MODE_BITS != 0 {
                self.fail(Seq::empty(), beyond_mode_bits())
            } else if self.perm & !DIRECTORY_MODE_BITS != 0 {
                self.fail(Seq::empty(), set_id_bits())
            } else {
                let (walk, step) = self.walk.step(reply);
                MkdirAllView { stage: MkdirStage::Walking, walk, ..self }.after_walk(step)
            },
            _ => self.fail(Seq::empty(), unexpected_reply()),
        }
    }

    /// What was resolved was opened as a directory, or is none. A `..`
    /// among the directories to create is refused before any is created.
    pub open spec fn on_reopened(self, reply: ReplyView) -> (MkdirAllView, StepView<i32>) {
        match reply {
            ReplyView::Fd(fd) => {
                let next = MkdirAllView { current: Some(fd), found: None, ..self };
                if has_dotdot(self.parts) {
                    next.fail(held(self.found), dotdot_to_create())
                } else {
                    next.next_part(held(self.found))
                }
            },
            ReplyView::Failed(errno) => self.fail(
                Seq::empty(),
                ErrorView::raw_os("reopen handle"@, errno).wrap(
                    "cannot create directories in resolved handle"@,
                ),
            ),
            _ => self.fail(Seq::empty(), unexpected_reply()),
        }
    }

    /// A directory was created, or could not be: what was created is
    /// resolved in its parent without following a symlink.
    pub open spec fn on_made(self, reply: ReplyView) -> (MkdirAllView, StepView<i32>) {
        match reply {
            ReplyView::Done => match self.current {
                Some(current) => {
                    let (inner, step) = ResolutionView::start(
                        self.resolver,
                        current,
                        self.part,
                        true,
                    ).step(ReplyView::Start);
                    MkdirAllView { stage: MkdirStage::Opening, inner, ..self }.after_inner(step)
                },
                None => self.fail(
                    Seq::empty(),
                    ErrorView::safety("the operation holds no directory"@),
                ),
            },
            ReplyView::Failed(errno) => self.fail(
                Seq::empty(),
                ErrorView::raw_os("create next directory component"@, errno),
            ),
            _ => self.fail(Seq::empty(), unexpected_reply()),
        }
    }

    /// The directory that was created was opened as a directory, or is
    /// none: it becomes the deepest directory, and the one before it is
    /// released.
    pub open spec fn on_adopted(self, reply: ReplyView) -> (MkdirAllView, StepView<i32>) {
        match reply {
            ReplyView::Fd(fd) => MkdirAllView {
                current: Some(fd),
                found: None,
                ..self
            }.next_part(held(self.found) + held(self.current)),
            ReplyView::Failed(errno) => self.fail(
                Seq::empty(),
                ErrorView::raw_os("reopen handle"@, errno).wrap(
                    "failed to open newly-created directory with O_DIRECTORY"@,
                ),
            ),
            _ => self.fail(Seq::empty(), unexpected_reply()),
        }
    }

    /// The move that the operation makes on a reply.
    pub open spec fn step(self, reply: ReplyView) -> (MkdirAllView, StepView<i32>) {
        match self.stage {
            MkdirStage::Over => (
                self,
                StepView::failed(
                    Seq::empty(),
                    ErrorView::invalid("reply"@, "the operation is over"@),
                ),
            ),
            MkdirStage::Fresh => self.on_start(reply),
            MkdirStage::Walking => {
                let (walk, step) = self.walk.step(reply);
                MkdirAllView { walk, ..self }.after_walk(step)
            },
            MkdirStage::Reopening => self.on_reopened(reply),
            MkdirStage::Making => self.on_made(reply),
            MkdirStage::Opening => {
                let (inner, step) = self.inner.step(reply);
                MkdirAllView { inner, ..self }.after_inner(step)
            },
            MkdirStage::Adopting => self.on_adopted(reply),
        }
    }
}

impl View for MkdirAll {
    type V = MkdirAllView;

    closed spec fn view(&self) -> MkdirAllView {
        MkdirAllView {
            stage: self.stage,
            resolver: self.resolver,
            perm: self.perm,
            walk: self.walk@,
            inner: self.inner@,
            parts: names_of(self.parts@),
            part: self.part@,
            found: self.found,
            current: self.current,
        }
    }
}

/// The components of `components` that name something, and whether one of
/// them is `..`.
fn parts_to_create(components: Vec<Vec<u8>>) -> (parts: Vec<Vec<u8>>)
    ensures
        names_of(parts@) == named(names_of(components@)),
{
    let mut parts: Vec<Vec<u8>> = Vec::new();
    let mut i: usize = 0;
    let ghost all = names_of(components@);
    assert(all.take(0) =~= Seq::empty());
    while i < components.len()
        invariant
            i <= components.len(),
            all == names_of(components@),
            names_of(parts@) == named(all.take(i as int)),
        decreases components.len() - i,
    {
        let component = &components[i];
        let ghost held = names_of(parts@);
        proof {
            assert(all.take(i + 1).drop_last() =~= all.take(i as int));
            assert(all.take(i + 1).last() == component@);
            reveal(Seq::filter);
        }
        if component.len() > 0 && !is_dot(component.as_slice()) {
            parts.push(copy_bytes(component.as_slice()));
            assert(names_of(parts@) =~= held.push(component@));
        }
        i += 1;
    }
    assert(all.take(i as int) =~= all);
    parts
}

/// Whether one of the components is `..`.
fn any_dotdot(components: &Vec<Vec<u8>>) -> (yes: bool)
    ensures
        yes == has_dotdot(names_of(components@)),
{
    let mut i: usize = 0;
    while i < components.len()
        invariant
            i <= components.len(),
            forall|j: int| 0 <= j < i ==> names_of(components@)[j] != dotdot(),
        decreases components.len() - i,
    {
        if is_dotdot(components[i].as_slice()) {
            assert(names_of(components@)[i as int] == dotdot());
            return true;
        }
        i += 1;
    }
    false
}

impl MkdirAll {
    /// Whether the operation is in order.
    pub closed spec fn wf(&self) -> bool {
        self.walk.wf() && self.inner.wf()
    }

    /// A `mkdir_all` of `path` below the directory that `root` refers to,
    /// with the mode `perm` for what it creates.
    pub fn new(resolver: &Resolver, root: i32, path: &[u8], perm: u32) -> (op: MkdirAll)
        ensures
            op.wf(),
            op@ == MkdirAllView::start(*resolver, root, path@, perm),
    {
        let nothing: Vec<u8> = Vec::new();
        let op = MkdirAll {
            stage: MkdirStage::Fresh,
            resolver: *resolver,
            perm,
            walk: resolver.resolve_partial(root, path, false),
            inner: resolver.resolve(root, nothing.as_slice(), true),
            parts: Vec::new(),
            part: Vec::new(),
            found: None,
            current: None,
        };
        assert(names_of(op.parts@) =~= Seq::empty());
        op
    }

    fn fail(&mut self, retired: Vec<i32>, error: Error) -> (step: Step<Handle>)
        requires
            old(self).wf(),
        ensures
            final(self).wf(),
            (final(self)@, step@) == old(self)@.fail(retired@, error@),
    {
        let mut retired = retired;
        release(&mut retired, self.found);
        release(&mut retired, self.current);
        self.stage = MkdirStage::Over;
        self.found = None;
        self.current = None;
        Step { retired, next: Next::Done(Err(error)) }
    }

    fn reopen(&mut self, stage: MkdirStage, retired: Vec<i32>, handle: i32) -> (step: Step<Handle>)
        requires
            old(self).wf(),
        ensures
            final(self).wf(),
            (final(self)@, step@) == old(self)@.reopen(stage, retired@, handle),
    {
        self.stage = stage;
        self.found = Some(handle);
        Step { retired, next: Next::Call(Syscall::Reopen { fd: handle, flags: o_directory() }) }
    }

    fn next_part(&mut self, retired: Vec<i32>) -> (step: Step<Handle>)
        requires
            old(self).wf(),
        ensures
            final(self).wf(),
            (final(self)@, step@) == old(self)@.next_part(retired@),
    {
        match self.current {
            None => self.fail(retired, Error::safety_violation("the operation holds no directory")),
            Some(current) => {
                if self.parts.len() == 0 {
                    let mut retired = retired;
                    release(&mut retired, self.found);
                    self.stage = MkdirStage::Over;
                    self.found = None;
                    self.current = None;
                    Step { retired, next: Next::Done(Ok(Handle::from_fd(current))) }
                } else {
                    let ghost before = self@;
                    let part = self.parts.remove(0);
                    assert(names_of(self.parts@) =~= before.parts.skip(1));
                    let name = copy_bytes(part.as_slice());
                    self.part = part;
                    self.stage = MkdirStage::Making;
                    Step {
                        retired,
                        next: Next::Call(Syscall::MkdirAt { dir: current, name, mode: self.perm }),
                    }
                }
            },
        }
    }

    fn after_walk(&mut self, step: Step<Partial>) -> (out: Step<Handle>)
        requires
            old(self).wf(),
        ensures
            final(self).wf(),
            (final(self)@, out@) == old(self)@.after_walk(step@),
    {
        let Step { retired, next } = step;
        match next {
            Next::Call(call) => Step { retired, next: Next::Call(call) },
            Next::Done(Err(error)) => self.fail(retired, error.at_boundary()),
            Next::Done(Ok(partial)) => {
                let Partial { handle, remaining } = partial;
                self.parts = parts_to_create(remaining);
                self.reopen(MkdirStage::Reopening, retired, handle.into_fd())
            },
        }
    }

    fn after_inner(&mut self, step: Step<Handle>) -> (out: Step<Handle>)
        requires
            old(self).wf(),
        ensures
            final(self).wf(),
            (final(self)@, out@) == old(self)@.after_inner(step@),
    {
        let Step { retired, next } = step;
        match next {
            Next::Call(call) => Step { retired, next: Next::Call(call) },
            Next::Done(Err(error)) => self.fail(
                retired,
                error.wrap("failed to open newly-created directory with O_DIRECTORY"),
            ),
            Next::Done(Ok(handle)) => self.reopen(MkdirStage::Adopting, retired, handle.into_fd()),
        }
    }

    fn on_start(&mut self, reply: Reply) -> (step: Step<Handle>)
        requires
            old(self).wf(),
        ensures
            final(self).wf(),
            (final(self)@, step@) == old(self)@.on_start(reply@),
    {
        match reply {
            Reply::Start => {
                if self.perm & !MODE_BITS != 0 {
                    self.fail(
                        Vec::new(),
                        Error::invalid_argument("perm", "mode cannot contain non-0o7777 bits"),
                    )
                } else if self.perm & !DIRECTORY_MODE_BITS != 0 {
                    self.fail(
                        Vec::new(),
                        Error::invalid_argument(
                            "perm",
                            "mode contains setuid or setgid bits that are silently ignored by mkdirat",
                        ),
                    )
                } else {
                    self.stage = MkdirStage::Walking;
                    let step = self.walk.step(Reply::Start);
                    self.after_walk(step)
                }
            },
            _ => self.fail(Vec::new(), unexpected()),
        }
    }

    fn on_reopened(&mut self, reply: Reply) -> (step: Step<Handle>)
        requires
            old(self).wf(),
        ensures
            final(self).wf(),
            (final(self)@, step@) == old(self)@.on_reopened(reply@),
    {
        match reply {
            Reply::Fd(fd) => {
                let mut retired: Vec<i32> = Vec::new();
                release(&mut retired, self.found);
                assert(retired@ =~= held(self.found));
                self.current = Some(fd);
                self.found = None;
                if any_dotdot(&self.parts) {
                    self.fail(
                        retired,
                        Error::os_error("mkdir_all remaining components", enoent()).wrap(
                            "yet-to-be-created path contains '..' components",
                        ),
                    )
                } else {
                    self.next_part(retired)
                }
            },
            Reply::Failed(errno) => self.fail(
                Vec::new(),
                Error::raw_os_error("reopen handle", errno).wrap(
                    "cannot create directories in resolved handle",
                ),
            ),
            _ => self.fail(Vec::new(), unexpected()),
        }
    }

    fn on_made(&mut self, reply: Reply) -> (step: Step<Handle>)
        requires
            old(self).wf(),
        ensures
            final(self).wf(),
            (final(self)@, step@) == old(self)@.on_made(reply@),
    {
        match reply {
            Reply::Done => match self.current {
                Some(current) => {
                    self.inner = self.resolver.resolve(current, self.part.as_slice(), true);
                    self.stage = MkdirStage::Opening;
                    let step = self.inner.step(Reply::Start);
                    self.after_inner(step)
                },
                None => self.fail(
                    Vec::new(),
                    Error::safety_violation("the operation holds no directory"),
                ),
            },
            Reply::Failed(errno) => self.fail(
                Vec::new(),
                Error::raw_os_error("create next directory component", errno),
            ),
            _ => self.fail(Vec::new(), unexpected()),
        }
    }

    fn on_adopted(&mut self, reply: Reply) -> (step: Step<Handle>)
        requires
            old(self).wf(),
        ensures
            final(self).wf(),
            (final(self)@, step@) == old(self)@.on_adopted(reply@),
    {
        match reply {
            Reply::Fd(fd) => {
                let mut retired: Vec<i32> = Vec::new();
                release(&mut retired, self.found);
                release(&mut retired, self.current);
                assert(retired@ =~= held(self.found) + held(self.current));
                self.current = Some(fd);
                self.found = None;
                self.next_part(retired)
            },
            Reply::Failed(errno) => self.fail(
                Vec::new(),
                Error::raw_os_error("reopen handle", errno).wrap(
                    "failed to open newly-created directory with O_DIRECTORY",
                ),
            ),
            _ => self.fail(Vec::new(), unexpected()),
        }
    }

    /// Makes the next move of the operation.
    pub fn step(&mut self, reply: Reply) -> (step: Step<Handle>)
        requires
            old(self).wf(),
        ensures
            final(self).wf(),
            (final(self)@, step@) == old(self)@.step(reply@),
    {
        match self.stage {
            MkdirStage::Over => Step {
                retired: Vec::new(),
                next: Next::Done(Err(Error::invalid_argument("reply", "the operation is over"))),
            },
            MkdirStage::Fresh => self.on_start(reply),
            MkdirStage::Walking => {
                let step = self.walk.step(reply);
                self.after_walk(step)
            },
            MkdirStage::Reopening => self.on_reopened(reply),
            MkdirStage::Making => self.on_made(reply),
            MkdirStage::Opening => {
                let step = self.inner.step(reply);
                self.after_inner(step)
            },
            MkdirStage::Adopting => self.on_adopted(reply),
        }
    }
}

} // verus!
