//! The operations on a single directory entry: each resolves the parent of
//! a path, or of two, and then makes exactly one system call on the
//! trailing name.

use vstd::prelude::*;
use crate::error::{Error, ErrorView};
use crate::lookup::{Parent, ParentLookup, ParentLookupView, ParentView};
use crate::path::copy_bytes;
use crate::step::{held, release, Next, NextView, Step, StepView};
use crate::sys::{Reply, ReplyView, Syscall, SyscallView};
use crate::walk::{unexpected, unexpected_reply};

verus! {

/// The one system call of an operation.
#[derive(Debug)]
#[allow(inconsistent_fields)]
pub enum Action {
    /// `mknodat` of the entry.
    Mknod { mode: u32, dev: u64 },
    /// `mkdirat` of the entry.
    Mkdir { mode: u32 },
    /// `symlinkat` of the entry, to `target`.
    Symlink { target: Vec<u8> },
    /// `linkat` of the entry, to the entry of the second path.
    Link,
    /// `unlinkat` of the entry.
    Unlink { flags: i32 },
    /// `renameat2` of the entry to the entry of the second path.
    Rename { flags: u32 },
    /// `openat` of the entry; it ends with a file descriptor.
    Open { flags: i32, mode: u32 },
}

/// The mathematical content of an [`Action`].
#[allow(inconsistent_fields)]
pub enum ActionView {
    Mknod { mode: u32, dev: u64 },
    Mkdir { mode: u32 },
    Symlink { target: Seq<u8> },
    Link,
    Unlink { flags: i32 },
    Rename { flags: u32 },
    Open { flags: i32, mode: u32 },
}

impl View for Action {
    type V = ActionView;

    open spec fn view(&self) -> ActionView {
        match self {
            Action::Mknod { mode, dev } => ActionView::Mknod { mode: *mode, dev: *dev },
            Action::Mkdir { mode } => ActionView::Mkdir { mode: *mode },
            Action::Symlink { target } => ActionView::Symlink { target: target@ },
            Action::Link => ActionView::Link,
            Action::Unlink { flags } => ActionView::Unlink { flags: *flags },
            Action::Rename { flags } => ActionView::Rename { flags: *flags },
            Action::Open { flags, mode } => ActionView::Open { flags: *flags, mode: *mode },
        }
    }
}

impl ActionView {
    /// Whether the action acts on the entries of two paths.
    pub open spec fn binary(self) -> bool {
        self is Link || self is Rename
    }

    /// The system call of the action on the entry `name` of `dir`, and,
    /// for an action on two entries, the entry `other_name` of `other_dir`.
    /// A link is made at the first entry to the second; a rename moves the
    /// first entry to the second.
    pub open spec fn call(self, dir: i32, name: Seq<u8>, other_dir: i32, other_name: Seq<u8>)
        -> SyscallView {
        match self {
            ActionView::Mknod { mode, dev } => SyscallView::MknodAt { dir, name, mode, dev },
            ActionView::Mkdir { mode } => SyscallView::MkdirAt { dir, name, mode },
            ActionView::Symlink { target } => SyscallView::SymlinkAt { target, dir, name },
            ActionView::Link => SyscallView::LinkAt {
                old_dir: other_dir,
                old_name: other_name,
                new_dir: dir,
                new_name: name,
            },
            ActionView::Unlink { flags } => SyscallView::UnlinkAt { dir, name, flags },
            ActionView::Rename { flags } => SyscallView::RenameAt2 {
                old_dir: dir,
                old_name: name,
                new_dir: other_dir,
                new_name: other_name,
                flags,
            },
            ActionView::Open { flags, mode } => SyscallView::OpenAt { dir, name, flags, mode },
        }
    }
}

/// The words of the errors of one lookup.
#[derive(Debug, Clone, Copy)]
pub struct Wording {
    /// The context in which an error of the lookup comes.
    pub context: &'static str,
    /// The argument that holds the path.
    pub argument: &'static str,
    /// What is wrong with a path that ends in a separator.
    pub trailing: &'static str,
}

/// The mathematical content of a [`Wording`].
pub struct WordingView {
    pub context: Seq<char>,
    pub argument: Seq<char>,
    pub trailing: Seq<char>,
}

impl View for Wording {
    type V = WordingView;

    open spec fn view(&self) -> WordingView {
        WordingView {
            context: self.context@,
            argument: self.argument@,
            trailing: self.trailing@,
        }
    }
}

/// Where an operation stands.
#[derive(Debug, Clone, Copy, PartialEq, Eq)]
pub enum EntryStage {
    /// The parent of the first path is being looked up.
    First,
    /// The parent of the second path is being looked up.
    Second,
    /// The system call was asked for.
    Calling,
    /// The operation is over.
    Over,
}

/// An operation on a single directory entry.
#[derive(Debug)]
pub struct EntryOp {
    stage: EntryStage,
    action: Action,
    operation: &'static str,
    first: ParentLookup,
    first_words: Wording,
    second: ParentLookup,
    second_words: Wording,
    dir: Option<i32>,
    name: Vec<u8>,
    other_dir: Option<i32>,
    other_name: Vec<u8>,
}

/// The mathematical content of an [`EntryOp`].
pub struct EntryOpView {
    pub stage: EntryStage,
    pub action: ActionView,
    /// What the system call is called in its error.
    pub operation: Seq<char>,
    pub first: ParentLookupView,
    pub first_words: WordingView,
    pub second: ParentLookupView,
    pub second_words: WordingView,
    /// The parent of the first path: a handle that the operation owns.
    pub dir: Option<i32>,
    /// The trailing name of the first path.
    pub name: Seq<u8>,
    /// The parent of the second path: a handle that the operation owns.
    pub other_dir: Option<i32>,
    /// The trailing name of the second path.
    pub other_name: Seq<u8>,
}

impl EntryOpView {
    /// The state of an operation that is over: it holds no handle.
    pub open spec fn settled(self) -> EntryOpView {
        EntryOpView { stage: EntryStage::Over, dir: None, other_dir: None, ..self }
    }

    /// The operation fails: the handles that it holds are released.
    pub open spec fn fail(self, retired: Seq<i32>, error: ErrorView) -> (
        EntryOpView,
        StepView<Option<i32>>,
    ) {
        (
            self.settled(),
            StepView::failed(retired + held(self.dir) + held(self.other_dir), error),
        )
    }

    /// The operation asks for its system call.
    pub open spec fn act(self, retired: Seq<i32>) -> (EntryOpView, StepView<Option<i32>>) {
        match self.dir {
            Some(dir) => match self.other_dir {
                Some(other_dir) => (
                    EntryOpView { stage: EntryStage::Calling, ..self },
                    StepView::call(
                        retired,
                        self.action.call(dir, self.name, other_dir, self.other_name),
                    ),
                ),
                None => if self.action.binary() {
                    self.fail(retired, ErrorView::safety("the operation holds no directory"@))
                } else {
                    (
                        EntryOpView { stage: EntryStage::Calling, ..self },
                        StepView::call(
                            retired,
                            self.action.call(dir, self.name, dir, self.other_name),
                        ),
                    )
                },
            },
            None => self.fail(retired, ErrorView::safety("the operation holds no directory"@)),
        }
    }

    /// What the operation makes of a step of its second lookup. A path that
    /// ends in a separator is refused with `InvalidArgument`.
    pub open spec fn after_second(self, step: StepView<ParentView>) -> (
        EntryOpView,
        StepView<Option<i32>>,
    ) {
        match step.next {
            NextView::Call(call) => (self, StepView::call(step.retired, call)),
            NextView::Done(Err(error)) => self.fail(
                step.retired,
                error.wrap(self.second_words.context),
            ),
            NextView::Done(Ok(parent)) => match parent.name {
                None => self.fail(
                    step.retired + seq![parent.dir],
                    ErrorView::invalid(self.second_words.argument, self.second_words.trailing),
                ),
                Some(name) => EntryOpView {
                    other_dir: Some(parent.dir),
                    other_name: name,
                    ..self
                }.act(step.retired),
            },
        }
    }

    /// What the operation makes of a step of its first lookup. A path that
    /// ends in a separator is refused with `InvalidArgument`. An action on
    /// two entries goes on to the second lookup at once.
    pub open spec fn after_first(self, step: StepView<ParentView>) -> (
        EntryOpView,
        StepView<Option<i32>>,
    ) {
        match step.next {
            NextView::Call(call) => (self, StepView::call(step.retired, call)),
            NextView::Done(Err(error)) => self.fail(
                step.retired,
                error.wrap(self.first_words.context),
            ),
            NextView::Done(Ok(parent)) => match parent.name {
                None => self.fail(
                    step.retired + seq![parent.dir],
                    ErrorView::invalid(self.first_words.argument, self.first_words.trailing),
                ),
                Some(name) => {
                    let found = EntryOpView { dir: Some(parent.dir), name, ..self };
                    if self.action.binary() {
                        let (second, more) = self.second.step(ReplyView::Start);
                        EntryOpView { stage: EntryStage::Second, second, ..found }.after_second(
                            StepView { retired: step.retired + more.retired, ..more },
                        )
                    } else {
                        found.act(step.retired)
                    }
                },
            },
        }
    }

    /// What the operation makes of the outcome of its system call: it ends
    /// with the file descriptor of an open, with nothing for any other
    /// call, or with the error of the call. The parents are released.
    pub open spec fn after_call(self, reply: ReplyView) -> (EntryOpView, StepView<Option<i32>>) {
        let retired = held(self.dir) + held(self.other_dir);
        match reply {
            ReplyView::Fd(fd) => if self.action is Open {
                (self.settled(), StepView::done(retired, Some(fd)))
            } else {
                self.fail(seq![fd], unexpected_reply())
            },
            ReplyView::Done => if self.action is Open {
                self.fail(Seq::empty(), unexpected_reply())
            } else {
                (self.settled(), StepView::done(retired, None))
            },
            ReplyView::Failed(errno) => self.fail(
                Seq::empty(),
                ErrorView::raw_os(self.operation, errno),
            ),
            _ => self.fail(Seq::empty(), unexpected_reply()),
        }
    }

    /// The move that the operation makes on a reply.
    pub open spec fn step(self, reply: ReplyView) -> (EntryOpView, StepView<Option<i32>>) {
        match self.stage {
            EntryStage::Over => (
                self,
                StepView::failed(
                    Seq::empty(),
                    ErrorView::invalid("reply"@, "the operation is over"@),
                ),
            ),
            EntryStage::First => {
                let (first, step) = self.first.step(reply);
                EntryOpView { first, ..self }.after_first(step)
            },
            EntryStage::Second => {
                let (second, step) = self.second.step(reply);
                EntryOpView { second, ..self }.after_second(step)
            },
            EntryStage::Calling => self.after_call(reply),
        }
    }
}

impl View for EntryOp {
    type V = EntryOpView;

    closed spec fn view(&self) -> EntryOpView {
        EntryOpView {
            stage: self.stage,
            action: self.action@,
            operation: self.operation@,
            first: self.first@,
            first_words: self.first_words@,
            second: self.second@,
            second_words: self.second_words@,
            dir: self.dir,
            name: self.name@,
            other_dir: self.other_dir,
            other_name: self.other_name@,
        }
    }
}

impl Action {
    fn is_binary(&self) -> (yes: bool)
        ensures
            yes == self@.binary(),
    {
        match self {
            Action::Link => true,
            Action::Rename { .. } => true,
            _ => false,
        }
    }

    fn is_open(&self) -> (yes: bool)
        ensures
            yes == (self@ is Open),
    {
        match self {
            Action::Open { .. } => true,
            _ => false,
        }
    }

    fn call(&self, dir: i32, name: &[u8], other_dir: i32, other_name: &[u8]) -> (call: Syscall)
        ensures
            call@ == self@.call(dir, name@, other_dir, other_name@),
    {
        match self {
            Action::Mknod { mode, dev } => Syscall::MknodAt {
                dir,
                name: copy_bytes(name),
                mode: *mode,
                dev: *dev,
            },
            Action::Mkdir { mode } => Syscall::MkdirAt { dir, name: copy_bytes(name), mode: *mode },
            Action::Symlink { target } => Syscall::SymlinkAt {
                target: copy_bytes(target.as_slice()),
                dir,
                name: copy_bytes(name),
            },
            Action::Link => Syscall::LinkAt {
                old_dir: other_dir,
                old_name: copy_bytes(other_name),
                new_dir: dir,
                new_name: copy_bytes(name),
            },
            Action::Unlink { flags } => Syscall::UnlinkAt {
                dir,
                name: copy_bytes(name),
                flags: *flags,
            },
            Action::Rename { flags } => Syscall::RenameAt2 {
                old_dir: dir,
                old_name: copy_bytes(name),
                new_dir: other_dir,
                new_name: copy_bytes(other_name),
                flags: *flags,
            },
            Action::Open { flags, mode } => Syscall::OpenAt {
                dir,
                name: copy_bytes(name),
                flags: *flags,
                mode: *mode,
            },
        }
    }
}

impl EntryOp {
    /// Whether the operation is in order.
    pub closed spec fn wf(&self) -> bool {
        self.first.wf() && self.second.wf()
    }

    /// An operation that looks up `first`, and `second` where the action
    /// acts on two entries, and then makes the call of `action`.
    pub fn new(
        action: Action,
        operation: &'static str,
        first: ParentLookup,
        first_words: Wording,
        second: ParentLookup,
        second_words: Wording,
    ) -> (op: EntryOp)
        requires
            first.wf(),
            second.wf(),
        ensures
            op.wf(),
            op@ == (EntryOpView {
                stage: EntryStage::First,
                action: action@,
                operation: operation@,
                first: first@,
                first_words: first_words@,
                second: second@,
                second_words: second_words@,
                dir: None,
                name: Seq::empty(),
                other_dir: None,
                other_name: Seq::empty(),
            }),
    {
        EntryOp {
            stage: EntryStage::First,
            action,
            operation,
            first,
            first_words,
            second,
            second_words,
            dir: None,
            name: Vec::new(),
            other_dir: None,
            other_name: Vec::new(),
        }
    }

    fn fail(&mut self, retired: Vec<i32>, error: Error) -> (step: Step<Option<i32>>)
        requires
            old(self).wf(),
        ensures
            final(self).wf(),
            (final(self)@, step@) == old(self)@.fail(retired@, error@),
    {
        let mut retired = retired;
        release(&mut retired, self.dir);
        release(&mut retired, self.other_dir);
        self.stage = EntryStage::Over;
        self.dir = None;
        self.other_dir = None;
        Step { retired, next: Next::Done(Err(error)) }
    }

    fn act(&mut self, retired: Vec<i32>) -> (step: Step<Option<i32>>)
        requires
            old(self).wf(),
        ensures
            final(self).wf(),
            (final(self)@, step@) == old(self)@.act(retired@),
    {
        match self.dir {
            Some(dir) => {
                let other_dir = match self.other_dir {
                    Some(other_dir) => other_dir,
                    None => {
                        if self.action.is_binary() {
                            return self.fail(
                                retired,
                                Error::safety_violation("the operation holds no directory"),
                            );
                        }
                        dir
                    },
                };
                self.stage = EntryStage::Calling;
                let call = self.action.call(
                    dir,
                    self.name.as_slice(),
                    other_dir,
                    self.other_name.as_slice(),
                );
                Step { retired, next: Next::Call(call) }
            },
            None => self.fail(retired, Error::safety_violation("the operation holds no directory")),
        }
    }

    fn after_second(&mut self, step: Step<Parent>) -> (out: Step<Option<i32>>)
        requires
            old(self).wf(),
        ensures
            final(self).wf(),
            (final(self)@, out@) == old(self)@.after_second(step@),
    {
        let Step { retired, next } = step;
        match next {
            Next::Call(call) => Step { retired, next: Next::Call(call) },
            Next::Done(Err(error)) => {
                let context = self.second_words.context;
                self.fail(retired, error.wrap(context))
            },
            Next::Done(Ok(parent)) => {
                let Parent { dir, name } = parent;
                match name {
                    None => {
                        let ghost before = retired@;
                        let mut retired = retired;
                        retired.push(dir);
                        assert(retired@ =~= before + seq![dir]);
                        let words = self.second_words;
                        self.fail(retired, Error::invalid_argument(words.argument, words.trailing))
                    },
                    Some(name) => {
                        self.other_dir = Some(dir);
                        self.other_name = name;
                        self.act(retired)
                    },
                }
            },
        }
    }

    fn after_first(&mut self, step: Step<Parent>) -> (out: Step<Option<i32>>)
        requires
            old(self).wf(),
        ensures
            final(self).wf(),
            (final(self)@, out@) == old(self)@.after_first(step@),
    {
        let Step { retired, next } = step;
        match next {
            Next::Call(call) => Step { retired, next: Next::Call(call) },
            Next::Done(Err(error)) => {
                let context = self.first_words.context;
                self.fail(retired, error.wrap(context))
            },
            Next::Done(Ok(parent)) => {
                let Parent { dir, name } = parent;
                match name {
                    None => {
                        let ghost before = retired@;
                        let mut retired = retired;
                        retired.push(dir);
                        assert(retired@ =~= before + seq![dir]);
                        let words = self.first_words;
                        self.fail(retired, Error::invalid_argument(words.argument, words.trailing))
                    },
                    Some(name) => {
                        self.dir = Some(dir);
                        self.name = name;
                        if self.action.is_binary() {
                            self.stage = EntryStage::Second;
                            let Step { retired: more, next } = self.second.step(Reply::Start);
                            let mut all = retired;
                            let mut more = more;
                            all.append(&mut more);
                            self.after_second(Step { retired: all, next })
                        } else {
                            self.act(retired)
                        }
                    },
                }
            },
        }
    }

    fn after_call(&mut self, reply: Reply) -> (step: Step<Option<i32>>)
        requires
            old(self).wf(),
        ensures
            final(self).wf(),
            (final(self)@, step@) == old(self)@.after_call(reply@),
    {
        match reply {
            Reply::Fd(fd) => {
                if self.action.is_open() {
                    let mut retired: Vec<i32> = Vec::new();
                    release(&mut retired, self.dir);
                    release(&mut retired, self.other_dir);
                    assert(retired@ =~= held(self.dir) + held(self.other_dir));
                    self.stage = EntryStage::Over;
                    self.dir = None;
                    self.other_dir = None;
                    Step { retired, next: Next::Done(Ok(Some(fd))) }
                } else {
                    let mut retired: Vec<i32> = Vec::new();
                    retired.push(fd);
                    assert(retired@ =~= seq![fd]);
                    self.fail(retired, unexpected())
                }
            },
            Reply::Done => {
                if self.action.is_open() {
                    self.fail(Vec::new(), unexpected())
                } else {
                    let mut retired: Vec<i32> = Vec::new();
                    release(&mut retired, self.dir);
                    release(&mut retired, self.other_dir);
                    assert(retired@ =~= held(self.dir) + held(self.other_dir));
                    self.stage = EntryStage::Over;
                    self.dir = None;
                    self.other_dir = None;
                    Step { retired, next: Next::Done(Ok(None)) }
                }
            },
            Reply::Failed(errno) => {
                let operation = self.operation;
                self.fail(Vec::new(), Error::raw_os_error(operation, errno))
            },
            _ => self.fail(Vec::new(), unexpected()),
        }
    }

    /// Makes the next move of the operation.
    pub fn step(&mut self, reply: Reply) -> (step: Step<Option<i32>>)
        requires
            old(self).wf(),
        ensures
            final(self).wf(),
            (final(self)@, step@) == old(self)@.step(reply@),
    {
        match self.stage {
            EntryStage::Over => Step {
                retired: Vec::new(),
                next: Next::Done(Err(Error::invalid_argument("reply", "the operation is over"))),
            },
            EntryStage::First => {
                let step = self.first.step(reply);
                self.after_first(step)
            },
            EntryStage::Second => {
                let step = self.second.step(reply);
                self.after_second(step)
            },
            EntryStage::Calling => self.after_call(reply),
        }
    }
}

} // verus!
