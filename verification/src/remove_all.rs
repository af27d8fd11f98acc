//! `remove_all`: remove an entry and, if it is a directory, everything
//! below it. Every descent holds a handle of its own; nothing is followed:
//! a symlink in the tree is one more entry to unlink.

use vstd::prelude::*;
use crate::error::{Error, ErrorView};
use crate::lookup::{Parent, ParentLookup, ParentLookupView, ParentView};
use crate::path::{copy_bytes, dot, dotdot, is_dot, is_dotdot, slash_free, SLASH};
use crate::step::{held, release, Next, NextView, Step, StepView};
use crate::sys::{
    at_removedir, eisdir, names_of, o_directory_nofollow, Reply, ReplyView, Syscall, SyscallView,
    AT_REMOVEDIR, EISDIR, O_DIRECTORY_NOFOLLOW,
};
use crate::walk::{unexpected, unexpected_reply};

verus! {

/// Whether a byte string is the name of one entry of a directory: it is
/// not empty, holds no separator, and is neither `.` nor `..`.
pub open spec fn single_name(name: Seq<u8>) -> bool {
    name.len() > 0 && slash_free(name) && name != dot() && name != dotdot()
}

/// Whether every name of a listing is the name of one entry.
pub open spec fn single_names(names: Seq<Seq<u8>>) -> bool {
    forall|i: int| 0 <= i < names.len() ==> single_name(#[trigger] names[i])
}

/// One directory entry that is being removed.
#[derive(Debug)]
pub struct Level {
    /// The directory that holds the entry.
    pub dir: i32,
    /// The name of the entry.
    pub name: Vec<u8>,
    /// The entry itself, opened as a directory.
    pub sub: Option<i32>,
    /// The names in it that are still to be removed.
    pub entries: Vec<Vec<u8>>,
}

/// The mathematical content of a [`Level`].
pub struct LevelView {
    pub dir: i32,
    pub name: Seq<u8>,
    pub sub: Option<i32>,
    pub entries: Seq<Seq<u8>>,
}

impl View for Level {
    type V = LevelView;

    open spec fn view(&self) -> LevelView {
        LevelView {
            dir: self.dir,
            name: self.name@,
            sub: self.sub,
            entries: names_of(self.entries@),
        }
    }
}

/// The views of the levels of a vector.
pub open spec fn levels_of(levels: Seq<Level>) -> Seq<LevelView> {
    Seq::new(levels.len(), |i: int| levels[i]@)
}

/// The directories that the levels have opened, the outermost first.
pub open spec fn opened(levels: Seq<LevelView>) -> Seq<i32>
    decreases levels.len(),
{
    if levels.len() == 0 {
        Seq::empty()
    } else {
        opened(levels.drop_last()) + held(levels.last().sub)
    }
}

/// Where a `remove_all` stands.
#[derive(Debug, Clone, Copy, PartialEq, Eq)]
pub enum RemoveStage {
    /// The parent of the path is being looked up.
    Lookup,
    /// An entry is being unlinked.
    Unlinking,
    /// An entry that is a directory is being opened.
    Opening,
    /// The names in a directory are being read.
    Listing,
    /// A directory that was emptied is being removed.
    Removing,
    /// The operation is over.
    Over,
}

/// A `remove_all`.
#[derive(Debug)]
pub struct RemoveAll {
    stage: RemoveStage,
    lookup: ParentLookup,
    top: Option<i32>,
    levels: Vec<Level>,
}

/// The mathematical content of a [`RemoveAll`].
pub struct RemoveAllView {
    pub stage: RemoveStage,
    pub lookup: ParentLookupView,
    /// The parent of the path: a handle that the operation owns.
    pub top: Option<i32>,
    /// The entries that are being removed, each inside the one before it.
    pub levels: Seq<LevelView>,
}

/// The error for a path that ends in a separator.
pub open spec fn trailing_slash() -> ErrorView {
    ErrorView::invalid("path"@, "file removal path has trailing slash"@)
}

/// The error for a path that ends in `.` or `..`.
pub open spec fn trailing_dots() -> ErrorView {
    ErrorView::invalid("path"@, "file removal path ends in . or .."@)
}

/// The error for a listing that holds more than single names.
pub open spec fn bad_listing() -> ErrorView {
    ErrorView::safety("directory listing holds a name that is no single entry"@)
}

impl RemoveAllView {
    /// The state of an operation that is over: it holds no handle.
    pub open spec fn settled(self) -> RemoveAllView {
        RemoveAllView { stage: RemoveStage::Over, top: None, levels: Seq::empty(), ..self }
    }

    /// The operation fails: the handles that it holds are released.
    pub open spec fn fail(self, retired: Seq<i32>, error: ErrorView) -> (
        RemoveAllView,
        StepView<()>,
    ) {
        (
            self.settled(),
            StepView::failed(retired + opened(self.levels) + held(self.top), error),
        )
    }

    /// The operation asks for the innermost entry to be unlinked.
    pub open spec fn unlink(self, retired: Seq<i32>) -> (RemoveAllView, StepView<()>) {
        if self.levels.len() == 0 {
            self.fail(retired, ErrorView::safety("the operation holds no entry"@))
        } else {
            (
                RemoveAllView { stage: RemoveStage::Unlinking, ..self },
                StepView::call(
                    retired,
                    SyscallView::UnlinkAt {
                        dir: self.levels.last().dir,
                        name: self.levels.last().name,
                        flags: 0,
                    },
                ),
            )
        }
    }

    /// The operation goes on inside the innermost entry, a directory: to
    /// the next name in it, or, where none is left, to the removal of the
    /// directory itself.
    pub open spec fn descend(self, retired: Seq<i32>) -> (RemoveAllView, StepView<()>) {
        if self.levels.len() == 0 {
            self.fail(retired, ErrorView::safety("the operation holds no entry"@))
        } else {
            let level = self.levels.last();
            match level.sub {
                None => self.fail(retired, ErrorView::safety("the operation holds no entry"@)),
                Some(sub) => if level.entries.len() == 0 {
                    (
                        RemoveAllView { stage: RemoveStage::Removing, ..self },
                        StepView::call(
                            retired,
                            SyscallView::UnlinkAt {
                                dir: level.dir,
                                name: level.name,
                                flags: AT_REMOVEDIR,
                            },
                        ),
                    )
                } else {
                    let rest = LevelView { entries: level.entries.skip(1), ..level };
                    let inner = LevelView {
                        dir: sub,
                        name: level.entries[0],
                        sub: None,
                        entries: Seq::empty(),
                    };
                    RemoveAllView {
                        levels: self.levels.drop_last().push(rest).push(inner),
                        ..self
                    }.unlink(retired)
                },
            }
        }
    }

    /// The innermost entry is gone: the operation goes on in the directory
    /// that held it, or ends.
    pub open spec fn ascend(self, retired: Seq<i32>) -> (RemoveAllView, StepView<()>) {
        if self.levels.len() <= 1 {
            (self.settled(), StepView::done(retired + held(self.top), ()))
        } else {
            RemoveAllView { levels: self.levels.drop_last(), ..self }.descend(retired)
        }
    }

    /// What the operation makes of a step of its lookup. A path that ends
    /// in a separator, in `.` or in `..` is refused with `InvalidArgument`.
    pub open spec fn after_lookup(self, step: StepView<ParentView>) -> (
        RemoveAllView,
        StepView<()>,
    ) {
        match step.next {
            NextView::Call(call) => (self, StepView::call(step.retired, call)),
            NextView::Done(Err(error)) => self.fail(
                step.retired,
                error.wrap("resolve remove-all path"@),
            ),
            NextView::Done(Ok(parent)) => match parent.name {
                None => self.fail(step.retired + seq![parent.dir], trailing_slash()),
                Some(name) => if name == dot() || name == dotdot() {
                    self.fail(step.retired + seq![parent.dir], trailing_dots())
                } else {
                    RemoveAllView {
                        top: Some(parent.dir),
                        levels: seq![
                            LevelView { dir: parent.dir, name, sub: None, entries: Seq::empty() },
                        ],
                        ..self
                    }.unlink(step.retired)
                },
            },
        }
    }

    /// An entry was unlinked, or is a directory, or could not be unlinked.
    pub open spec fn on_unlinked(self, reply: ReplyView) -> (RemoveAllView, StepView<()>) {
        match reply {
            ReplyView::Done => self.ascend(Seq::empty()),
            ReplyView::Failed(errno) => if errno == EISDIR && self.levels.len() > 0 {
                (
                    RemoveAllView { stage: RemoveStage::Opening, ..self },
                    StepView::call(
                        Seq::empty(),
                        SyscallView::OpenAt {
                            dir: self.levels.last().dir,
                            name: self.levels.last().name,
                            flags: O_DIRECTORY_NOFOLLOW,
                            mode: 0,
                        },
                    ),
                )
            } else {
                self.fail(Seq::empty(), ErrorView::raw_os("remove entry in remove_all"@, errno))
            },
            _ => self.fail(Seq::empty(), unexpected_reply()),
        }
    }

    /// A directory was opened, or could not be.
    pub open spec fn on_opened(self, reply: ReplyView) -> (RemoveAllView, StepView<()>) {
        match reply {
            ReplyView::Fd(fd) => if self.levels.len() == 0 {
                self.fail(seq![fd], ErrorView::safety("the operation holds no entry"@))
            } else {
                let level = LevelView { sub: Some(fd), ..self.levels.last() };
                (
                    RemoveAllView {
                        stage: RemoveStage::Listing,
                        levels: self.levels.drop_last().push(level),
                        ..self
                    },
                    StepView::call(Seq::empty(), SyscallView::ReadDir { fd }),
                )
            },
            ReplyView::Failed(errno) => self.fail(
                Seq::empty(),
                ErrorView::raw_os("open directory in remove_all"@, errno),
            ),
            _ => self.fail(Seq::empty(), unexpected_reply()),
        }
    }

    /// The names in a directory were read, or could not be. A listing that
    /// holds anything but single names is a safety violation.
    pub open spec fn on_listed(self, reply: ReplyView) -> (RemoveAllView, StepView<()>) {
        match reply {
            ReplyView::Names(names) => if self.levels.len() == 0 {
                self.fail(Seq::empty(), ErrorView::safety("the operation holds no entry"@))
            } else if !single_names(names) {
                self.fail(Seq::empty(), bad_listing())
            } else {
                let level = LevelView { entries: names, ..self.levels.last() };
                RemoveAllView { levels: self.levels.drop_last().push(level), ..self }.descend(
                    Seq::empty(),
                )
            },
            ReplyView::Failed(errno) => self.fail(
                Seq::empty(),
                ErrorView::raw_os("read directory in remove_all"@, errno),
            ),
            _ => self.fail(Seq::empty(), unexpected_reply()),
        }
    }

    /// A directory was removed, or could not be: its handle is released.
    pub open spec fn on_removed(self, reply: ReplyView) -> (RemoveAllView, StepView<()>) {
        match reply {
            ReplyView::Done => if self.levels.len() == 0 {
                self.fail(Seq::empty(), ErrorView::safety("the operation holds no entry"@))
            } else {
                self.ascend(held(self.levels.last().sub))
            },
            ReplyView::Failed(errno) => self.fail(
                Seq::empty(),
                ErrorView::raw_os("remove directory in remove_all"@, errno),
            ),
            _ => self.fail(Seq::empty(), unexpected_reply()),
        }
    }

    /// The move that the operation makes on a reply.
    pub open spec fn step(self, reply: ReplyView) -> (RemoveAllView, StepView<()>) {
        match self.stage {
            RemoveStage::Over => (
                self,
                StepView::failed(
                    Seq::empty(),
                    ErrorView::invalid("reply"@, "the operation is over"@),
                ),
            ),
            RemoveStage::Lookup => {
                let (lookup, step) = self.lookup.step(reply);
                RemoveAllView { lookup, ..self }.after_lookup(step)
            },
            RemoveStage::Unlinking => self.on_unlinked(reply),
            RemoveStage::Opening => self.on_opened(reply),
            RemoveStage::Listing => self.on_listed(reply),
            RemoveStage::Removing => self.on_removed(reply),
        }
    }
}

impl View for RemoveAll {
    type V = RemoveAllView;

    closed spec fn view(&self) -> RemoveAllView {
        RemoveAllView {
            stage: self.stage,
            lookup: self.lookup@,
            top: self.top,
            levels: levels_of(self.levels@),
        }
    }
}

/// Whether a byte string is the name of one entry of a directory.
fn is_single_name(name: &[u8]) -> (yes: bool)
    ensures
        yes == single_name(name@),
{
    if name.len() == 0 || is_dot(name) || is_dotdot(name) {
        return false;
    }
    let mut i: usize = 0;
    while i < name.len()
        invariant
            i <= name.len(),
            forall|j: int| 0 <= j < i ==> name@[j] != SLASH,
        decreases name.len() - i,
    {
        if name[i] == SLASH {
            return false;
        }
        i += 1;
    }
    true
}

/// Whether every name of a listing is the name of one entry.
fn are_single_names(names: &Vec<Vec<u8>>) -> (yes: bool)
    ensures
        yes == single_names(names_of(names@)),
{
    let mut i: usize = 0;
    while i < names.len()
        invariant
            i <= names.len(),
            forall|j: int| 0 <= j < i ==> single_name(#[trigger] names_of(names@)[j]),
        decreases names.len() - i,
    {
        if !is_single_name(names[i].as_slice()) {
            assert(!single_name(names_of(names@)[i as int]));
            return false;
        }
        i += 1;
    }
    true
}

impl RemoveAll {
    /// Whether the operation is in order.
    pub closed spec fn wf(&self) -> bool {
        self.lookup.wf()
    }

    /// A `remove_all` of the entry that `lookup` looks up.
    pub fn new(lookup: ParentLookup) -> (op: RemoveAll)
        requires
            lookup.wf(),
        ensures
            op.wf(),
            op@ == (RemoveAllView {
                stage: RemoveStage::Lookup,
                lookup: lookup@,
                top: None,
                levels: Seq::empty(),
            }),
    {
        let op = RemoveAll { stage: RemoveStage::Lookup, lookup, top: None, levels: Vec::new() };
        assert(levels_of(op.levels@) =~= Seq::empty());
        op
    }

    fn fail(&mut self, retired: Vec<i32>, error: Error) -> (step: Step<()>)
        requires
            old(self).wf(),
        ensures
            final(self).wf(),
            (final(self)@, step@) == old(self)@.fail(retired@, error@),
    {
        let mut retired = retired;
        let ghost start = retired@;
        let ghost levels = levels_of(self.levels@);
        let mut i: usize = 0;
        assert(levels.take(0) =~= Seq::empty());
        while i < self.levels.len()
            invariant
                i <= self.levels.len(),
                levels == levels_of(self.levels@),
                retired@ == start + opened(levels.take(i as int)),
            decreases self.levels.len() - i,
        {
            let sub = self.levels[i].sub;
            proof {
                assert(levels.take(i + 1).drop_last() =~= levels.take(i as int));
                assert(levels.take(i + 1).last().sub == sub);
            }
            let ghost so_far = retired@;
            release(&mut retired, sub);
            assert(retired@ =~= start + opened(levels.take(i + 1)));
            i += 1;
        }
        assert(levels.take(i as int) =~= levels);
        release(&mut retired, self.top);
        self.stage = RemoveStage::Over;
        self.top = None;
        self.levels = Vec::new();
        assert(levels_of(self.levels@) =~= Seq::empty());
        Step { retired, next: Next::Done(Err(error)) }
    }

    fn unlink(&mut self, retired: Vec<i32>) -> (step: Step<()>)
        requires
            old(self).wf(),
        ensures
            final(self).wf(),
            (final(self)@, step@) == old(self)@.unlink(retired@),
    {
        let depth = self.levels.len();
        if depth == 0 {
            self.fail(retired, Error::safety_violation("the operation holds no entry"))
        } else {
            self.stage = RemoveStage::Unlinking;
            let level = &self.levels[depth - 1];
            assert(levels_of(self.levels@).last() == level@);
            Step {
                retired,
                next: Next::Call(
                    Syscall::UnlinkAt {
                        dir: level.dir,
                        name: copy_bytes(level.name.as_slice()),
                        flags: 0,
                    },
                ),
            }
        }
    }

    fn descend(&mut self, retired: Vec<i32>) -> (step: Step<()>)
        requires
            old(self).wf(),
        ensures
            final(self).wf(),
            (final(self)@, step@) == old(self)@.descend(retired@),
    {
        let ghost before = self@;
        match self.levels.pop() {
            None => {
                assert(levels_of(self.levels@) =~= before.levels);
                self.fail(retired, Error::safety_violation("the operation holds no entry"))
            },
            Some(level) => {
                assert(level@ == before.levels.last());
                assert(levels_of(self.levels@) =~= before.levels.drop_last());
                let Level { dir, name, sub, entries } = level;
                match sub {
                    None => {
                        self.levels.push(Level { dir, name, sub, entries });
                        assert(levels_of(self.levels@) =~= before.levels);
                        self.fail(retired, Error::safety_violation("the operation holds no entry"))
                    },
                    Some(handle) => {
                        if entries.len() == 0 {
                            let asked = copy_bytes(name.as_slice());
                            self.levels.push(Level { dir, name, sub, entries });
                            assert(levels_of(self.levels@) =~= before.levels);
                            self.stage = RemoveStage::Removing;
                            Step {
                                retired,
                                next: Next::Call(
                                    Syscall::UnlinkAt {
                                        dir,
                                        name: asked,
                                        flags: at_removedir(),
                                    },
                                ),
                            }
                        } else {
                            let mut entries = entries;
                            let ghost listed = names_of(entries@);
                            let first = entries.remove(0);
                            assert(names_of(entries@) =~= listed.skip(1));
                            let rest = Level { dir, name, sub, entries };
                            let inner = Level {
                                dir: handle,
                                name: first,
                                sub: None,
                                entries: Vec::new(),
                            };
                            assert(names_of(inner.entries@) =~= Seq::empty());
                            let ghost below = levels_of(self.levels@);
                            self.levels.push(rest);
                            self.levels.push(inner);
                            assert(levels_of(self.levels@) =~= below.push(rest@).push(inner@));
                            self.unlink(retired)
                        }
                    },
                }
            },
        }
    }

    fn ascend(&mut self, retired: Vec<i32>) -> (step: Step<()>)
        requires
            old(self).wf(),
        ensures
            final(self).wf(),
            (final(self)@, step@) == old(self)@.ascend(retired@),
    {
        if self.levels.len() <= 1 {
            let mut retired = retired;
            release(&mut retired, self.top);
            self.stage = RemoveStage::Over;
            self.top = None;
            self.levels = Vec::new();
            assert(levels_of(self.levels@) =~= Seq::empty());
            Step { retired, next: Next::Done(Ok(())) }
        } else {
            let ghost before = self@;
            let _ = self.levels.pop();
            assert(levels_of(self.levels@) =~= before.levels.drop_last());
            self.descend(retired)
        }
    }

    fn after_lookup(&mut self, step: Step<Parent>) -> (out: Step<()>)
        requires
            old(self).wf(),
        ensures
            final(self).wf(),
            (final(self)@, out@) == old(self)@.after_lookup(step@),
    {
        let Step { retired, next } = step;
        match next {
            Next::Call(call) => Step { retired, next: Next::Call(call) },
            Next::Done(Err(error)) => self.fail(retired, error.wrap("resolve remove-all path")),
            Next::Done(Ok(parent)) => {
                let Parent { dir, name } = parent;
                match name {
                    None => {
                        let ghost before = retired@;
                        let mut retired = retired;
                        retired.push(dir);
                        assert(retired@ =~= before + seq![dir]);
                        self.fail(
                            retired,
                            Error::invalid_argument("path", "file removal path has trailing slash"),
                        )
                    },
                    Some(name) => {
                        if is_dot(name.as_slice()) || is_dotdot(name.as_slice()) {
                            let ghost before = retired@;
                            let mut retired = retired;
                            retired.push(dir);
                            assert(retired@ =~= before + seq![dir]);
                            self.fail(
                                retired,
                                Error::invalid_argument(
                                    "path",
                                    "file removal path ends in . or ..",
                                ),
                            )
                        } else {
                            self.top = Some(dir);
                            let level = Level { dir, name, sub: None, entries: Vec::new() };
                            assert(names_of(level.entries@) =~= Seq::empty());
                            let mut levels: Vec<Level> = Vec::new();
                            levels.push(level);
                            self.levels = levels;
                            assert(levels_of(self.levels@) =~= seq![level@]);
                            self.unlink(retired)
                        }
                    },
                }
            },
        }
    }

    fn on_unlinked(&mut self, reply: Reply) -> (step: Step<()>)
        requires
            old(self).wf(),
        ensures
            final(self).wf(),
            (final(self)@, step@) == old(self)@.on_unlinked(reply@),
    {
        match reply {
            Reply::Done => self.ascend(Vec::new()),
            Reply::Failed(errno) => {
                let depth = self.levels.len();
                if errno == eisdir() && depth > 0 {
                    self.stage = RemoveStage::Opening;
                    let level = &self.levels[depth - 1];
                    assert(levels_of(self.levels@).last() == level@);
                    Step {
                        retired: Vec::new(),
                        next: Next::Call(
                            Syscall::OpenAt {
                                dir: level.dir,
                                name: copy_bytes(level.name.as_slice()),
                                flags: o_directory_nofollow(),
                                mode: 0,
                            },
                        ),
                    }
                } else {
                    self.fail(Vec::new(), Error::raw_os_error("remove entry in remove_all", errno))
                }
            },
            _ => self.fail(Vec::new(), unexpected()),
        }
    }

    fn on_opened(&mut self, reply: Reply) -> (step: Step<()>)
        requires
            old(self).wf(),
        ensures
            final(self).wf(),
            (final(self)@, step@) == old(self)@.on_opened(reply@),
    {
        match reply {
            Reply::Fd(fd) => {
                let ghost before = self@;
                match self.levels.pop() {
                    None => {
                        assert(levels_of(self.levels@) =~= before.levels);
                        let mut retired: Vec<i32> = Vec::new();
                        retired.push(fd);
                        assert(retired@ =~= seq![fd]);
                        self.fail(retired, Error::safety_violation("the operation holds no entry"))
                    },
                    Some(level) => {
                        assert(level@ == before.levels.last());
                        assert(levels_of(self.levels@) =~= before.levels.drop_last());
                        let Level { dir, name, sub: _, entries } = level;
                        let opened = Level { dir, name, sub: Some(fd), entries };
                        let ghost below = levels_of(self.levels@);
                        self.levels.push(opened);
                        assert(levels_of(self.levels@) =~= below.push(opened@));
                        self.stage = RemoveStage::Listing;
                        Step { retired: Vec::new(), next: Next::Call(Syscall::ReadDir { fd }) }
                    },
                }
            },
            Reply::Failed(errno) => self.fail(
                Vec::new(),
                Error::raw_os_error("open directory in remove_all", errno),
            ),
            _ => self.fail(Vec::new(), unexpected()),
        }
    }

    fn on_listed(&mut self, reply: Reply) -> (step: Step<()>)
        requires
            old(self).wf(),
        ensures
            final(self).wf(),
            (final(self)@, step@) == old(self)@.on_listed(reply@),
    {
        match reply {
            Reply::Names(names) => {
                let ghost before = self@;
                if self.levels.len() == 0 {
                    return self.fail(
                        Vec::new(),
                        Error::safety_violation("the operation holds no entry"),
                    );
                }
                if !are_single_names(&names) {
                    return self.fail(
                        Vec::new(),
                        Error::safety_violation(
                            "directory listing holds a name that is no single entry",
                        ),
                    );
                }
                let level = self.levels.pop().unwrap();
                assert(level@ == before.levels.last());
                assert(levels_of(self.levels@) =~= before.levels.drop_last());
                let Level { dir, name, sub, entries: _ } = level;
                let listed = Level { dir, name, sub, entries: names };
                let ghost below = levels_of(self.levels@);
                self.levels.push(listed);
                assert(levels_of(self.levels@) =~= below.push(listed@));
                self.descend(Vec::new())
            },
            Reply::Failed(errno) => self.fail(
                Vec::new(),
                Error::raw_os_error("read directory in remove_all", errno),
            ),
            _ => self.fail(Vec::new(), unexpected()),
        }
    }

    fn on_removed(&mut self, reply: Reply) -> (step: Step<()>)
        requires
            old(self).wf(),
        ensures
            final(self).wf(),
            (final(self)@, step@) == old(self)@.on_removed(reply@),
    {
        match reply {
            Reply::Done => {
                let depth = self.levels.len();
                if depth == 0 {
                    self.fail(Vec::new(), Error::safety_violation("the operation holds no entry"))
                } else {
                    let mut retired: Vec<i32> = Vec::new();
                    let sub = self.levels[depth - 1].sub;
                    assert(levels_of(self.levels@).last().sub == sub);
                    release(&mut retired, sub);
                    assert(retired@ =~= held(sub));
                    self.ascend(retired)
                }
            },
            Reply::Failed(errno) => self.fail(
                Vec::new(),
                Error::raw_os_error("remove directory in remove_all", errno),
            ),
            _ => self.fail(Vec::new(), unexpected()),
        }
    }

    /// Makes the next move of the operation.
    pub fn step(&mut self, reply: Reply) -> (step: Step<()>)
        requires
            old(self).wf(),
        ensures
            final(self).wf(),
            (final(self)@, step@) == old(self)@.step(reply@),
    {
        match self.stage {
            RemoveStage::Over => Step {
                retired: Vec::new(),
                next: Next::Done(Err(Error::invalid_argument("reply", "the operation is over"))),
            },
            RemoveStage::Lookup => {
                let step = self.lookup.step(reply);
                self.after_lookup(step)
            },
            RemoveStage::Unlinking => self.on_unlinked(reply),
            RemoveStage::Opening => self.on_opened(reply),
            RemoveStage::Listing => self.on_listed(reply),
            RemoveStage::Removing => self.on_removed(reply),
        }
    }
}

} // verus!
