//! What the operations achieve on a tree that nobody else changes: what
//! was removed is gone for the resolver, what was created is there, and
//! what was renamed has moved.

use vstd::prelude::*;
use crate::contained::{
    answers, contains, pending, resolution_answers, resolution_inv, resolution_machine,
    resolution_starts_in_order, resolution_step_is_kept, step_keeps_setup, walk_inv, walk_machine,
    walk_step_is_kept,
};
use crate::entry::{ActionView, EntryOpView, EntryStage};
use crate::error::{ErrorKind, ErrorView};
use crate::kernel::KernelStage;
use crate::model::{child_path, run, run_is_monotonic, Tree, ENOSYS};
use crate::path::{
    dot, dotdot, last_slash, last_slash_divides, parent_and_name, slash, slash_free, split, within,
};
use crate::prefix::{arrived, longer, step_follows};
use crate::lookup::ParentLookupView;
use crate::remove_all::{single_name, LevelView, RemoveAllView, RemoveStage};
use crate::resolver::{ResolutionView, Resolver, ResolverBackend, Stage};
use crate::root::{
    creation_words, entry_op, hardlink_words, removal_words, rename_destination_words,
    rename_source_words, InodeTypeView,
};
use crate::step::{NextView, StepView};
use crate::sys::{kind_of_mode, FileKind, InodeId, ReplyView, SyscallView, ENOENT, O_PATH_NOFOLLOW};
use crate::walk::{PartialView, Phase, WalkView};

verus! {

/// The operation on a single entry as an operation to run.
pub open spec fn entry_machine() -> spec_fn(EntryOpView, ReplyView) -> (
    EntryOpView,
    StepView<Option<i32>>,
) {
    |e: EntryOpView, reply: ReplyView| e.step(reply)
}

/// What a resolution makes of what its walk ends with.
pub open spec fn lifted(outcome: Option<(Tree, Result<PartialView, ErrorView>)>) -> Option<
    (Tree, Result<i32, ErrorView>),
> {
    match outcome {
        None => None,
        Some((tree, Ok(reached))) => Some((tree, Ok(reached.handle))),
        Some((tree, Err(error))) => Some((tree, Err(error.at_boundary()))),
    }
}

/// A resolution that emulates ends as its walk ends.
pub proof fn emulation_runs_as_walk(tree: Tree, r: ResolutionView, reply: ReplyView, fuel: nat)
    requires
        r.stage == Stage::Emulated,
    ensures
        run(resolution_machine(), tree, r, reply, fuel) == lifted(
            run(walk_machine(), tree, r.walk, reply, fuel),
        ),
    decreases fuel,
{
    if fuel > 0 {
        let (walk, step) = r.walk.step(reply);
        let (next, out) = r.step(reply);
        match step.next {
            NextView::Call(call) => {
                let (changed, answer) = tree.perform(call);
                emulation_runs_as_walk(changed, next, answer, (fuel - 1) as nat);
            },
            _ => {},
        }
    }
}

/// How many moves a resolution makes before its walk sets out.
pub open spec fn lead(backend: ResolverBackend) -> nat {
    if backend == ResolverBackend::Auto {
        1
    } else {
        0
    }
}

/// A resolution that does not insist on the kernel ends as the walk of
/// its path ends, after the moves of its probe; one that insists on the
/// kernel ends with the error of the kernel, which has no `openat2`.
pub proof fn resolution_runs_as_walk(
    tree: Tree,
    resolver: Resolver,
    root: i32,
    path: Seq<u8>,
    nofollow: bool,
    fuel: nat,
)
    ensures
        resolver.backend != ResolverBackend::KernelNative ==> run(
            resolution_machine(),
            tree,
            ResolutionView::start(resolver, root, path, nofollow),
            ReplyView::Start,
            fuel + lead(resolver.backend),
        ) == lifted(
            run(
                walk_machine(),
                tree,
                WalkView::start(root, path, resolver.flags, nofollow, false),
                ReplyView::Start,
                fuel,
            ),
        ),
        resolver.backend == ResolverBackend::KernelNative ==> !(run(
            resolution_machine(),
            tree,
            ResolutionView::start(resolver, root, path, nofollow),
            ReplyView::Start,
            fuel,
        ) matches Some((_, Ok(_)))),
{
    let r = ResolutionView::start(resolver, root, path, nofollow);
    let w = WalkView::start(root, path, resolver.flags, nofollow, false);
    if resolver.backend == ResolverBackend::Emulated {
        if fuel > 0 {
            emulated_start_runs_as_walk(tree, r, Seq::empty(), fuel);
            assert(r.step(ReplyView::Start) == r.emulate(Seq::empty()));
        }
    } else if resolver.backend == ResolverBackend::Auto {
        let (probing, first) = r.step(ReplyView::Start);
        assert(first.next == NextView::<i32>::Call(crate::kernel::KernelResolveView::probe_call()));
        assert(tree.perform(crate::kernel::KernelResolveView::probe_call()) == (
            tree,
            ReplyView::Failed(ENOSYS),
        ));
        if fuel > 0 {
            let (kernel, step) = probing.kernel.step(ReplyView::Failed(ENOSYS));
            let next = ResolutionView { kernel, ..probing };
            assert(probing.step(ReplyView::Failed(ENOSYS)) == next.emulate(step.retired));
            assert(step.retired =~= Seq::<i32>::empty());
            emulated_start_runs_as_walk(tree, next, Seq::empty(), fuel);
            assert(run(
                resolution_machine(),
                tree,
                r,
                ReplyView::Start,
                fuel + 1,
            ) == run(resolution_machine(), tree, probing, ReplyView::Failed(ENOSYS), fuel));
        } else {
            assert(run(resolution_machine(), tree, probing, ReplyView::Failed(ENOSYS), 0) is None);
        }
    } else if resolver.backend == ResolverBackend::KernelNative {
        if fuel > 0 {
            let (opening, first) = r.step(ReplyView::Start);
            assert(first.next == NextView::<i32>::Call(r.kernel.open_call()));
            assert(tree.perform(r.kernel.open_call()) == (tree, ReplyView::Failed(ENOSYS)));
            assert(run(resolution_machine(), tree, r, ReplyView::Start, fuel) == run(
                resolution_machine(),
                tree,
                opening,
                ReplyView::Failed(ENOSYS),
                (fuel - 1) as nat,
            ));
            if fuel > 1 {
                let (over, last) = opening.step(ReplyView::Failed(ENOSYS));
                assert(opening.stage == Stage::Kernel);
                assert(opening.kernel.stage == KernelStage::Opening);
                assert(last.next is Done && last.next->Done_0 is Err);
                assert(run(
                    resolution_machine(),
                    tree,
                    opening,
                    ReplyView::Failed(ENOSYS),
                    (fuel - 1) as nat,
                ) == Some((tree, last.next->Done_0)));
            }
        }
    }
}

proof fn emulated_start_runs_as_walk(tree: Tree, r: ResolutionView, retired: Seq<i32>, fuel: nat)
    requires
        fuel > 0,
    ensures
        ({
            let (next, out) = r.emulate(retired);
            match out.next {
                NextView::Done(result) => Some((tree, result)),
                NextView::Call(call) => run(
                    resolution_machine(),
                    tree.perform(call).0,
                    next,
                    tree.perform(call).1,
                    (fuel - 1) as nat,
                ),
            }
        }) == lifted(run(walk_machine(), tree, r.walk, ReplyView::Start, fuel)),
{
    let (walk, step) = r.walk.step(ReplyView::Start);
    let (next, out) = r.emulate(retired);
    match step.next {
        NextView::Call(call) => {
            let (changed, answer) = tree.perform(call);
            emulation_runs_as_walk(changed, next, answer, (fuel - 1) as nat);
        },
        _ => {},
    }
}

/// An error that is no failure of the symlink stack leaves the resolver
/// with its kind.
pub proof fn boundary_keeps_kind(error: ErrorView)
    requires
        error.kind() != ErrorKind::BadSymlinkStack,
    ensures
        error.at_boundary().kind() == error.kind(),
{
}

/// A walk whose path begins with a component that leads nowhere ends as
/// the walk of the path without that component ends.
pub proof fn leading_noop_is_skipped(tree: Tree, w: WalkView, noop: Seq<u8>, fuel: nat)
    requires
        w.phase == Phase::Start,
        w.symlinks.frames.len() == 0,
        !w.empty,
        noop.len() == 0 || noop == dot(),
    ensures
        run(
            walk_machine(),
            tree,
            WalkView { remaining: seq![noop] + w.remaining, ..w },
            ReplyView::Start,
            fuel,
        ) == run(walk_machine(), tree, w, ReplyView::Start, fuel),
{
    reveal(WalkView::step);
    let v = WalkView { remaining: seq![noop] + w.remaining, ..w };
    if fuel > 0 {
        let (w1, s1) = w.step(ReplyView::Start);
        let (v1, t1) = v.step(ReplyView::Start);
        assert(v1 == WalkView { remaining: seq![noop] + w.remaining, ..w1 });
        assert(t1 == s1);
        let call = SyscallView::Fstat { fd: w.root };
        assert(s1.next == NextView::<PartialView>::Call(call));
        let (tree1, reply1) = tree.perform(call);
        assert(run(walk_machine(), tree, w, ReplyView::Start, fuel) == run(
            walk_machine(),
            tree1,
            w1,
            reply1,
            (fuel - 1) as nat,
        ));
        assert(run(walk_machine(), tree, v, ReplyView::Start, fuel) == run(
            walk_machine(),
            tree1,
            v1,
            reply1,
            (fuel - 1) as nat,
        ));
        if fuel > 1 {
            let (w2, s2) = w1.step(reply1);
            let (v2, t2) = v1.step(reply1);
            assert(t2 == s2);
            match s2.next {
                NextView::Call(call2) => {
                    assert(v2 == WalkView { remaining: seq![noop] + w.remaining, ..w2 });
                    let (tree2, reply2) = tree1.perform(call2);
                    assert(run(walk_machine(), tree1, w1, reply1, (fuel - 1) as nat) == run(
                        walk_machine(),
                        tree2,
                        w2,
                        reply2,
                        (fuel - 2) as nat,
                    ));
                    assert(run(walk_machine(), tree1, v1, reply1, (fuel - 1) as nat) == run(
                        walk_machine(),
                        tree2,
                        v2,
                        reply2,
                        (fuel - 2) as nat,
                    ));
                    assert(w2.phase == Phase::RootDup);
                    if fuel > 2 {
                        match reply2 {
                            ReplyView::Fd(fd) => {
                                let from = WalkView {
                                    current: Some(fd),
                                    current_id: w2.root_id,
                                    contained: crate::walk::Contained::Duplicate,
                                    root_path: Seq::empty(),
                                    current_path: Seq::empty(),
                                    ..w2
                                };
                                let vfrom = WalkView {
                                    remaining: seq![noop] + w.remaining,
                                    ..from
                                };
                                assert(vfrom.remaining[0] == noop);
                                assert(vfrom.remaining.skip(1) =~= w.remaining);
                                assert(from.symlinks.retired() == from.symlinks);
                                assert(crate::symlink_stack::take_one(from.symlinks.frames)
                                    =~= from.symlinks.frames);
                                assert(vfrom.symlinks.consume(
                                    crate::symlink_stack::ComponentKind::NoOp,
                                ) == Ok::<
                                    crate::symlink_stack::StackView,
                                    crate::error::SymlinkStackError,
                                >(from.symlinks));
                                assert(WalkView {
                                    remaining: vfrom.remaining.skip(1),
                                    symlinks: from.symlinks,
                                    ..vfrom
                                } == from);
                                assert(vfrom.advance(Seq::empty()) == from.advance(Seq::empty()));
                            },
                            _ => {},
                        }
                        assert(v2.step(reply2) == w2.step(reply2));
                    }
                },
                _ => {},
            }
        }
    }
}

/// The walk of a path is the walk of its parent with the trailing name as
/// one more component, but for a component that leads nowhere at the
/// start.
pub proof fn walk_of_path_is_longer_walk(
    tree: Tree,
    root: i32,
    path: Seq<u8>,
    flags: crate::flags::ResolverFlags,
    nofollow: bool,
    fuel: nat,
)
    requires
        path.len() > 0,
        parent_and_name(path).1 is Some,
    ensures
        run(
            walk_machine(),
            tree,
            WalkView::start(root, path, flags, nofollow, false),
            ReplyView::Start,
            fuel,
        ) == run(
            walk_machine(),
            tree,
            longer(
                WalkView::start(root, parent_and_name(path).0, flags, false, false),
                parent_and_name(path).1->0,
                nofollow,
                false,
            ),
            ReplyView::Start,
            fuel,
        ),
        slash_free(parent_and_name(path).1->0),
        parent_and_name(path).1->0.len() > 0,
        parent_and_name(path).0.len() > 0,
{
    let parent = parent_and_name(path).0;
    let name = parent_and_name(path).1->0;
    let w = WalkView::start(root, path, flags, nofollow, false);
    let l = longer(WalkView::start(root, parent, flags, false, false), name, nofollow, false);
    last_slash_divides(path);
    match last_slash(path) {
        None => {
            crate::path::split_of_name(name);
            crate::path::split_of_name(dot());
            assert(l.remaining =~= seq![dot()] + w.remaining);
            assert(l == WalkView { remaining: seq![dot()] + w.remaining, ..w });
            leading_noop_is_skipped(tree, w, dot(), fuel);
        },
        Some(cut) => {
            if cut == 0 {
                assert(path =~= Seq::<u8>::empty() + slash() + name);
                crate::path::split_of_parent_and_name(Seq::empty(), name);
                crate::path::split_of_parent_and_name(Seq::empty(), Seq::empty());
                assert(slash() =~= Seq::<u8>::empty() + slash() + Seq::<u8>::empty());
                assert(split(Seq::<u8>::empty()) =~= seq![Seq::<u8>::empty()]);
                assert(l.remaining =~= seq![Seq::<u8>::empty()] + w.remaining);
                assert(l == WalkView { remaining: seq![Seq::<u8>::empty()] + w.remaining, ..w });
                leading_noop_is_skipped(tree, w, Seq::empty(), fuel);
            } else {
                crate::path::split_of_parent_and_name(path.take(cut), name);
                assert(l == w);
            }
        },
    }
}

/// What a successful operation on one entry has done: it has resolved the
/// parent of its path to a directory, and has made its call on the
/// trailing name there.
pub proof fn entry_run_splits(tree: Tree, e: EntryOpView, reply: ReplyView, fuel: nat) -> (found:
    (i32, nat))
    requires
        e.stage == EntryStage::First,
        !e.action.binary(),
        !e.first.invalid,
        !e.first.over,
        e.dir is None,
        e.other_dir is None,
        resolution_inv(tree, e.first.resolution),
        resolution_answers(tree, e.first.resolution, reply),
        run(entry_machine(), tree, e, reply, fuel) matches Some((_, Ok(_))),
    ensures
        e.first.name is Some,
        run(resolution_machine(), tree, e.first.resolution, reply, found.1) == Some(
            (tree, Ok::<i32, ErrorView>(found.0)),
        ),
        ({
            let call = e.action.call(found.0, e.first.name->0, found.0, e.other_name);
            &&& run(entry_machine(), tree, e, reply, fuel) matches Some((after, _)) && after
                == tree.perform(call).0
            &&& (tree.perform(call).1 is Done || tree.perform(call).1 is Fd)
        }),
    decreases fuel,
{
    let r = e.first.resolution;
    let (r2, s) = r.step(reply);
    let (l2, ls) = e.first.step(reply);
    resolution_step_is_kept(tree, r, reply);
    match s.next {
        NextView::Call(call) => {
            let next = EntryOpView { first: l2, ..e };
            assert(e.step(reply) == (next, StepView::<Option<i32>>::call(s.retired, call)));
            assert(tree.perform(call) == (tree, tree.answer(call)));
            let inner = entry_run_splits(tree, next, tree.answer(call), (fuel - 1) as nat);
            (inner.0, inner.1 + 1)
        },
        NextView::Done(Ok(dir)) => {
            let name = e.first.name->0;
            let call = e.action.call(dir, name, dir, e.other_name);
            let (after, answer) = tree.perform(call);
            let found = EntryOpView { first: l2, dir: Some(dir), name, ..e };
            let calling = EntryOpView { stage: EntryStage::Calling, ..found };
            if e.first.name is Some {
                assert(e.step(reply) == (calling, StepView::<Option<i32>>::call(s.retired, call)));
                assert(run(entry_machine(), tree, e, reply, fuel) == run(
                    entry_machine(),
                    after,
                    calling,
                    answer,
                    (fuel - 1) as nat,
                ));
            }
            (dir, 1)
        },
        NextView::Done(Err(_)) => { (0, 0) },
    }
}

/// The call that opens the entry `name` of `dir` as the walk does.
pub open spec fn open_entry(dir: i32, name: Seq<u8>) -> SyscallView {
    SyscallView::OpenAt { dir, name, flags: O_PATH_NOFOLLOW, mode: 0 }
}

/// Whether a call is one of those that a walk makes, on inodes of the
/// tree.
pub open spec fn names_inodes(tree: Tree, call: SyscallView) -> bool {
    match call {
        SyscallView::Dup { fd } => tree.has(fd),
        SyscallView::OpenAt { dir, flags, mode, .. } => tree.has(dir) && flags == O_PATH_NOFOLLOW
            && mode == 0,
        SyscallView::Fstat { fd } => tree.has(fd),
        SyscallView::ReadLink { fd } => tree.has(fd),
        SyscallView::FdPath { fd } => tree.has(fd),
        _ => false,
    }
}

/// Whether a changed tree answers the calls of a walk on the inodes of the
/// tree as the tree does, but for the calls in `avoid`.
#[verifier::opaque]
pub open spec fn agrees(tree: Tree, after: Tree, avoid: Set<SyscallView>) -> bool {
    forall|call: SyscallView|
        names_inodes(tree, call) && !avoid.contains(call) ==> #[trigger] after.answer(call)
            == tree.answer(call)
}

/// What agreement says of one call.
pub proof fn agrees_on(tree: Tree, after: Tree, avoid: Set<SyscallView>, call: SyscallView)
    requires
        agrees(tree, after, avoid),
        names_inodes(tree, call),
        !avoid.contains(call),
    ensures
        after.answer(call) == tree.answer(call),
{
    reveal(agrees);
}

/// Whether a walk that a driver runs on the tree makes one of the calls
/// in `avoid`.
pub open spec fn touches(
    tree: Tree,
    w: WalkView,
    reply: ReplyView,
    fuel: nat,
    avoid: Set<SyscallView>,
) -> bool
    decreases fuel,
{
    if fuel == 0 {
        false
    } else {
        let (next, out) = w.step(reply);
        match out.next {
            NextView::Done(_) => false,
            NextView::Call(call) => avoid.contains(call) || touches(
                tree,
                next,
                tree.answer(call),
                (fuel - 1) as nat,
                avoid,
            ),
        }
    }
}

/// A tree without one entry answers as the tree with it, but where that
/// entry is opened: there it answers that there is no such entry.
pub proof fn answers_without_entry(tree: Tree, dir: i32, name: Seq<u8>)
    requires
        tree.is_dir(dir),
        single_name(name),
    ensures
        tree.without_entry(dir, name).answer(open_entry(dir, name)) == ReplyView::Failed(ENOENT),
        agrees(tree, tree.without_entry(dir, name), set![open_entry(dir, name)]),
{
    let after = tree.without_entry(dir, name);
    reveal(agrees);
    assert forall|call: SyscallView|
        names_inodes(tree, call) && !set![open_entry(dir, name)].contains(
            call,
        ) implies #[trigger] after.answer(call) == tree.answer(call) by {
        match call {
            SyscallView::OpenAt { dir: at, name: asked, flags, mode } => {
                if at == dir && asked != name {
                    assert(after.nodes[dir].entries.dom().contains(asked)
                        == tree.nodes[dir].entries.dom().contains(asked));
                }
                if at != dir {
                    assert(after.nodes[at] == tree.nodes[at]);
                }
            },
            _ => {},
        }
    }
}

/// Whether an entry can be created under the name `name` in the directory
/// `dir` for the new inode `new`.
pub open spec fn can_create(tree: Tree, dir: i32, name: Seq<u8>, new: i32) -> bool {
    &&& tree.wf()
    &&& tree.is_dir(dir)
    &&& single_name(name)
    &&& !tree.nodes[dir].entries.dom().contains(name)
    &&& tree.free(new)
}

/// A tree with one entry more answers as the tree without it, but where
/// that entry is opened: there it answers with the new inode.
pub proof fn answers_with_entry(
    tree: Tree,
    dir: i32,
    name: Seq<u8>,
    new: i32,
    kind: FileKind,
    id: InodeId,
    target: Seq<u8>,
)
    requires
        can_create(tree, dir, name, new),
    ensures
        ({
            let after = tree.with_entry(dir, name, new, kind, id, target);
            &&& after.wf()
            &&& after.answer(open_entry(dir, name)) == ReplyView::Fd(new)
            &&& tree.answer(open_entry(dir, name)) == ReplyView::Failed(ENOENT)
            &&& after.has(new) && after.nodes[new].kind == kind
            &&& after.nodes[new].path == child_path(tree.nodes[dir].path, name)
            &&& forall|fd: i32| #[trigger]
                tree.has(fd) ==> after.has(fd) && after.nodes[fd].path == tree.nodes[fd].path
                    && after.nodes[fd].kind == tree.nodes[fd].kind
            &&& agrees(tree, after, set![open_entry(dir, name)])
        }),
{
    let after = tree.with_entry(dir, name, new, kind, id, target);
    crate::contained::flags_of_the_walk();
    assert forall|fd: i32| #[trigger] tree.has(fd) implies after.has(fd) && after.nodes[fd].path
        == tree.nodes[fd].path && after.nodes[fd].kind == tree.nodes[fd].kind
        && after.nodes[fd].parent == tree.nodes[fd].parent && after.nodes[fd].id
        == tree.nodes[fd].id && after.nodes[fd].target == tree.nodes[fd].target && (fd != dir
        ==> after.nodes[fd] == tree.nodes[fd]) by {}
    assert(after.wf()) by {
        reveal(Tree::wf);
        assert forall|fd: i32| #[trigger] after.has(fd) implies {
            &&& after.nodes[fd].path.len() > 0
            &&& after.nodes[fd].kind == FileKind::Directory ==> after.is_dir(
                after.nodes[fd].parent,
            )
            &&& forall|entry: Seq<u8>| #[trigger]
                after.nodes[fd].entries.dom().contains(entry) ==> after.has(
                    after.nodes[fd].entries[entry],
                )
        } by {
            if fd == new {
                assert(tree.has(dir));
                assert(after.nodes[new].path =~= child_path(tree.nodes[dir].path, name));
                assert(after.nodes[new].entries.dom() =~= Set::<Seq<u8>>::empty());
            } else {
                assert(tree.has(fd));
                if after.nodes[fd].kind == FileKind::Directory {
                    assert(tree.is_dir(tree.nodes[fd].parent));
                }
                assert forall|entry: Seq<u8>| #[trigger]
                    after.nodes[fd].entries.dom().contains(entry) implies after.has(
                    after.nodes[fd].entries[entry],
                ) by {
                    if fd == dir && entry == name {
                    } else {
                        assert(tree.nodes[fd].entries.dom().contains(entry));
                        assert(tree.has(tree.nodes[fd].entries[entry]));
                    }
                }
            }
        }
    }
    reveal(agrees);
    assert forall|call: SyscallView|
        names_inodes(tree, call) && !set![open_entry(dir, name)].contains(
            call,
        ) implies #[trigger] after.answer(call) == tree.answer(call) by {
        match call {
            SyscallView::OpenAt { dir: at, name: asked, flags, mode } => {
                tree.closed_at(at, asked);
            },
            _ => {},
        }
    }
}

/// What a rename that the model makes has found: the entry that moves is
/// there and is no directory, and the entry that it moves to is another.
pub open spec fn can_rename(
    tree: Tree,
    old_dir: i32,
    old_name: Seq<u8>,
    new_dir: i32,
    new_name: Seq<u8>,
) -> bool {
    &&& tree.wf()
    &&& tree.is_dir(old_dir)
    &&& tree.is_dir(new_dir)
    &&& single_name(old_name)
    &&& single_name(new_name)
    &&& tree.nodes[old_dir].entries.dom().contains(old_name)
    &&& !tree.is_dir(tree.nodes[old_dir].entries[old_name])
    &&& !(tree.nodes[new_dir].entries.dom().contains(new_name) && tree.is_dir(
        tree.nodes[new_dir].entries[new_name],
    ))
    &&& (old_dir != new_dir || old_name != new_name)
}

/// The calls that a tree answers otherwise after a rename: those that
/// open the entry that has moved, under its old name and under its new
/// one, and the one that asks for its path.
pub open spec fn moved_calls(
    tree: Tree,
    old_dir: i32,
    old_name: Seq<u8>,
    new_dir: i32,
    new_name: Seq<u8>,
) -> Set<SyscallView> {
    set![
        open_entry(old_dir, old_name),
        open_entry(new_dir, new_name),
        SyscallView::FdPath { fd: tree.nodes[old_dir].entries[old_name] },
    ]
}

/// A tree in which an entry was renamed answers as the tree before, but
/// for the calls on the entry that has moved: under its old name there is
/// no entry, under its new name there is the entry.
pub proof fn answers_after_rename(
    tree: Tree,
    old_dir: i32,
    old_name: Seq<u8>,
    new_dir: i32,
    new_name: Seq<u8>,
)
    requires
        can_rename(tree, old_dir, old_name, new_dir, new_name),
    ensures
        ({
            let after = tree.rename(old_dir, old_name, new_dir, new_name, 0).0;
            let moved = tree.nodes[old_dir].entries[old_name];
            &&& tree.rename(old_dir, old_name, new_dir, new_name, 0).1 == ReplyView::Done
            &&& after.wf()
            &&& tree.has(moved)
            &&& after.answer(open_entry(old_dir, old_name)) == ReplyView::Failed(ENOENT)
            &&& after.answer(open_entry(new_dir, new_name)) == ReplyView::Fd(moved)
            &&& after.has(moved) && after.nodes[moved].kind == tree.nodes[moved].kind
            &&& after.nodes[moved].path == child_path(tree.nodes[new_dir].path, new_name)
            &&& forall|fd: i32| #[trigger]
                tree.has(fd) ==> after.has(fd) && (fd != moved ==> after.nodes[fd].path
                    == tree.nodes[fd].path)
            &&& agrees(tree, after, moved_calls(tree, old_dir, old_name, new_dir, new_name))
        }),
{
    let after = tree.rename(old_dir, old_name, new_dir, new_name, 0).0;
    let moved = tree.nodes[old_dir].entries[old_name];
    let avoid = moved_calls(tree, old_dir, old_name, new_dir, new_name);
    tree.closed_at(old_dir, old_name);
    crate::contained::flags_of_the_walk();
    assert(moved != old_dir && moved != new_dir);
    assert forall|fd: i32| #[trigger] tree.has(fd) implies after.has(fd) && after.nodes[fd].kind
        == tree.nodes[fd].kind && after.nodes[fd].parent == tree.nodes[fd].parent
        && after.nodes[fd].id == tree.nodes[fd].id && after.nodes[fd].target
        == tree.nodes[fd].target && (fd != moved ==> after.nodes[fd].path == tree.nodes[fd].path)
        && (fd != old_dir && fd != new_dir ==> after.nodes[fd].entries
        == tree.nodes[fd].entries) by {}
    assert forall|fd: i32| #[trigger] after.has(fd) implies tree.has(fd) by {}
    assert(after.nodes[moved].path =~= child_path(tree.nodes[new_dir].path, new_name));
    assert(after.wf()) by {
        reveal(Tree::wf);
        assert forall|fd: i32| #[trigger] after.has(fd) implies {
            &&& after.nodes[fd].path.len() > 0
            &&& after.nodes[fd].kind == FileKind::Directory ==> after.is_dir(
                after.nodes[fd].parent,
            )
            &&& forall|entry: Seq<u8>| #[trigger]
                after.nodes[fd].entries.dom().contains(entry) ==> after.has(
                    after.nodes[fd].entries[entry],
                )
        } by {
            assert(tree.has(fd));
            if after.nodes[fd].kind == FileKind::Directory {
                assert(tree.is_dir(tree.nodes[fd].parent));
            }
            assert forall|entry: Seq<u8>| #[trigger]
                after.nodes[fd].entries.dom().contains(entry) implies after.has(
                after.nodes[fd].entries[entry],
            ) by {
                if fd == new_dir && entry == new_name {
                } else {
                    assert(tree.nodes[fd].entries.dom().contains(entry));
                    assert(tree.has(tree.nodes[fd].entries[entry]));
                }
            }
        }
    }
    reveal(agrees);
    assert forall|call: SyscallView|
        names_inodes(tree, call) && !avoid.contains(call) implies #[trigger] after.answer(call)
        == tree.answer(call) by {
        match call {
            SyscallView::OpenAt { dir: at, name: asked, flags, mode } => {
                tree.closed_at(at, asked);
                if tree.is_dir(at) && asked != dot() && asked != dotdot() {
                    assert(call != open_entry(old_dir, old_name));
                    assert(call != open_entry(new_dir, new_name));
                    assert(after.nodes[at].entries.dom().contains(asked)
                        == tree.nodes[at].entries.dom().contains(asked));
                    if tree.nodes[at].entries.dom().contains(asked) {
                        assert(after.nodes[at].entries[asked] == tree.nodes[at].entries[asked]);
                    }
                }
            },
            SyscallView::FdPath { fd } => {
                assert(fd != moved);
            },
            _ => {},
        }
    }
}

/// The call that a walk waits for is one on inodes of the tree.
pub proof fn pending_names_inodes(tree: Tree, w: WalkView)
    requires
        walk_inv(tree, w),
        tree.has(w.root),
        pending(w) is Some,
    ensures
        names_inodes(tree, pending(w)->0),
{
}

/// A walk that has met, at the end of its path, what is no directory ends
/// with a handle to that, if it ends with a handle.
proof fn last_name_is_reached(tree: Tree, w: WalkView, reply: ReplyView, fuel: nat)
    requires
        walk_inv(tree, w),
        answers(tree, w, reply),
        w.symlinks.wf(),
        w.phase == Phase::RootPath || w.phase == Phase::CandidatePath,
        w.candidate_kind != FileKind::Directory,
        w.remaining.len() == 0,
        !w.dotdot,
    ensures
        run(walk_machine(), tree, w, reply, fuel) matches Some((_, Ok(reached)))
            ==> !tree.is_dir(reached.handle),
    decreases fuel,
{
    reveal(WalkView::step);
    if fuel > 0 {
        walk_step_is_kept(tree, w, reply);
        step_keeps_setup(w, reply);
        let (next, out) = w.step(reply);
        if w.phase == Phase::RootPath {
            match out.next {
                NextView::Call(call) => {
                    last_name_is_reached(tree, next, tree.answer(call), (fuel - 1) as nat);
                },
                _ => {},
            }
        } else {
            match reply {
                ReplyView::Bytes(path) => {
                    if within(w.probe_path, path) {
                        crate::contained::stack_moves_keep_wf(w.symlinks);
                    }
                },
                _ => {},
            }
        }
    }
}

/// A walk that is to fail where a name cannot be opened, and is answered
/// that there is no such entry, ends with that error.
proof fn open_fails_with_enoent(w: WalkView)
    requires
        w.phase == Phase::Open,
        !w.partial,
    ensures
        w.step(ReplyView::Failed(ENOENT)).1.next matches NextView::Done(Err(e)) && e.kind()
            == ErrorKind::OsError(Some(ENOENT)),
{
    reveal(WalkView::step);
}

/// A walk that ends with a handle has opened no entry that is missing.
pub proof fn missing_entry_is_not_opened(
    tree: Tree,
    dir: i32,
    name: Seq<u8>,
    w: WalkView,
    reply: ReplyView,
    fuel: nat,
)
    requires
        walk_inv(tree, w),
        answers(tree, w, reply),
        !w.partial,
        tree.answer(open_entry(dir, name)) is Failed,
        run(walk_machine(), tree, w, reply, fuel) matches Some((_, Ok(_))),
    ensures
        !touches(tree, w, reply, fuel, set![open_entry(dir, name)]),
    decreases fuel,
{
    if fuel > 0 {
        walk_step_is_kept(tree, w, reply);
        crate::contained::step_keeps_config(w, reply);
        let (next, out) = w.step(reply);
        match out.next {
            NextView::Call(call) => {
                tree.reads_leave(call);
                assert(run(walk_machine(), tree, w, reply, fuel) == run(
                    walk_machine(),
                    tree,
                    next,
                    tree.answer(call),
                    (fuel - 1) as nat,
                ));
                if call == open_entry(dir, name) {
                    assert(next.phase == Phase::Open);
                    if fuel > 1 {
                        open_fails(next, tree.answer(call));
                        assert(run(
                            walk_machine(),
                            tree,
                            next,
                            tree.answer(call),
                            (fuel - 1) as nat,
                        ) matches Some((_, Err(_))));
                    }
                    assert(false);
                }
                missing_entry_is_not_opened(
                    tree,
                    dir,
                    name,
                    next,
                    tree.answer(call),
                    (fuel - 1) as nat,
                );
            },
            _ => {},
        }
    }
}

/// A walk that is to fail where a name cannot be opened, and is answered
/// with a failure, ends with an error.
proof fn open_fails(w: WalkView, reply: ReplyView)
    requires
        w.phase == Phase::Open,
        !w.partial,
        reply is Failed,
    ensures
        w.step(reply).1.next matches NextView::Done(Err(_)),
{
    reveal(WalkView::step);
}

/// A walk that has arrived at a directory with one name left, on a tree in
/// which that name is the entry of what lies within the root and is no
/// symlink, ends with a handle to that entry.
proof fn arrival_reaches_entry(
    tree: Tree,
    l: WalkView,
    w: WalkView,
    dir: i32,
    name: Seq<u8>,
    entry: i32,
)
    requires
        tree.wf(),
        arrived(l, w, name, dir),
        l.symlinks.wf(),
        !l.partial,
        tree.answer(open_entry(dir, name)) == ReplyView::Fd(entry),
        contains(tree, l.root, entry),
        tree.nodes[entry].kind != FileKind::Symlink,
    ensures
        run(walk_machine(), tree, l, ReplyView::Fd(entry), 4) == Some(
            (tree, Ok::<PartialView, ErrorView>(PartialView { handle: entry, remaining: Seq::empty() })),
        ),
{
    reveal(WalkView::step);
    let kind = tree.nodes[entry].kind;
    crate::model::kind_of_mode_of(kind);
    let (l1, s1) = l.step(ReplyView::Fd(entry));
    let call1 = SyscallView::Fstat { fd: entry };
    assert(s1.next == NextView::<PartialView>::Call(call1));
    let reply1 = tree.answer(call1);
    assert(tree.perform(call1) == (tree, reply1));
    let (l2, s2) = l1.step(reply1);
    let call2 = SyscallView::FdPath { fd: l.root };
    assert(l1.phase == Phase::Stat);
    assert(l1.remaining.len() == 0);
    assert(s2.next == NextView::<PartialView>::Call(call2));
    let reply2 = tree.answer(call2);
    assert(tree.perform(call2) == (tree, reply2));
    let (l3, s3) = l2.step(reply2);
    let call3 = SyscallView::FdPath { fd: entry };
    assert(s3.next == NextView::<PartialView>::Call(call3));
    let reply3 = tree.answer(call3);
    assert(tree.perform(call3) == (tree, reply3));
    let (l4, s4) = l3.step(reply3);
    assert(l3.phase == Phase::CandidatePath);
    assert(l3.probe_path == tree.nodes[l.root].path);
    assert(within(l3.probe_path, tree.nodes[entry].path));
    crate::symlink_stack::retired_keeps_wf(l3.symlinks);
    let stack = l3.symlinks.retired();
    assert(l3.symlinks == l.symlinks);
    assert(stack.frames.len() == 0);
    assert(l3.symlinks.consume(crate::walk::component_kind(l3.candidate_kind)) == Ok::<
        crate::symlink_stack::StackView,
        crate::error::SymlinkStackError,
    >(stack));
    assert(stack.retired() == stack);
    assert(s4.next == NextView::<PartialView>::Done(
        Ok(PartialView { handle: entry, remaining: Seq::empty() }),
    ));
    assert(run(walk_machine(), tree, l3, reply3, 1) == Some(
        (tree, Ok::<PartialView, ErrorView>(PartialView { handle: entry, remaining: Seq::empty() })),
    ));
    assert(run(walk_machine(), tree, l2, reply2, 2) == run(walk_machine(), tree, l3, reply3, 1));
    assert(run(walk_machine(), tree, l1, reply1, 3) == run(walk_machine(), tree, l2, reply2, 2));
    assert(run(walk_machine(), tree, l, ReplyView::Fd(entry), 4) == run(
        walk_machine(),
        tree,
        l1,
        reply1,
        3,
    ));
}

/// Gone for the walk. Where a walk of a path ends with a handle to a
/// directory, a walk of that path with one more name at its end, on a
/// changed tree that has no entry of that name in that directory and
/// answers the calls of the shorter walk as the tree does, ends, if it
/// ends, with the error that there is no such entry.
pub proof fn longer_walk_finds_nothing(
    tree: Tree,
    after: Tree,
    avoid: Set<SyscallView>,
    dir: i32,
    name: Seq<u8>,
    w: WalkView,
    reply: ReplyView,
    other: ReplyView,
    nofollow: bool,
    fuel: nat,
    later: nat,
)
    requires
        walk_inv(tree, w),
        answers(tree, w, reply),
        w.symlinks.wf(),
        tree.has(w.root),
        !w.partial,
        !w.nofollow,
        single_name(name),
        tree.is_dir(dir),
        agrees(tree, after, avoid),
        after.answer(open_entry(dir, name)) == ReplyView::Failed(ENOENT),
        !touches(tree, w, reply, fuel, avoid.remove(open_entry(dir, name))),
        run(walk_machine(), tree, w, reply, fuel) matches Some((_, Ok(reached))) && reached.handle
            == dir,
        other == reply || (pending(w) == Some(open_entry(dir, name)) && other == ReplyView::Failed(
            ENOENT,
        )),
    ensures
        match run(walk_machine(), after, longer(w, name, nofollow, false), other, later) {
            Some((_, result)) => result matches Err(e) && e.kind() == ErrorKind::OsError(
                Some(ENOENT),
            ),
            None => true,
        },
    decreases fuel,
{
    let l = longer(w, name, nofollow, false);
    if later > 0 && fuel > 0 {
        if other != reply {
            assert(l.phase == Phase::Open);
            open_fails_with_enoent(l);
        } else {
            step_follows(w, name, nofollow, false, reply);
            walk_step_is_kept(tree, w, reply);
            step_keeps_setup(w, reply);
            let (next, out) = w.step(reply);
            let (lnext, lout) = l.step(reply);
            match out.next {
                NextView::Call(call) => {
                    tree.reads_leave(call);
                    after.reads_leave(call);
                    assert(run(walk_machine(), tree, w, reply, fuel) == run(
                        walk_machine(),
                        tree,
                        next,
                        tree.answer(call),
                        (fuel - 1) as nat,
                    ));
                    if lnext == longer(next, name, nofollow, false) && lout == out {
                        pending_names_inodes(tree, next);
                        if call != open_entry(dir, name) {
                            assert(!avoid.remove(open_entry(dir, name)).contains(call));
                            agrees_on(tree, after, avoid, call);
                        }
                        assert(run(walk_machine(), after, l, other, later) == run(
                            walk_machine(),
                            after,
                            lnext,
                            after.answer(call),
                            (later - 1) as nat,
                        ));
                        longer_walk_finds_nothing(
                            tree,
                            after,
                            avoid,
                            dir,
                            name,
                            next,
                            tree.answer(call),
                            after.answer(call),
                            nofollow,
                            (fuel - 1) as nat,
                            (later - 1) as nat,
                        );
                    } else {
                        last_name_is_reached(tree, next, tree.answer(call), (fuel - 1) as nat);
                        assert(false);
                    }
                },
                NextView::Done(Ok(reached)) => {
                    let call = open_entry(dir, name);
                    crate::contained::flags_of_the_walk();
                    after.reads_leave(call);
                    assert(lout.next == NextView::<PartialView>::Call(call));
                    assert(run(walk_machine(), after, l, other, later) == run(
                        walk_machine(),
                        after,
                        lnext,
                        ReplyView::Failed(ENOENT),
                        (later - 1) as nat,
                    ));
                    if later > 1 {
                        assert(lnext.phase == Phase::Open);
                        assert(!lnext.partial);
                        open_fails_with_enoent(lnext);
                    }
                },
                NextView::Done(Err(_)) => {},
            }
        }
    }
}

/// There for the walk. Where a walk of a path ends with a handle to a
/// directory, a walk of that path with one more name at its end, on a
/// changed tree in which that name is, in that directory, the entry of
/// what lies within the root and is no symlink, and which answers the
/// calls of the shorter walk as the tree does, ends with a handle to that
/// entry.
pub proof fn longer_walk_finds_entry(
    tree: Tree,
    after: Tree,
    avoid: Set<SyscallView>,
    dir: i32,
    name: Seq<u8>,
    entry: i32,
    w: WalkView,
    reply: ReplyView,
    nofollow: bool,
    fuel: nat,
)
    requires
        walk_inv(tree, w),
        answers(tree, w, reply),
        w.symlinks.wf(),
        tree.has(w.root),
        !w.partial,
        !w.nofollow,
        single_name(name),
        agrees(tree, after, avoid),
        !touches(tree, w, reply, fuel, avoid),
        after.wf(),
        after.answer(open_entry(dir, name)) == ReplyView::Fd(entry),
        contains(after, w.root, entry),
        after.nodes[entry].kind != FileKind::Symlink,
        tree.is_dir(dir),
        run(walk_machine(), tree, w, reply, fuel) matches Some((_, Ok(reached))) && reached.handle
            == dir,
    ensures
        run(walk_machine(), after, longer(w, name, nofollow, false), reply, fuel + 4) == Some(
            (
                after,
                Ok::<PartialView, ErrorView>(PartialView { handle: entry, remaining: Seq::empty() }),
            ),
        ),
    decreases fuel,
{
    let l = longer(w, name, nofollow, false);
    step_follows(w, name, nofollow, false, reply);
    walk_step_is_kept(tree, w, reply);
    step_keeps_setup(w, reply);
    step_keeps_setup(l, reply);
    let (next, out) = w.step(reply);
    let (lnext, lout) = l.step(reply);
    match out.next {
        NextView::Call(call) => {
            tree.reads_leave(call);
            after.reads_leave(call);
            assert(run(walk_machine(), tree, w, reply, fuel) == run(
                walk_machine(),
                tree,
                next,
                tree.answer(call),
                (fuel - 1) as nat,
            ));
            if lnext == longer(next, name, nofollow, false) && lout == out {
                pending_names_inodes(tree, next);
                agrees_on(tree, after, avoid, call);
                assert(run(walk_machine(), after, l, reply, fuel + 4) == run(
                    walk_machine(),
                    after,
                    lnext,
                    after.answer(call),
                    (fuel + 3) as nat,
                ));
                longer_walk_finds_entry(
                    tree,
                    after,
                    avoid,
                    dir,
                    name,
                    entry,
                    next,
                    tree.answer(call),
                    nofollow,
                    (fuel - 1) as nat,
                );
            } else {
                last_name_is_reached(tree, next, tree.answer(call), (fuel - 1) as nat);
                assert(false);
            }
        },
        NextView::Done(Ok(reached)) => {
            let call = open_entry(dir, name);
            crate::contained::flags_of_the_walk();
            after.reads_leave(call);
            assert(lout.next == NextView::<PartialView>::Call(call));
            assert(run(walk_machine(), after, l, reply, fuel + 4) == run(
                walk_machine(),
                after,
                lnext,
                ReplyView::Fd(entry),
                (fuel + 3) as nat,
            ));
            arrival_reaches_entry(after, lnext, next, dir, name, entry);
            run_is_monotonic(
                walk_machine(),
                after,
                lnext,
                ReplyView::Fd(entry),
                4,
                (fuel + 3) as nat,
            );
        },
        NextView::Done(Err(_)) => {},
    }
}

/// What lies within a root has its entries within that root.
pub proof fn child_is_within(root: Seq<u8>, dir: Seq<u8>, name: Seq<u8>)
    requires
        within(root, dir),
    ensures
        within(root, child_path(dir, name)),
{
    let child = child_path(dir, name);
    assert(child.take(root.len() as int) =~= dir.take(root.len() as int));
    if dir.len() > root.len() {
        assert(child[root.len() as int] == dir[root.len() as int]);
    }
}

/// What the walk to the parent of a path has found, where an operation on
/// the trailing name of the path has succeeded: the walk has ended with a
/// handle to a directory within the root.
pub proof fn parent_was_walked(
    tree: Tree,
    resolver: Resolver,
    root: i32,
    path: Seq<u8>,
    dir: i32,
    moves: nat,
) -> (steps: nat)
    requires
        tree.wf(),
        path.len() > 0,
        run(
            resolution_machine(),
            tree,
            ResolutionView::start(resolver, root, parent_and_name(path).0, false),
            ReplyView::Start,
            moves,
        ) == Some((tree, Ok::<i32, ErrorView>(dir))),
    ensures
        resolver.backend != ResolverBackend::KernelNative,
        run(
            walk_machine(),
            tree,
            WalkView::start(root, parent_and_name(path).0, resolver.flags, false, false),
            ReplyView::Start,
            steps,
        ) matches Some((_, Ok(reached))) && reached.handle == dir,
        contains(tree, root, dir),
        walk_inv(
            tree,
            WalkView::start(root, parent_and_name(path).0, resolver.flags, false, false),
        ),
{
    let parent = parent_and_name(path).0;
    resolution_runs_as_walk(tree, resolver, root, parent, false, moves);
    let steps: nat = if resolver.backend == ResolverBackend::Auto {
        (moves - 1) as nat
    } else {
        moves
    };
    if resolver.backend == ResolverBackend::Auto && moves == 0 {
        assert(false);
    }
    if resolver.backend != ResolverBackend::KernelNative {
        resolution_runs_as_walk(tree, resolver, root, parent, false, steps);
    }
    crate::contained::resolve_stays_within_the_root(tree, resolver, root, parent, false, moves);
    resolution_starts_in_order(tree, resolver, root, parent, false);
    steps
}

/// What a resolution of a path ends with, where the walk of the path ends
/// with the error that there is no such entry.
pub proof fn resolution_finds_nothing(
    tree: Tree,
    resolver: Resolver,
    root: i32,
    path: Seq<u8>,
    nofollow: bool,
    later: nat,
)
    requires
        resolver.backend != ResolverBackend::KernelNative,
        forall|walked: nat|
            match #[trigger] run(
                walk_machine(),
                tree,
                WalkView::start(root, path, resolver.flags, nofollow, false),
                ReplyView::Start,
                walked,
            ) {
                Some((_, result)) => result matches Err(e) && e.kind() == ErrorKind::OsError(
                    Some(ENOENT),
                ),
                None => true,
            },
    ensures
        match run(
            resolution_machine(),
            tree,
            ResolutionView::start(resolver, root, path, nofollow),
            ReplyView::Start,
            later,
        ) {
            Some((_, result)) => result matches Err(e) && e.kind() == ErrorKind::OsError(
                Some(ENOENT),
            ),
            None => true,
        },
{
    let walked: nat = if resolver.backend == ResolverBackend::Auto {
        if later == 0 {
            0
        } else {
            (later - 1) as nat
        }
    } else {
        later
    };
    resolution_runs_as_walk(tree, resolver, root, path, nofollow, walked);
    match run(
        walk_machine(),
        tree,
        WalkView::start(root, path, resolver.flags, nofollow, false),
        ReplyView::Start,
        walked,
    ) {
        Some((_, Err(error))) => {
            boundary_keeps_kind(error);
        },
        _ => {},
    }
    if resolver.backend == ResolverBackend::Auto && later == 0 {
        assert(run(
            resolution_machine(),
            tree,
            ResolutionView::start(resolver, root, path, nofollow),
            ReplyView::Start,
            0,
        ) is None);
    }
}

/// Removed is gone. Where the removal of a path, as a file or as a
/// directory, has succeeded on a tree that nobody else changes, a
/// resolution of the same path on the tree that the removal has left ends,
/// if it ends, with the error that there is no such entry.
pub proof fn removed_is_gone(
    tree: Tree,
    resolver: Resolver,
    root: i32,
    path: Seq<u8>,
    flags: i32,
    nofollow: bool,
    fuel: nat,
    after: Tree,
    later: nat,
)
    requires
        tree.wf(),
        run(
            entry_machine(),
            tree,
            entry_op(
                resolver,
                root,
                ActionView::Unlink { flags },
                "pathrs remove"@,
                path,
                removal_words(),
                Seq::empty(),
                removal_words(),
            ),
            ReplyView::Start,
            fuel,
        ) matches Some((left, Ok(_))) && left == after,
    ensures
        match run(
            resolution_machine(),
            after,
            ResolutionView::start(resolver, root, path, nofollow),
            ReplyView::Start,
            later,
        ) {
            Some((_, result)) => result matches Err(e) && e.kind() == ErrorKind::OsError(
                Some(ENOENT),
            ),
            None => true,
        },
{
    let e = entry_op(
        resolver,
        root,
        ActionView::Unlink { flags },
        "pathrs remove"@,
        path,
        removal_words(),
        Seq::empty(),
        removal_words(),
    );
    if path.len() == 0 {
        assert(e.first.invalid);
        assert(e.step(ReplyView::Start).1.next is Done);
        assert(false);
    }
    let parent = parent_and_name(path).0;
    resolution_starts_in_order(tree, resolver, root, parent, false);
    let found = entry_run_splits(tree, e, ReplyView::Start, fuel);
    let dir = found.0;
    let name = parent_and_name(path).1->0;
    let steps = parent_was_walked(tree, resolver, root, path, dir, found.1);
    let w = WalkView::start(root, parent, resolver.flags, false, false);
    assert(tree.unlink(dir, name, flags) == (after, ReplyView::Done));
    walk_of_path_is_longer_walk(after, root, path, resolver.flags, nofollow, 0);
    assert(single_name(name));
    assert(after == tree.without_entry(dir, name));
    answers_without_entry(tree, dir, name);
    let avoid = set![open_entry(dir, name)];
    assert(avoid.remove(open_entry(dir, name)) =~= Set::<SyscallView>::empty());
    nothing_is_untouched(tree, w, ReplyView::Start, steps);
    assert forall|walked: nat|
        match #[trigger] run(
            walk_machine(),
            after,
            WalkView::start(root, path, resolver.flags, nofollow, false),
            ReplyView::Start,
            walked,
        ) {
            Some((_, result)) => result matches Err(e) && e.kind() == ErrorKind::OsError(
                Some(ENOENT),
            ),
            None => true,
        } by {
        longer_walk_finds_nothing(
            tree,
            after,
            avoid,
            dir,
            name,
            w,
            ReplyView::Start,
            ReplyView::Start,
            nofollow,
            steps,
            walked,
        );
        walk_of_path_is_longer_walk(after, root, path, resolver.flags, nofollow, walked);
    }
    resolution_finds_nothing(after, resolver, root, path, nofollow, later);
}

/// No walk makes a call of the empty set.
pub proof fn nothing_is_untouched(tree: Tree, w: WalkView, reply: ReplyView, fuel: nat)
    ensures
        !touches(tree, w, reply, fuel, Set::empty()),
    decreases fuel,
{
    if fuel > 0 {
        let (next, out) = w.step(reply);
        match out.next {
            NextView::Call(call) => {
                nothing_is_untouched(tree, next, tree.answer(call), (fuel - 1) as nat);
            },
            _ => {},
        }
    }
}

/// The kind of inode that the creation of an inode type makes.
pub open spec fn made_kind(inode_type: InodeTypeView) -> FileKind {
    match inode_type {
        InodeTypeView::File(_) => FileKind::Regular,
        InodeTypeView::Directory(_) => FileKind::Directory,
        InodeTypeView::Symlink(_) => FileKind::Symlink,
        InodeTypeView::Hardlink(_) => FileKind::Regular,
        InodeTypeView::Fifo(_) => FileKind::Fifo,
        InodeTypeView::CharacterDevice(_, _) => FileKind::CharacterDevice,
        InodeTypeView::BlockDevice(_, _) => FileKind::BlockDevice,
    }
}

/// The mode of a node says of which kind the node is, whatever its
/// permissions.
pub proof fn node_mode_has_its_kind(perm: u32)
    ensures
        kind_of_mode(crate::sys::S_IFREG | (perm & crate::mkdir_all::MODE_BITS))
            == FileKind::Regular,
        kind_of_mode(crate::sys::S_IFIFO | (perm & crate::mkdir_all::MODE_BITS)) == FileKind::Fifo,
        kind_of_mode(crate::sys::S_IFCHR | (perm & crate::mkdir_all::MODE_BITS))
            == FileKind::CharacterDevice,
        kind_of_mode(crate::sys::S_IFBLK | (perm & crate::mkdir_all::MODE_BITS))
            == FileKind::BlockDevice,
{
    assert((0o100000u32 | (perm & 0o7777u32)) & 0o170000u32 == 0o100000u32) by (bit_vector);
    assert((0o010000u32 | (perm & 0o7777u32)) & 0o170000u32 == 0o010000u32) by (bit_vector);
    assert((0o020000u32 | (perm & 0o7777u32)) & 0o170000u32 == 0o020000u32) by (bit_vector);
    assert((0o060000u32 | (perm & 0o7777u32)) & 0o170000u32 == 0o060000u32) by (bit_vector);
}

/// Created is there. Where the creation of a file, a directory, a named
/// pipe or a device at a path has succeeded on a tree that nobody else
/// changes, a resolution of the same path on the tree that the creation
/// has left ends with a handle to an inode of the type that was created,
/// and leaves the tree as it is. The number of moves that the resolution
/// needs is handed back.
pub proof fn created_is_there(
    tree: Tree,
    resolver: Resolver,
    root: i32,
    path: Seq<u8>,
    inode_type: InodeTypeView,
    nofollow: bool,
    fuel: nat,
    after: Tree,
) -> (later: nat)
    requires
        tree.wf(),
        inode_type !is Symlink,
        inode_type !is Hardlink,
        run(
            entry_machine(),
            tree,
            entry_op(
                resolver,
                root,
                inode_type.action(),
                "pathrs create"@,
                path,
                creation_words(),
                inode_type.source(),
                hardlink_words(),
            ),
            ReplyView::Start,
            fuel,
        ) matches Some((left, Ok(_))) && left == after,
    ensures
        run(
            resolution_machine(),
            after,
            ResolutionView::start(resolver, root, path, nofollow),
            ReplyView::Start,
            later,
        ) matches Some((same, Ok(handle))) && same == after && after.has(handle)
            && after.nodes[handle].kind == made_kind(inode_type),
{
    let e = entry_op(
        resolver,
        root,
        inode_type.action(),
        "pathrs create"@,
        path,
        creation_words(),
        inode_type.source(),
        hardlink_words(),
    );
    if path.len() == 0 {
        assert(e.first.invalid);
        assert(e.step(ReplyView::Start).1.next is Done);
        assert(false);
    }
    let parent = parent_and_name(path).0;
    resolution_starts_in_order(tree, resolver, root, parent, false);
    let found = entry_run_splits(tree, e, ReplyView::Start, fuel);
    let dir = found.0;
    let name = parent_and_name(path).1->0;
    let steps = parent_was_walked(tree, resolver, root, path, dir, found.1);
    let w = WalkView::start(root, parent, resolver.flags, false, false);
    let kind = made_kind(inode_type);
    match inode_type {
        InodeTypeView::File(perm) => {
            node_mode_has_its_kind(perm);
        },
        InodeTypeView::Fifo(perm) => {
            node_mode_has_its_kind(perm);
        },
        InodeTypeView::CharacterDevice(perm, _) => {
            node_mode_has_its_kind(perm);
        },
        InodeTypeView::BlockDevice(perm, _) => {
            node_mode_has_its_kind(perm);
        },
        _ => {},
    }
    walk_of_path_is_longer_walk(tree, root, path, resolver.flags, nofollow, 0);
    assert(tree.create(dir, name, kind, Seq::empty()) == (after, ReplyView::Done));
    let new = choose|new: i32| tree.free(new);
    let id = choose|id: InodeId| tree.unused(id);
    assert(after == tree.with_entry(dir, name, new, kind, id, Seq::empty()));
    assert(single_name(name));
    answers_with_entry(tree, dir, name, new, kind, id, Seq::empty());
    child_is_within(tree.nodes[root].path, tree.nodes[dir].path, name);
    missing_entry_is_not_opened(tree, dir, name, w, ReplyView::Start, steps);
    longer_walk_finds_entry(
        tree,
        after,
        set![open_entry(dir, name)],
        dir,
        name,
        new,
        w,
        ReplyView::Start,
        nofollow,
        steps,
    );
    walk_of_path_is_longer_walk(after, root, path, resolver.flags, nofollow, steps + 4);
    resolution_runs_as_walk(after, resolver, root, path, nofollow, steps + 4);
    steps + 4 + lead(resolver.backend)
}

/// What a successful operation on two entries has done after the parent
/// of its first path was resolved: it has resolved the parent of its
/// second path to a directory, and has made its call on the two trailing
/// names.
pub proof fn second_lookup_splits(tree: Tree, e: EntryOpView, reply: ReplyView, fuel: nat) -> (found:
    (i32, nat))
    requires
        e.stage == EntryStage::Second,
        e.action.binary(),
        !e.second.invalid,
        !e.second.over,
        e.dir is Some,
        e.other_dir is None,
        resolution_inv(tree, e.second.resolution),
        resolution_answers(tree, e.second.resolution, reply),
        run(entry_machine(), tree, e, reply, fuel) matches Some((_, Ok(_))),
    ensures
        e.second.name is Some,
        run(resolution_machine(), tree, e.second.resolution, reply, found.1) == Some(
            (tree, Ok::<i32, ErrorView>(found.0)),
        ),
        ({
            let call = e.action.call(e.dir->0, e.name, found.0, e.second.name->0);
            &&& run(entry_machine(), tree, e, reply, fuel) matches Some((after, _)) && after
                == tree.perform(call).0
            &&& (tree.perform(call).1 is Done || tree.perform(call).1 is Fd)
        }),
    decreases fuel,
{
    let r = e.second.resolution;
    let (r2, s) = r.step(reply);
    let (l2, ls) = e.second.step(reply);
    resolution_step_is_kept(tree, r, reply);
    match s.next {
        NextView::Call(call) => {
            let next = EntryOpView { second: l2, ..e };
            assert(e.step(reply) == (next, StepView::<Option<i32>>::call(s.retired, call)));
            tree.reads_leave(call);
            let inner = second_lookup_splits(tree, next, tree.answer(call), (fuel - 1) as nat);
            (inner.0, inner.1 + 1)
        },
        NextView::Done(Ok(dir)) => {
            let name = e.second.name->0;
            let call = e.action.call(e.dir->0, e.name, dir, name);
            let (after, answer) = tree.perform(call);
            let found = EntryOpView { second: l2, other_dir: Some(dir), other_name: name, ..e };
            let calling = EntryOpView { stage: EntryStage::Calling, ..found };
            if e.second.name is Some {
                assert(e.step(reply) == (calling, StepView::<Option<i32>>::call(s.retired, call)));
                assert(run(entry_machine(), tree, e, reply, fuel) == run(
                    entry_machine(),
                    after,
                    calling,
                    answer,
                    (fuel - 1) as nat,
                ));
            }
            (dir, 1)
        },
        NextView::Done(Err(_)) => { (0, 0) },
    }
}

/// What a successful operation on two entries has done: it has resolved
/// the parents of both of its paths to directories, and has made its call
/// on the two trailing names.
pub proof fn binary_entry_run_splits(tree: Tree, e: EntryOpView, reply: ReplyView, fuel: nat) -> (found:
    (i32, nat, i32, nat))
    requires
        e.stage == EntryStage::First,
        e.action.binary(),
        !e.first.invalid,
        !e.first.over,
        !e.second.over,
        e.dir is None,
        e.other_dir is None,
        resolution_inv(tree, e.first.resolution),
        resolution_answers(tree, e.first.resolution, reply),
        resolution_inv(tree, e.second.resolution),
        resolution_answers(tree, e.second.resolution, ReplyView::Start),
        run(entry_machine(), tree, e, reply, fuel) matches Some((_, Ok(_))),
    ensures
        e.first.name is Some,
        e.second.name is Some,
        !e.second.invalid,
        run(resolution_machine(), tree, e.first.resolution, reply, found.1) == Some(
            (tree, Ok::<i32, ErrorView>(found.0)),
        ),
        run(resolution_machine(), tree, e.second.resolution, ReplyView::Start, found.3) == Some(
            (tree, Ok::<i32, ErrorView>(found.2)),
        ),
        ({
            let call = e.action.call(found.0, e.first.name->0, found.2, e.second.name->0);
            &&& run(entry_machine(), tree, e, reply, fuel) matches Some((after, _)) && after
                == tree.perform(call).0
            &&& (tree.perform(call).1 is Done || tree.perform(call).1 is Fd)
        }),
    decreases fuel,
{
    let r = e.first.resolution;
    let (r2, s) = r.step(reply);
    let (l2, ls) = e.first.step(reply);
    resolution_step_is_kept(tree, r, reply);
    match s.next {
        NextView::Call(call) => {
            let next = EntryOpView { first: l2, ..e };
            assert(e.step(reply) == (next, StepView::<Option<i32>>::call(s.retired, call)));
            tree.reads_leave(call);
            let inner = binary_entry_run_splits(tree, next, tree.answer(call), (fuel - 1) as nat);
            (inner.0, inner.1 + 1, inner.2, inner.3)
        },
        NextView::Done(Ok(dir)) => {
            if e.first.name is Some && !e.second.invalid {
                let name = e.first.name->0;
                let found = EntryOpView { first: l2, dir: Some(dir), name, ..e };
                let q = e.second.resolution;
                let (q2, t) = q.step(ReplyView::Start);
                let (m2, more) = e.second.step(ReplyView::Start);
                resolution_step_is_kept(tree, q, ReplyView::Start);
                let second = EntryOpView { stage: EntryStage::Second, second: m2, ..found };
                match t.next {
                    NextView::Call(call) => {
                        assert(e.step(reply) == (
                            second,
                            StepView::<Option<i32>>::call(s.retired + t.retired, call),
                        ));
                        tree.reads_leave(call);
                        let inner = second_lookup_splits(
                            tree,
                            second,
                            tree.answer(call),
                            (fuel - 1) as nat,
                        );
                        (dir, 1, inner.0, inner.1 + 1)
                    },
                    NextView::Done(Ok(other)) => {
                        if e.second.name is Some {
                            let other_name = e.second.name->0;
                            let call = e.action.call(dir, name, other, other_name);
                            let (after, answer) = tree.perform(call);
                            let calling = EntryOpView {
                                stage: EntryStage::Calling,
                                other_dir: Some(other),
                                other_name,
                                ..second
                            };
                            assert(e.step(reply) == (
                                calling,
                                StepView::<Option<i32>>::call(s.retired + t.retired, call),
                            ));
                            assert(run(entry_machine(), tree, e, reply, fuel) == run(
                                entry_machine(),
                                after,
                                calling,
                                answer,
                                (fuel - 1) as nat,
                            ));
                        }
                        (dir, 1, other, 1)
                    },
                    NextView::Done(Err(_)) => { (0, 0, 0, 0) },
                }
            } else {
                (0, 0, 0, 0)
            }
        },
        NextView::Done(Err(_)) => { (0, 0, 0, 0) },
    }
}

/// Renamed has moved. Where a rename without flags of what is no
/// directory, from one entry to another, has succeeded on a tree that
/// nobody else changes, then on the tree that the rename has left a
/// resolution of the source ends, if it ends, with the error that there
/// is no such entry, and a resolution of the destination ends with a
/// handle to what was renamed. This is shown for walks that keep clear of
/// what the rename changes: the walk to the parent of the source opens
/// the destination nowhere and asks nowhere for the path of what is
/// renamed, the walk to the parent of the destination opens neither entry
/// and asks nowhere for that path either; and for the destination, for
/// what is no symlink. The number of moves that the resolution of the
/// destination needs is handed back.
pub proof fn renamed_has_moved(
    tree: Tree,
    resolver: Resolver,
    root: i32,
    source: Seq<u8>,
    destination: Seq<u8>,
    nofollow: bool,
    fuel: nat,
    after: Tree,
    old_dir: i32,
    new_dir: i32,
    source_steps: nat,
    destination_steps: nat,
    later: nat,
) -> (moves: nat)
    requires
        tree.wf(),
        source.len() > 0,
        destination.len() > 0,
        parent_and_name(source).1 is Some,
        parent_and_name(destination).1 is Some,
        run(
            entry_machine(),
            tree,
            entry_op(
                resolver,
                root,
                ActionView::Rename { flags: 0 },
                "pathrs rename"@,
                source,
                rename_source_words(),
                destination,
                rename_destination_words(),
            ),
            ReplyView::Start,
            fuel,
        ) matches Some((left, Ok(_))) && left == after,
        run(
            walk_machine(),
            tree,
            WalkView::start(root, parent_and_name(source).0, resolver.flags, false, false),
            ReplyView::Start,
            source_steps,
        ) matches Some((_, Ok(reached))) && reached.handle == old_dir,
        run(
            walk_machine(),
            tree,
            WalkView::start(root, parent_and_name(destination).0, resolver.flags, false, false),
            ReplyView::Start,
            destination_steps,
        ) matches Some((_, Ok(reached))) && reached.handle == new_dir,
        old_dir != new_dir || parent_and_name(source).1->0 != parent_and_name(destination).1->0,
        !touches(
            tree,
            WalkView::start(root, parent_and_name(source).0, resolver.flags, false, false),
            ReplyView::Start,
            source_steps,
            moved_calls(
                tree,
                old_dir,
                parent_and_name(source).1->0,
                new_dir,
                parent_and_name(destination).1->0,
            ).remove(open_entry(old_dir, parent_and_name(source).1->0)),
        ),
        !touches(
            tree,
            WalkView::start(root, parent_and_name(destination).0, resolver.flags, false, false),
            ReplyView::Start,
            destination_steps,
            moved_calls(
                tree,
                old_dir,
                parent_and_name(source).1->0,
                new_dir,
                parent_and_name(destination).1->0,
            ),
        ),
        tree.nodes[tree.nodes[old_dir].entries[parent_and_name(source).1->0]].kind
            != FileKind::Symlink,
    ensures
        match run(
            resolution_machine(),
            after,
            ResolutionView::start(resolver, root, source, nofollow),
            ReplyView::Start,
            later,
        ) {
            Some((_, result)) => result matches Err(e) && e.kind() == ErrorKind::OsError(
                Some(ENOENT),
            ),
            None => true,
        },
        run(
            resolution_machine(),
            after,
            ResolutionView::start(resolver, root, destination, nofollow),
            ReplyView::Start,
            moves,
        ) matches Some((same, Ok(handle))) && same == after && handle
            == tree.nodes[old_dir].entries[parent_and_name(source).1->0],
{
    let e = entry_op(
        resolver,
        root,
        ActionView::Rename { flags: 0 },
        "pathrs rename"@,
        source,
        rename_source_words(),
        destination,
        rename_destination_words(),
    );
    let old_parent = parent_and_name(source).0;
    let new_parent = parent_and_name(destination).0;
    let old_name = parent_and_name(source).1->0;
    let new_name = parent_and_name(destination).1->0;
    let moved = tree.nodes[old_dir].entries[old_name];
    resolution_starts_in_order(tree, resolver, root, old_parent, false);
    resolution_starts_in_order(tree, resolver, root, new_parent, false);
    let found = binary_entry_run_splits(tree, e, ReplyView::Start, fuel);
    let ws = WalkView::start(root, old_parent, resolver.flags, false, false);
    let wd = WalkView::start(root, new_parent, resolver.flags, false, false);
    let s1 = parent_was_walked(tree, resolver, root, source, found.0, found.1);
    let s2 = parent_was_walked(tree, resolver, root, destination, found.2, found.3);
    crate::model::run_is_deterministic(
        walk_machine(),
        tree,
        ws,
        ReplyView::Start,
        s1,
        source_steps,
    );
    crate::model::run_is_deterministic(
        walk_machine(),
        tree,
        wd,
        ReplyView::Start,
        s2,
        destination_steps,
    );
    assert(found.0 == old_dir && found.2 == new_dir);
    walk_of_path_is_longer_walk(after, root, source, resolver.flags, nofollow, 0);
    walk_of_path_is_longer_walk(after, root, destination, resolver.flags, nofollow, 0);
    assert(tree.rename(old_dir, old_name, new_dir, new_name, 0) == (after, ReplyView::Done));
    assert(can_rename(tree, old_dir, old_name, new_dir, new_name));
    answers_after_rename(tree, old_dir, old_name, new_dir, new_name);
    let avoid = moved_calls(tree, old_dir, old_name, new_dir, new_name);
    assert forall|walked: nat|
        match #[trigger] run(
            walk_machine(),
            after,
            WalkView::start(root, source, resolver.flags, nofollow, false),
            ReplyView::Start,
            walked,
        ) {
            Some((_, result)) => result matches Err(e) && e.kind() == ErrorKind::OsError(
                Some(ENOENT),
            ),
            None => true,
        } by {
        longer_walk_finds_nothing(
            tree,
            after,
            avoid,
            old_dir,
            old_name,
            ws,
            ReplyView::Start,
            ReplyView::Start,
            nofollow,
            source_steps,
            walked,
        );
        walk_of_path_is_longer_walk(after, root, source, resolver.flags, nofollow, walked);
    }
    resolution_finds_nothing(after, resolver, root, source, nofollow, later);
    child_is_within(tree.nodes[root].path, tree.nodes[new_dir].path, new_name);
    assert(contains(after, root, moved)) by {
        if root == moved {
            assert(after.nodes[moved].path.take(after.nodes[moved].path.len() as int)
                =~= after.nodes[moved].path);
            after.closed_at(moved, Seq::empty());
        }
    }
    longer_walk_finds_entry(
        tree,
        after,
        avoid,
        new_dir,
        new_name,
        moved,
        wd,
        ReplyView::Start,
        nofollow,
        destination_steps,
    );
    walk_of_path_is_longer_walk(
        after,
        root,
        destination,
        resolver.flags,
        nofollow,
        destination_steps + 4,
    );
    resolution_runs_as_walk(after, resolver, root, destination, nofollow, destination_steps + 4);
    destination_steps + 4 + lead(resolver.backend)
}

/// `remove_all` as an operation to run.
pub open spec fn remove_machine() -> spec_fn(RemoveAllView, ReplyView) -> (
    RemoveAllView,
    StepView<()>,
) {
    |m: RemoveAllView, reply: ReplyView| m.step(reply)
}

/// Whether a `remove_all` has ended well.
pub open spec fn removed(outcome: Option<(Tree, Result<(), ErrorView>)>) -> bool {
    outcome matches Some((_, Ok(_)))
}

/// The tree that an operation has left.
pub open spec fn tree_of<V>(outcome: Option<(Tree, Result<V, ErrorView>)>, otherwise: Tree) -> Tree {
    match outcome {
        Some((tree, _)) => tree,
        None => otherwise,
    }
}

/// Whether the directory `dir` has no entry `name`.
pub open spec fn gone(tree: Tree, dir: i32, name: Seq<u8>) -> bool {
    tree.is_dir(dir) && !tree.nodes[dir].entries.dom().contains(name)
}

/// The calls that a changed tree answers otherwise than the tree.
pub open spec fn changed_answers(tree: Tree, after: Tree) -> Set<SyscallView> {
    Set::new(|call: SyscallView| after.answer(call) != tree.answer(call))
}

/// What a `remove_all` that has succeeded has found where it set out: it
/// has resolved the parent of its path to a directory, and has gone on to
/// unlink the trailing name there.
proof fn removal_lookup_splits(tree: Tree, m: RemoveAllView, reply: ReplyView, fuel: nat) -> (found:
    (i32, nat, RemoveAllView))
    requires
        m.stage == RemoveStage::Lookup,
        !m.lookup.invalid,
        !m.lookup.over,
        m.top is None,
        m.levels.len() == 0,
        resolution_inv(tree, m.lookup.resolution),
        resolution_answers(tree, m.lookup.resolution, reply),
        removed(run(remove_machine(), tree, m, reply, fuel)),
    ensures
        m.lookup.name is Some,
        m.lookup.name->0 != dot(),
        m.lookup.name->0 != dotdot(),
        run(resolution_machine(), tree, m.lookup.resolution, reply, found.1) == Some(
            (tree, Ok::<i32, ErrorView>(found.0)),
        ),
        1 <= found.1 <= fuel,
        found.2.stage == RemoveStage::Unlinking,
        found.2.levels.len() == 1,
        found.2.levels[0].dir == found.0,
        found.2.levels[0].name == m.lookup.name->0,
        run(remove_machine(), tree, m, reply, fuel) == run(
            remove_machine(),
            tree.unlink(found.0, m.lookup.name->0, 0).0,
            found.2,
            tree.unlink(found.0, m.lookup.name->0, 0).1,
            (fuel - found.1) as nat,
        ),
    decreases fuel,
{
    let r = m.lookup.resolution;
    let (r2, s) = r.step(reply);
    let (l2, ls) = m.lookup.step(reply);
    resolution_step_is_kept(tree, r, reply);
    let next = RemoveAllView { lookup: l2, ..m };
    assert(opened_by(m.levels) =~= Seq::<i32>::empty());
    match s.next {
        NextView::Call(call) => {
            assert(m.step(reply) == (next, StepView::<()>::call(s.retired, call)));
            tree.reads_leave(call);
            let inner = removal_lookup_splits(tree, next, tree.answer(call), (fuel - 1) as nat);
            (inner.0, inner.1 + 1, inner.2)
        },
        NextView::Done(Ok(dir)) => {
            if m.lookup.name is Some && m.lookup.name->0 != dot() && m.lookup.name->0
                != dotdot() {
                let name = m.lookup.name->0;
                let level = LevelView { dir, name, sub: None, entries: Seq::empty() };
                let started = RemoveAllView {
                    stage: RemoveStage::Unlinking,
                    top: Some(dir),
                    levels: seq![level],
                    ..next
                };
                let call = SyscallView::UnlinkAt { dir, name, flags: 0 };
                assert(seq![level].last() == level);
                assert(m.step(reply) == (started, StepView::<()>::call(s.retired, call)));
                (dir, 1, started)
            } else {
                (0, 0, m)
            }
        },
        NextView::Done(Err(_)) => { (0, 0, m) },
    }
}

/// The directories that the levels of a removal have opened.
pub open spec fn opened_by(levels: Seq<LevelView>) -> Seq<i32> {
    crate::remove_all::opened(levels)
}

/// Whether a removal is under way in order: it removes the entry `name`
/// of `dir` with what is below it, and where it has just unlinked its
/// innermost entry, that entry is gone.
pub open spec fn removing(tree: Tree, m: RemoveAllView, reply: ReplyView, dir: i32, name: Seq<u8>)
    -> bool {
    &&& m.stage != RemoveStage::Lookup && m.stage != RemoveStage::Over
    &&& m.levels.len() >= 1
    &&& m.levels[0].dir == dir
    &&& m.levels[0].name == name
    &&& ((m.stage == RemoveStage::Unlinking || m.stage == RemoveStage::Removing) && reply
        == ReplyView::Done) ==> gone(tree, m.levels.last().dir, m.levels.last().name)
}

/// A `remove_all` that ends well ends with the entry gone that it was to
/// remove: the last call that it makes unlinks that entry.
proof fn removal_ends_with_unlink(
    tree: Tree,
    m: RemoveAllView,
    reply: ReplyView,
    fuel: nat,
    dir: i32,
    name: Seq<u8>,
)
    requires
        removing(tree, m, reply, dir, name),
        removed(run(remove_machine(), tree, m, reply, fuel)),
    ensures
        gone(tree_of(run(remove_machine(), tree, m, reply, fuel), tree), dir, name),
    decreases fuel,
{
    let (next, out) = m.step(reply);
    let last = m.levels.last();
    match out.next {
        NextView::Call(call) => {
            let (changed, answer) = tree.perform(call);
            assert(removing(changed, next, answer, dir, name)) by {
                match m.stage {
                    RemoveStage::Unlinking => {
                        if reply == ReplyView::Done {
                            descent_is_removing(tree, m, dir, name);
                        }
                    },
                    RemoveStage::Opening => {},
                    RemoveStage::Listing => {
                        match reply {
                            ReplyView::Names(names) => {
                                if crate::remove_all::single_names(names) {
                                    let level = LevelView { entries: names, ..last };
                                    let listed = RemoveAllView {
                                        levels: m.levels.drop_last().push(level),
                                        ..m
                                    };
                                    assert(listed.levels[0].dir == dir);
                                    assert(listed.levels[0].name == name);
                                    inner_is_removing(tree, listed, dir, name, Seq::empty());
                                }
                            },
                            _ => {},
                        }
                    },
                    RemoveStage::Removing => {
                        if reply == ReplyView::Done {
                            descent_is_removing(tree, m, dir, name);
                        }
                    },
                    _ => {},
                }
            }
            removal_ends_with_unlink(changed, next, answer, (fuel - 1) as nat, dir, name);
        },
        NextView::Done(Ok(_)) => {},
        NextView::Done(Err(_)) => {},
    }
}

/// Where a removal goes on inside a directory, it is under way in order
/// after the call that it makes there.
proof fn inner_is_removing(
    tree: Tree,
    m: RemoveAllView,
    dir: i32,
    name: Seq<u8>,
    retired: Seq<i32>,
)
    requires
        m.levels.len() >= 1,
        m.levels[0].dir == dir,
        m.levels[0].name == name,
    ensures
        m.descend(retired).1.next matches NextView::Call(call) ==> removing(
            tree.perform(call).0,
            m.descend(retired).0,
            tree.perform(call).1,
            dir,
            name,
        ),
{
    let level = m.levels.last();
    match level.sub {
        Some(sub) => {
            if level.entries.len() > 0 {
                let rest = LevelView { entries: level.entries.skip(1), ..level };
                let inner = LevelView {
                    dir: sub,
                    name: level.entries[0],
                    sub: None,
                    entries: Seq::empty(),
                };
                let levels = m.levels.drop_last().push(rest).push(inner);
                assert(levels[0].dir == dir && levels[0].name == name);
                assert(levels.last() == inner);
            }
        },
        None => {},
    }
}

/// Where a removal has unlinked its innermost entry and goes on, it is
/// under way in order after the call that it makes.
proof fn descent_is_removing(tree: Tree, m: RemoveAllView, dir: i32, name: Seq<u8>)
    requires
        m.levels.len() >= 1,
        m.levels[0].dir == dir,
        m.levels[0].name == name,
        m.stage == RemoveStage::Unlinking || m.stage == RemoveStage::Removing,
    ensures
        m.step(ReplyView::Done).1.next matches NextView::Call(call) ==> removing(
            tree.perform(call).0,
            m.step(ReplyView::Done).0,
            tree.perform(call).1,
            dir,
            name,
        ),
{
    if m.levels.len() > 1 {
        let up = RemoveAllView { levels: m.levels.drop_last(), ..m };
        assert(up.levels[0].dir == dir && up.levels[0].name == name);
        if m.stage == RemoveStage::Unlinking {
            inner_is_removing(tree, up, dir, name, Seq::empty());
        } else {
            inner_is_removing(tree, up, dir, name, crate::step::held(m.levels.last().sub));
        }
    }
}

/// Removed with all below it is gone. Where a `remove_all` of a path has
/// succeeded on a tree that nobody else changes, a resolution of the same
/// path on the tree that the removal has left ends, if it ends, with the
/// error that there is no such entry. This is shown for walks to the
/// parent of the path that ask for nothing, but for the entry itself,
/// that the tree answers otherwise after the removal.
pub proof fn removed_tree_is_gone(
    tree: Tree,
    resolver: Resolver,
    root: i32,
    path: Seq<u8>,
    nofollow: bool,
    fuel: nat,
    after: Tree,
    steps: nat,
    dir: i32,
    later: nat,
)
    requires
        tree.wf(),
        path.len() > 0,
        parent_and_name(path).1 is Some,
        run(
            remove_machine(),
            tree,
            RemoveAllView {
                stage: RemoveStage::Lookup,
                lookup: ParentLookupView::start(resolver, root, path),
                top: None,
                levels: Seq::empty(),
            },
            ReplyView::Start,
            fuel,
        ) == Some((after, Ok::<(), ErrorView>(()))),
        run(
            walk_machine(),
            tree,
            WalkView::start(root, parent_and_name(path).0, resolver.flags, false, false),
            ReplyView::Start,
            steps,
        ) matches Some((_, Ok(reached))) && reached.handle == dir,
        !touches(
            tree,
            WalkView::start(root, parent_and_name(path).0, resolver.flags, false, false),
            ReplyView::Start,
            steps,
            changed_answers(tree, after).remove(open_entry(dir, parent_and_name(path).1->0)),
        ),
    ensures
        match run(
            resolution_machine(),
            after,
            ResolutionView::start(resolver, root, path, nofollow),
            ReplyView::Start,
            later,
        ) {
            Some((_, result)) => result matches Err(e) && e.kind() == ErrorKind::OsError(
                Some(ENOENT),
            ),
            None => true,
        },
{
    let m = RemoveAllView {
        stage: RemoveStage::Lookup,
        lookup: ParentLookupView::start(resolver, root, path),
        top: None,
        levels: Seq::empty(),
    };
    let parent = parent_and_name(path).0;
    let name = parent_and_name(path).1->0;
    let w = WalkView::start(root, parent, resolver.flags, false, false);
    resolution_starts_in_order(tree, resolver, root, parent, false);
    let found = removal_lookup_splits(tree, m, ReplyView::Start, fuel);
    let walked = parent_was_walked(tree, resolver, root, path, found.0, found.1);
    crate::model::run_is_deterministic(walk_machine(), tree, w, ReplyView::Start, walked, steps);
    assert(found.0 == dir);
    let (first, answer) = tree.unlink(dir, name, 0);
    let unlinking = found.2;
    let left = (fuel - found.1) as nat;
    assert(tree.is_dir(dir)) by {
        if !tree.is_dir(dir) {
            assert(unlinking.step(answer).1.next is Done);
        }
    }
    assert(removing(first, unlinking, answer, dir, name));
    removal_ends_with_unlink(first, unlinking, answer, left, dir, name);
    assert(gone(after, dir, name));
    walk_of_path_is_longer_walk(after, root, path, resolver.flags, nofollow, 0);
    assert(single_name(name));
    crate::contained::flags_of_the_walk();
    assert(after.answer(open_entry(dir, name)) == ReplyView::Failed(ENOENT));
    let avoid = changed_answers(tree, after);
    assert(agrees(tree, after, avoid)) by {
        reveal(agrees);
    }
    assert forall|moves: nat|
        match #[trigger] run(
            walk_machine(),
            after,
            WalkView::start(root, path, resolver.flags, nofollow, false),
            ReplyView::Start,
            moves,
        ) {
            Some((_, result)) => result matches Err(e) && e.kind() == ErrorKind::OsError(
                Some(ENOENT),
            ),
            None => true,
        } by {
        longer_walk_finds_nothing(
            tree,
            after,
            avoid,
            dir,
            name,
            w,
            ReplyView::Start,
            ReplyView::Start,
            nofollow,
            steps,
            moves,
        );
        walk_of_path_is_longer_walk(after, root, path, resolver.flags, nofollow, moves);
    }
    resolution_finds_nothing(after, resolver, root, path, nofollow, later);
}

} // verus!
