//! `mkdir_all` a second time: on a tree that nobody else changes, what the
//! first call has made the second call finds, and makes nothing.

use vstd::prelude::*;
use crate::contained::{
    answers, contains, pending, same_setup, step_keeps_config, walk_inv, walk_machine,
    walk_step_is_kept,
};
use crate::effects::{
    agrees, agrees_on, answers_with_entry, can_create, child_is_within, names_inodes, open_entry,
};
use crate::measure::{
    consume_is_measured, in_step, no_stale_dotdot, noop_counts_no_step, retired_keeps_measure,
    step_is_paced, sum_tails,
};
use crate::path::{dot, dotdot, within};
use crate::symlink_stack::{sum_consumed, sums_are_natural, ComponentKind};
use crate::remove_all::single_name;
use crate::sys::{FileKind, InodeId};
use crate::error::ErrorView;
use crate::mkdir_all::{
    has_dotdot, named, names_something, MkdirAllView, MkdirStage, DIRECTORY_MODE_BITS, MODE_BITS,
};
use crate::model::{run, Tree};
use crate::contained::{
    resolution_answers, resolution_inv, resolution_machine, resolution_starts_in_order,
    resolution_step_is_kept,
};
use crate::effects::{
    lead, longer_walk_finds_entry, nothing_is_untouched, resolution_runs_as_walk,
};
use crate::prefix::longer;
use crate::resolver::{ResolutionView, Resolver, ResolverBackend};
use crate::step::{NextView, StepView};
use crate::sys::{ReplyView, SyscallView, O_DIRECTORY};
use crate::walk::{PartialView, Phase, WalkView};

verus! {

/// `mkdir_all` as an operation to run.
pub open spec fn mkdir_machine() -> spec_fn(MkdirAllView, ReplyView) -> (
    MkdirAllView,
    StepView<i32>,
) {
    |m: MkdirAllView, reply: ReplyView| m.step(reply)
}

/// The handle that a walk has ended with.
pub open spec fn handle_of(outcome: Option<(Tree, Result<PartialView, ErrorView>)>) -> i32 {
    match outcome {
        Some((_, Ok(reached))) => reached.handle,
        _ => 0,
    }
}

/// Whether a mode is one that `mkdir_all` accepts.
pub open spec fn mode_is_accepted(perm: u32) -> bool {
    perm & !MODE_BITS == 0 && perm & !DIRECTORY_MODE_BITS == 0
}

/// Where the walk of a `mkdir_all` ends with a handle to a directory and
/// has left no component that names something, the `mkdir_all` ends with
/// that directory, one move later, and leaves the tree as it is.
proof fn walking_accepts(tree: Tree, m: MkdirAllView, reply: ReplyView, steps: nat)
    requires
        m.stage == MkdirStage::Walking,
        m.found is None,
        m.current is None,
        walk_inv(tree, m.walk),
        answers(tree, m.walk, reply),
        run(walk_machine(), tree, m.walk, reply, steps) matches Some((_, Ok(reached))) && named(
            reached.remaining,
        ).len() == 0 && tree.is_dir(reached.handle),
    ensures
        run(mkdir_machine(), tree, m, reply, steps + 1) == Some(
            (
                tree,
                Ok::<i32, ErrorView>(
                    handle_of(run(walk_machine(), tree, m.walk, reply, steps)),
                ),
            ),
        ),
    decreases steps,
{
    let (walk, step) = m.walk.step(reply);
    walk_step_is_kept(tree, m.walk, reply);
    let next = MkdirAllView { walk, ..m };
    match step.next {
        NextView::Call(call) => {
            tree.reads_leave(call);
            assert(m.step(reply) == (next, StepView::<i32>::call(step.retired, call)));
            assert(run(walk_machine(), tree, m.walk, reply, steps) == run(
                walk_machine(),
                tree,
                walk,
                tree.answer(call),
                (steps - 1) as nat,
            ));
            walking_accepts(tree, next, tree.answer(call), (steps - 1) as nat);
            assert(run(mkdir_machine(), tree, m, reply, steps + 1) == run(
                mkdir_machine(),
                tree,
                next,
                tree.answer(call),
                steps,
            ));
        },
        NextView::Done(Ok(reached)) => {
            let handle = reached.handle;
            let call = SyscallView::Reopen { fd: handle, flags: O_DIRECTORY };
            let opened = MkdirAllView {
                stage: MkdirStage::Reopening,
                found: Some(handle),
                parts: named(reached.remaining),
                ..next
            };
            assert(m.step(reply) == (opened, StepView::<i32>::call(step.retired, call)));
            assert(O_DIRECTORY & O_DIRECTORY != 0) by (bit_vector);
            assert(tree.perform(call) == (tree, ReplyView::Fd(handle)));
            assert(!has_dotdot(opened.parts));
            let (last, out) = opened.step(ReplyView::Fd(handle));
            assert(out.next == NextView::<i32>::Done(Ok(handle)));
            assert(run(mkdir_machine(), tree, opened, ReplyView::Fd(handle), steps) == Some(
                (tree, Ok::<i32, ErrorView>(handle)),
            ));
            assert(run(mkdir_machine(), tree, m, reply, steps + 1) == run(
                mkdir_machine(),
                tree,
                opened,
                ReplyView::Fd(handle),
                steps,
            ));
        },
        NextView::Done(Err(_)) => {},
    }
}

/// What exists is accepted. Where the partial walk of a path ends, on a
/// tree that nobody else changes, with a handle to a directory and with
/// no component left that names something, a `mkdir_all` of that path
/// with a mode that it accepts ends with that directory and leaves the
/// tree as it is: it makes nothing.
pub proof fn existing_is_accepted(
    tree: Tree,
    resolver: Resolver,
    root: i32,
    path: Seq<u8>,
    perm: u32,
    steps: nat,
)
    requires
        tree.wf(),
        mode_is_accepted(perm),
        run(
            walk_machine(),
            tree,
            WalkView::start(root, path, resolver.flags, false, true),
            ReplyView::Start,
            steps,
        ) matches Some((_, Ok(reached))) && named(reached.remaining).len() == 0 && tree.is_dir(
            reached.handle,
        ),
    ensures
        run(
            mkdir_machine(),
            tree,
            MkdirAllView::start(resolver, root, path, perm),
            ReplyView::Start,
            steps + 1,
        ) == Some(
            (
                tree,
                Ok::<i32, ErrorView>(
                    handle_of(
                        run(
                            walk_machine(),
                            tree,
                            WalkView::start(root, path, resolver.flags, false, true),
                            ReplyView::Start,
                            steps,
                        ),
                    ),
                ),
            ),
        ),
{
    let m = MkdirAllView::start(resolver, root, path, perm);
    let walking = MkdirAllView { stage: MkdirStage::Walking, ..m };
    assert(m.step(ReplyView::Start) == walking.step(ReplyView::Start));
    walking_accepts(tree, walking, ReplyView::Start, steps);
    assert(run(mkdir_machine(), tree, m, ReplyView::Start, steps + 1) == run(
        mkdir_machine(),
        tree,
        walking,
        ReplyView::Start,
        steps + 1,
    ));
}

/// What the tree answers with when the entry `name` of `dir` is opened: the
/// inode of the entry, if there is one.
pub open spec fn entered(tree: Tree, dir: i32, name: Seq<u8>) -> i32 {
    match tree.answer(open_entry(dir, name)) {
        ReplyView::Fd(fd) => fd,
        _ => 0,
    }
}

/// Whether the directories `parts` can be made one inside the other, the
/// first of them in `dir`.
pub open spec fn can_grow(tree: Tree, dir: i32, parts: Seq<Seq<u8>>) -> bool
    decreases parts.len(),
{
    if parts.len() == 0 {
        true
    } else {
        let (made, reply) = tree.create(dir, parts[0], FileKind::Directory, Seq::empty());
        reply == ReplyView::Done && can_grow(made, entered(made, dir, parts[0]), parts.skip(1))
    }
}

/// The tree after the directories `parts` were made one inside the other,
/// the first of them in `dir`, and the last of them.
pub open spec fn grown(tree: Tree, dir: i32, parts: Seq<Seq<u8>>) -> (Tree, i32)
    decreases parts.len(),
{
    if parts.len() == 0 {
        (tree, dir)
    } else {
        let made = tree.create(dir, parts[0], FileKind::Directory, Seq::empty()).0;
        grown(made, entered(made, dir, parts[0]), parts.skip(1))
    }
}

/// Whether the names `parts` lead, one after the other, from the directory
/// `dir` through directories within the root to the directory `last`.
pub open spec fn descends(tree: Tree, root: i32, dir: i32, parts: Seq<Seq<u8>>, last: i32) -> bool
    decreases parts.len(),
{
    if parts.len() == 0 {
        last == dir
    } else {
        let next = entered(tree, dir, parts[0]);
        &&& tree.answer(open_entry(dir, parts[0])) == ReplyView::Fd(next)
        &&& tree.is_dir(next)
        &&& contains(tree, root, next)
        &&& descends(tree, root, next, parts.skip(1), last)
    }
}

/// A tree that has all of another and says the same of it.
pub open spec fn extends(tree: Tree, after: Tree) -> bool {
    forall|fd: i32| #[trigger]
        tree.has(fd) ==> after.has(fd) && after.nodes[fd].path == tree.nodes[fd].path
            && after.nodes[fd].kind == tree.nodes[fd].kind
}

/// What was made is there: the tree that has grown extends the tree that
/// it has grown from and is closed; it answers the calls of a walk on the
/// inodes of the old tree as the old tree does, but where the first of the
/// new directories is opened; and the names of the new directories lead
/// from the directory that they were made in, through directories within
/// the root, to the last of them.
pub proof fn grown_is_there(tree: Tree, root: i32, dir: i32, parts: Seq<Seq<u8>>)
    requires
        tree.wf(),
        contains(tree, root, dir),
        tree.is_dir(dir),
        can_grow(tree, dir, parts),
        parts.len() > 0,
    ensures
        ({
            let (after, last) = grown(tree, dir, parts);
            &&& after.wf()
            &&& extends(tree, after)
            &&& agrees(tree, after, set![open_entry(dir, parts[0])])
            &&& descends(after, root, dir, parts, last)
            &&& after.is_dir(last)
            &&& single_name(parts[0])
            &&& tree.answer(open_entry(dir, parts[0])) == ReplyView::Failed(crate::sys::ENOENT)
        }),
    decreases parts.len(),
{
    let name = parts[0];
    let kind = FileKind::Directory;
    let (made, reply) = tree.create(dir, name, kind, Seq::empty());
    let new = choose|new: i32| tree.free(new);
    let id = choose|id: InodeId| tree.unused(id);
    assert(made == tree.with_entry(dir, name, new, kind, id, Seq::empty()));
    assert(can_create(tree, dir, name, new));
    answers_with_entry(tree, dir, name, new, kind, id, Seq::empty());
    assert(entered(made, dir, name) == new);
    child_is_within(tree.nodes[root].path, tree.nodes[dir].path, name);
    assert(contains(made, root, new));
    let rest = parts.skip(1);
    let (after, last) = grown(tree, dir, parts);
    assert(grown(tree, dir, parts) == grown(made, new, rest));
    if rest.len() == 0 {
        assert(grown(made, new, rest) == (made, new));
        assert(descends(made, root, new, rest, last));
    } else {
        grown_is_there(made, root, new, rest);
        let first = set![open_entry(dir, name)];
        let second = set![open_entry(new, rest[0])];
        assert(agrees(tree, after, first)) by {
            reveal(agrees);
            assert forall|call: SyscallView|
                names_inodes(tree, call) && !first.contains(call) implies #[trigger] after.answer(
                call,
            ) == tree.answer(call) by {
                assert(names_inodes(made, call));
                assert(!second.contains(call));
                assert(made.answer(call) == tree.answer(call));
            }
        }
        assert(after.answer(open_entry(dir, name)) == ReplyView::Fd(new)) by {
            agrees_on(made, after, second, open_entry(dir, name));
        }
        assert(entered(after, dir, name) == new);
        assert(extends(tree, after));
        assert(contains(after, root, new));
        assert(after.is_dir(new));
    }
}

/// Whether none of the components is `..`.
pub open spec fn no_dotdot(components: Seq<Seq<u8>>) -> bool {
    forall|i: int| 0 <= i < components.len() ==> #[trigger] components[i] != dotdot()
}

/// The components that name something are the first of the components,
/// if it names something, and those of the rest.
pub proof fn named_of_first(components: Seq<Seq<u8>>)
    requires
        components.len() > 0,
    ensures
        names_something(components[0]) ==> named(components) == seq![components[0]] + named(
            components.skip(1),
        ),
        !names_something(components[0]) ==> named(components) == named(components.skip(1)),
{
    let first = seq![components[0]];
    let pred = |c: Seq<u8>| names_something(c);
    assert(components =~= first + components.skip(1));
    Seq::filter_distributes_over_add(first, components.skip(1), pred);
    reveal_with_fuel(Seq::filter, 2);
    assert(first.drop_last() =~= Seq::<Seq<u8>>::empty());
    if names_something(components[0]) {
        assert(first.filter(pred) =~= first);
    } else {
        assert(first.filter(pred) =~= Seq::<Seq<u8>>::empty());
        assert(Seq::<Seq<u8>>::empty() + named(components.skip(1)) =~= named(
            components.skip(1),
        ));
    }
}

/// Where no component that names something is `..`, no component is.
pub proof fn no_dotdot_among_named(components: Seq<Seq<u8>>)
    requires
        !has_dotdot(named(components)),
    ensures
        no_dotdot(components),
    decreases components.len(),
{
    if components.len() > 0 {
        named_of_first(components);
        let rest = components.skip(1);
        if names_something(components[0]) {
            let all = seq![components[0]] + named(rest);
            assert(all[0] == components[0]);
            if has_dotdot(named(rest)) {
                let i = choose|i: int| 0 <= i < named(rest).len() && named(rest)[i] == dotdot();
                assert(all[i + 1] == dotdot());
            }
        }
        no_dotdot_among_named(rest);
        assert forall|i: int| 0 <= i < components.len() implies #[trigger] components[i]
            != dotdot() by {
            if i > 0 {
                assert(rest[i - 1] == components[i]);
            } else if components[0] == dotdot() {
                assert(dotdot().len() == 2);
                assert(dot().len() == 1);
            }
        }
    }
}

/// What a walk that has only names and components that lead nowhere ahead
/// does when it goes on: it passes the components that lead nowhere, and
/// asks for the first name to be opened; where there is no name, it ends
/// with its current handle.
pub open spec fn skipped(w: WalkView, dir: i32, out: (WalkView, StepView<PartialView>)) -> bool {
    if named(w.remaining).len() == 0 {
        out.1.next == NextView::<PartialView>::Done(
            Ok(PartialView { handle: dir, remaining: Seq::empty() }),
        )
    } else {
        let next = out.0;
        &&& out.1.next == NextView::<PartialView>::Call(
            open_entry(dir, named(w.remaining)[0]),
        )
        &&& next.phase == Phase::Open
        &&& next.name == named(w.remaining)[0]
        &&& !next.dotdot
        &&& next.current == Some(dir)
        &&& next.candidate is None
        &&& next.ancestor is None
        &&& named(next.remaining) == named(w.remaining).skip(1)
        &&& no_dotdot(next.remaining)
        &&& in_step(next)
        &&& sum_consumed(next.symlinks.frames) <= sum_consumed(w.symlinks.frames)
        &&& same_setup(w, next)
        &&& next.root_id == w.root_id
    }
}

proof fn advance_skips(w: WalkView, retired: Seq<i32>, dir: i32)
    requires
        w.symlinks.wf(),
        sum_tails(w.symlinks.frames) <= w.remaining.len(),
        no_dotdot(w.remaining),
        w.current == Some(dir),
        w.candidate is None,
        w.ancestor is None,
    ensures
        skipped(w, dir, w.advance(retired)),
    decreases w.remaining.len(),
{
    sums_are_natural(w.symlinks.frames);
    crate::measure::tails_of_push(w.symlinks.frames, w.symlinks.frames[0]);
    if w.remaining.len() == 0 {
        assert(named(w.remaining).len() == 0) by {
            reveal(Seq::filter);
        }
        retired_keeps_measure(w.symlinks);
    } else {
        let name = w.remaining[0];
        let rest = w.remaining.skip(1);
        named_of_first(w.remaining);
        assert(name != dotdot());
        assert forall|i: int| 0 <= i < rest.len() implies #[trigger] rest[i] != dotdot() by {
            assert(rest[i] == w.remaining[i + 1]);
        }
        if name.len() == 0 || name == dot() {
            consume_is_measured(w.symlinks, ComponentKind::NoOp);
            noop_counts_no_step(w.symlinks);
            crate::contained::stack_moves_keep_wf(w.symlinks);
            match w.symlinks.consume(ComponentKind::NoOp) {
                Ok(symlinks) => {
                    let next = WalkView { remaining: rest, symlinks, ..w };
                    advance_skips(next, retired, dir);
                },
                Err(e) => {},
            }
        } else {
            let all = seq![name] + named(rest);
            assert(all[0] == name);
            assert(all.skip(1) =~= named(rest));
        }
    }
}

/// Down the new directories. A walk that opens the first of the names
/// `parts`, and has only the rest of them and components that lead
/// nowhere ahead, on a tree in which the names lead through directories
/// within the root, ends with a handle to the last of the directories,
/// and has nothing left.
pub proof fn walk_descends(tree: Tree, w: WalkView, dir: i32, parts: Seq<Seq<u8>>, last: i32)
    requires
        tree.wf(),
        parts.len() > 0,
        w.phase == Phase::Open,
        !w.dotdot,
        w.name == parts[0],
        w.current == Some(dir),
        w.candidate is None,
        w.ancestor is None,
        named(w.remaining) == parts.skip(1),
        no_dotdot(w.remaining),
        in_step(w),
        sum_consumed(w.symlinks.frames) + parts.len() <= usize::MAX,
        tree.has(w.root),
        descends(tree, w.root, dir, parts, last),
    ensures
        run(
            walk_machine(),
            tree,
            w,
            ReplyView::Fd(entered(tree, dir, parts[0])),
            4 * parts.len(),
        ) == Some(
            (tree, Ok::<PartialView, ErrorView>(PartialView { handle: last, remaining: Seq::empty() })),
        ),
    decreases parts.len(),
{
    reveal(WalkView::step);
    let entry = entered(tree, dir, parts[0]);
    crate::model::kind_of_mode_of(FileKind::Directory);
    let (w1, s1) = w.step(ReplyView::Fd(entry));
    let call1 = SyscallView::Fstat { fd: entry };
    assert(s1.next == NextView::<PartialView>::Call(call1));
    let reply1 = tree.answer(call1);
    tree.reads_leave(call1);
    let (w2, s2) = w1.step(reply1);
    let call2 = SyscallView::FdPath { fd: w.root };
    assert(s2.next == NextView::<PartialView>::Call(call2));
    let reply2 = tree.answer(call2);
    tree.reads_leave(call2);
    let (w3, s3) = w2.step(reply2);
    let call3 = SyscallView::FdPath { fd: entry };
    assert(s3.next == NextView::<PartialView>::Call(call3));
    let reply3 = tree.answer(call3);
    tree.reads_leave(call3);
    let (w4, s4) = w3.step(reply3);
    assert(w3.phase == Phase::CandidatePath);
    assert(w3.probe_path == tree.nodes[w.root].path);
    assert(within(w3.probe_path, tree.nodes[entry].path));
    sums_are_natural(w.symlinks.frames);
    consume_is_measured(w.symlinks, ComponentKind::Directory);
    crate::contained::stack_moves_keep_wf(w.symlinks);
    assert(w3.symlinks == w.symlinks);
    assert(w3.candidate_kind == FileKind::Directory);
    let symlinks = w.symlinks.consume(ComponentKind::Directory)->Ok_0;
    let from = WalkView {
        symlinks,
        current: Some(entry),
        current_id: w3.candidate_id,
        root_path: w3.probe_path,
        current_path: tree.nodes[entry].path,
        contained: crate::walk::Contained::ByPath,
        candidate: None,
        ancestor: None,
        ..w3
    };
    let retired = crate::step::held(w3.current) + crate::step::held(w3.ancestor);
    assert(w3.step(reply3) == from.advance(retired));
    advance_skips(from, retired, entry);
    assert(run(walk_machine(), tree, w, ReplyView::Fd(entry), 4 * parts.len()) == run(
        walk_machine(),
        tree,
        w1,
        reply1,
        (4 * parts.len() - 1) as nat,
    ));
    assert(run(walk_machine(), tree, w1, reply1, (4 * parts.len() - 1) as nat) == run(
        walk_machine(),
        tree,
        w2,
        reply2,
        (4 * parts.len() - 2) as nat,
    ));
    assert(run(walk_machine(), tree, w2, reply2, (4 * parts.len() - 2) as nat) == run(
        walk_machine(),
        tree,
        w3,
        reply3,
        (4 * parts.len() - 3) as nat,
    ));
    let rest = parts.skip(1);
    assert(descends(tree, w.root, entry, rest, last));
    if rest.len() == 0 {
        assert(last == entry);
    } else {
        let call4 = open_entry(entry, rest[0]);
        assert(s4.next == NextView::<PartialView>::Call(call4));
        crate::contained::flags_of_the_walk();
        tree.reads_leave(call4);
        assert(rest.skip(1) =~= parts.skip(1).skip(1));
        walk_descends(tree, w4, entry, rest, last);
        assert(run(walk_machine(), tree, w3, reply3, (4 * parts.len() - 3) as nat) == run(
            walk_machine(),
            tree,
            w4,
            ReplyView::Fd(entered(tree, entry, rest[0])),
            (4 * parts.len() - 4) as nat,
        ));
        assert(4 * rest.len() == 4 * parts.len() - 4);
    }
}

/// The components that a walk has ended with.
pub open spec fn left_of(outcome: Option<(Tree, Result<PartialView, ErrorView>)>) -> Seq<Seq<u8>> {
    match outcome {
        Some((_, Ok(reached))) => reached.remaining,
        _ => Seq::empty(),
    }
}

/// Whether a walk has ended with a handle.
pub open spec fn reached(outcome: Option<(Tree, Result<PartialView, ErrorView>)>) -> bool {
    outcome matches Some((_, Ok(_)))
}

proof fn advance_leaves_nothing(w: WalkView, retired: Seq<i32>)
    ensures
        w.advance(retired).1.next matches NextView::Done(Ok(end)) ==> end.remaining.len() == 0,
    decreases w.remaining.len(),
{
    if w.remaining.len() > 0 {
        let name = w.remaining[0];
        let rest = w.remaining.skip(1);
        if name.len() == 0 || name == dot() {
            match w.symlinks.consume(ComponentKind::NoOp) {
                Ok(symlinks) => {
                    advance_leaves_nothing(WalkView { remaining: rest, symlinks, ..w }, retired);
                },
                Err(e) => {},
            }
        } else if name == dotdot() {
            match w.symlinks.pop_for_dotdot() {
                Ok((symlinks, verdict)) => {
                    let next = WalkView { remaining: rest, symlinks, ..w };
                    if verdict is Suppress || w.current_id == w.root_id {
                        advance_leaves_nothing(next, retired);
                    }
                },
                Err(e) => {},
            }
        }
    }
}

proof fn accept_leaves_nothing(
    w: WalkView,
    contained: crate::walk::Contained,
    root_path: Seq<u8>,
    path: Seq<u8>,
)
    ensures
        w.accept(contained, root_path, path).1.next matches NextView::Done(Ok(end))
            ==> end.remaining.len() == 0,
{
    let retired = crate::step::held(w.current) + crate::step::held(w.ancestor);
    let next = WalkView {
        current: w.candidate,
        current_id: w.candidate_id,
        root_path,
        current_path: path,
        contained,
        candidate: None,
        ancestor: None,
        ..w
    };
    if w.dotdot {
        advance_leaves_nothing(next, retired);
    } else {
        match w.symlinks.consume(crate::walk::component_kind(w.candidate_kind)) {
            Ok(symlinks) => {
                advance_leaves_nothing(WalkView { symlinks, ..next }, retired);
            },
            Err(e) => {},
        }
    }
}

/// Where a walk stops. A walk ends with components left only where a
/// name could not be opened: it is a partial walk, it ends with the
/// directory in which it stands, and the name is the first of what is
/// left.
pub proof fn stop_has_a_shape(w: WalkView, reply: ReplyView)
    requires
        w.step(reply).1.next matches NextView::Done(Ok(end)) && end.remaining.len() > 0,
    ensures
        w.phase == Phase::Open,
        w.partial,
        !w.dotdot,
        reply is Failed,
        w.step(reply).1.next == NextView::<PartialView>::Done(
            Ok(PartialView { handle: w.current->0, remaining: seq![w.name] + w.remaining }),
        ),
        w.current is Some,
{
    reveal(WalkView::step);
    match w.phase {
        Phase::RootDup => {
            match reply {
                ReplyView::Fd(fd) => {
                    advance_leaves_nothing(
                        WalkView {
                            current: Some(fd),
                            current_id: w.root_id,
                            contained: crate::walk::Contained::Duplicate,
                            root_path: Seq::empty(),
                            current_path: Seq::empty(),
                            ..w
                        },
                        Seq::empty(),
                    );
                },
                _ => {},
            }
        },
        Phase::Reset => {
            match reply {
                ReplyView::Fd(fd) => {
                    advance_leaves_nothing(
                        WalkView {
                            current: Some(fd),
                            current_id: w.root_id,
                            contained: crate::walk::Contained::Duplicate,
                            root_path: Seq::empty(),
                            current_path: Seq::empty(),
                            ..w
                        },
                        Seq::empty(),
                    );
                },
                _ => {},
            }
        },
        Phase::Target => {
            match reply {
                ReplyView::Bytes(target) => {
                    if target.len() > 0 && target.len() <= usize::MAX && crate::path::split(
                        target,
                    ).len() <= usize::MAX {
                        match w.symlinks.push(
                            w.current_id,
                            w.name,
                            crate::path::split(target).len() as usize,
                            target.len() as usize,
                        ) {
                            Ok(symlinks) => {
                                let next = WalkView {
                                    remaining: crate::path::split(target) + w.remaining,
                                    symlinks,
                                    candidate: None,
                                    ..w
                                };
                                if !crate::path::absolute(target) {
                                    advance_leaves_nothing(next, crate::step::held(w.candidate));
                                }
                            },
                            Err(e) => {},
                        }
                    }
                },
                _ => {},
            }
        },
        Phase::RootPath => {
            accept_leaves_nothing(
                w,
                crate::walk::Contained::ByParent,
                Seq::empty(),
                Seq::empty(),
            );
            accept_leaves_nothing(
                w,
                crate::walk::Contained::ByAncestry,
                Seq::empty(),
                Seq::empty(),
            );
        },
        Phase::CandidatePath => {
            match reply {
                ReplyView::Bytes(path) => {
                    accept_leaves_nothing(w, crate::walk::Contained::ByPath, w.probe_path, path);
                },
                _ => {},
            }
            accept_leaves_nothing(
                w,
                crate::walk::Contained::ByParent,
                Seq::empty(),
                Seq::empty(),
            );
            accept_leaves_nothing(
                w,
                crate::walk::Contained::ByAncestry,
                Seq::empty(),
                Seq::empty(),
            );
        },
        Phase::AncestorStat => {
            accept_leaves_nothing(
                w,
                crate::walk::Contained::ByAncestry,
                Seq::empty(),
                Seq::empty(),
            );
        },
        _ => {},
    }
}

/// What a walk stops at is missing. Where a walk on a tree ends with
/// components left, the first of them is a name, not `..`, and the tree
/// has no entry of that name in the directory that the walk ends with.
pub proof fn stop_is_missing(tree: Tree, w: WalkView, reply: ReplyView, fuel: nat)
    requires
        walk_inv(tree, w),
        answers(tree, w, reply),
        reached(run(walk_machine(), tree, w, reply, fuel)),
        left_of(run(walk_machine(), tree, w, reply, fuel)).len() > 0,
    ensures
        ({
            let outcome = run(walk_machine(), tree, w, reply, fuel);
            &&& tree.answer(open_entry(handle_of(outcome), left_of(outcome)[0])) is Failed
            &&& names_something(left_of(outcome)[0])
            &&& left_of(outcome)[0] != dotdot()
        }),
    decreases fuel,
{
    if fuel > 0 {
        walk_step_is_kept(tree, w, reply);
        let (next, out) = w.step(reply);
        match out.next {
            NextView::Call(call) => {
                tree.reads_leave(call);
                stop_is_missing(tree, next, tree.answer(call), (fuel - 1) as nat);
            },
            NextView::Done(Ok(end)) => {
                stop_has_a_shape(w, reply);
                let left = seq![w.name] + w.remaining;
                assert(left[0] == w.name);
            },
            NextView::Done(Err(_)) => {},
        }
    }
}

/// What the walk on the grown tree does up to where the walk on the tree
/// stopped: it makes the same moves, and stands, where the other stopped,
/// before the same name, with another answer.
pub open spec fn stands_before(
    w: WalkView,
    l: WalkView,
    dir: i32,
    name: Seq<u8>,
    rest: Seq<Seq<u8>>,
) -> bool {
    &&& l.phase == Phase::Open
    &&& l.name == name
    &&& l.current == Some(dir)
    &&& l.remaining == rest
    &&& !l.dotdot
    &&& l.candidate is None
    &&& l.ancestor is None
    &&& in_step(l)
    &&& l.root == w.root
}

/// The same walk on the grown tree. Where a partial walk on a tree stops
/// before a name, the same walk on a changed tree that answers as the
/// tree does, but where that name is opened, makes the same moves up to
/// there, and goes on from there with the answer of the changed tree.
pub proof fn stops_at(
    tree: Tree,
    after: Tree,
    dir: i32,
    name: Seq<u8>,
    rest: Seq<Seq<u8>>,
    w: WalkView,
    reply: ReplyView,
    other: ReplyView,
    fuel: nat,
    count: nat,
    extra: nat,
) -> (found: (WalkView, nat))
    requires
        walk_inv(tree, w),
        answers(tree, w, reply),
        in_step(w),
        no_stale_dotdot(w),
        tree.has(w.root),
        run(walk_machine(), tree, w, reply, fuel) == Some(
            (
                tree,
                Ok::<PartialView, ErrorView>(
                    PartialView { handle: dir, remaining: seq![name] + rest },
                ),
            ),
        ),
        tree.answer(open_entry(dir, name)) is Failed,
        name != dotdot(),
        agrees(tree, after, set![open_entry(dir, name)]),
        match pending(w) {
            Some(call) => other == after.answer(call),
            None => other == reply,
        },
        sum_consumed(w.symlinks.frames) <= count,
    ensures
        stands_before(w, found.0, dir, name, rest),
        sum_consumed(found.0.symlinks.frames) <= count + found.1,
        found.1 + 1 <= fuel,
        run(walk_machine(), after, w, other, found.1 + extra) == run(
            walk_machine(),
            after,
            found.0,
            after.answer(open_entry(dir, name)),
            extra,
        ),
    decreases fuel,
{
    walk_step_is_kept(tree, w, reply);
    step_is_paced(w, reply);
    step_keeps_config(w, reply);
    let (next, out) = w.step(reply);
    match out.next {
        NextView::Done(Ok(end)) => {
            let left = seq![name] + rest;
            assert(left.len() > 0);
            stop_has_a_shape(w, reply);
            let mine = seq![w.name] + w.remaining;
            assert(mine == left);
            assert(mine[0] == w.name && left[0] == name);
            assert(mine.skip(1) =~= w.remaining);
            assert(left.skip(1) =~= rest);
            (w, 0)
        },
        NextView::Call(call) => {
            tree.reads_leave(call);
            after.reads_leave(call);
            match pending(w) {
                Some(asked) => {
                    if asked == open_entry(dir, name) {
                        reveal(WalkView::step);
                        assert(false);
                    }
                    crate::effects::pending_names_inodes(tree, w);
                    agrees_on(tree, after, set![open_entry(dir, name)], asked);
                },
                None => {},
            }
            assert(other == reply);
            let inner = stops_at(
                tree,
                after,
                dir,
                name,
                rest,
                next,
                tree.answer(call),
                after.answer(call),
                (fuel - 1) as nat,
                count + 1,
                extra,
            );
            assert(run(walk_machine(), after, w, other, inner.1 + 1 + extra) == run(
                walk_machine(),
                after,
                next,
                after.answer(call),
                inner.1 + extra,
            ));
            (inner.0, inner.1 + 1)
        },
        NextView::Done(Err(_)) => { (w, 0) },
    }
}

/// Whether a `mkdir_all` has ended with a handle.
pub open spec fn made(outcome: Option<(Tree, Result<i32, ErrorView>)>) -> bool {
    outcome matches Some((_, Ok(_)))
}

/// The call that opens a handle again as a directory.
pub open spec fn reopen_call(handle: i32) -> SyscallView {
    SyscallView::Reopen { fd: handle, flags: O_DIRECTORY }
}

/// What a `mkdir_all` that has succeeded has found where it set out: its
/// walk has ended with a handle, and the operation has gone on to open
/// that handle as a directory.
proof fn walking_splits(tree: Tree, m: MkdirAllView, reply: ReplyView, fuel: nat) -> (found: (
    PartialView,
    nat,
    MkdirAllView,
))
    requires
        m.stage == MkdirStage::Walking,
        m.found is None,
        m.current is None,
        walk_inv(tree, m.walk),
        answers(tree, m.walk, reply),
        made(run(mkdir_machine(), tree, m, reply, fuel)),
    ensures
        run(walk_machine(), tree, m.walk, reply, found.1) == Some(
            (tree, Ok::<PartialView, ErrorView>(found.0)),
        ),
        1 <= found.1 <= fuel,
        found.2.stage == MkdirStage::Reopening,
        found.2.found == Some(found.0.handle),
        found.2.current is None,
        found.2.parts == named(found.0.remaining),
        found.2.resolver == m.resolver,
        found.2.perm == m.perm,
        run(mkdir_machine(), tree, m, reply, fuel) == run(
            mkdir_machine(),
            tree,
            found.2,
            tree.answer(reopen_call(found.0.handle)),
            (fuel - found.1) as nat,
        ),
    decreases fuel,
{
    let (walk, step) = m.walk.step(reply);
    walk_step_is_kept(tree, m.walk, reply);
    let next = MkdirAllView { walk, ..m };
    match step.next {
        NextView::Call(call) => {
            tree.reads_leave(call);
            assert(m.step(reply) == (next, StepView::<i32>::call(step.retired, call)));
            let inner = walking_splits(tree, next, tree.answer(call), (fuel - 1) as nat);
            (inner.0, inner.1 + 1, inner.2)
        },
        NextView::Done(Ok(end)) => {
            let call = reopen_call(end.handle);
            let opened = MkdirAllView {
                stage: MkdirStage::Reopening,
                found: Some(end.handle),
                parts: named(end.remaining),
                ..next
            };
            assert(m.step(reply) == (opened, StepView::<i32>::call(step.retired, call)));
            tree.reads_leave(call);
            (end, 1, opened)
        },
        NextView::Done(Err(_)) => {
            (PartialView { handle: 0, remaining: Seq::empty() }, 0, m)
        },
    }
}

/// What a `mkdir_all` that has succeeded has found after it has made a
/// directory: the resolution of the directory has ended with a handle, and
/// the operation has gone on to open that handle as a directory.
proof fn opening_splits(tree: Tree, m: MkdirAllView, reply: ReplyView, fuel: nat) -> (found: (
    i32,
    nat,
    MkdirAllView,
))
    requires
        m.stage == MkdirStage::Opening,
        resolution_inv(tree, m.inner),
        resolution_answers(tree, m.inner, reply),
        made(run(mkdir_machine(), tree, m, reply, fuel)),
    ensures
        run(resolution_machine(), tree, m.inner, reply, found.1) == Some(
            (tree, Ok::<i32, ErrorView>(found.0)),
        ),
        1 <= found.1 <= fuel,
        found.2.stage == MkdirStage::Adopting,
        found.2.found == Some(found.0),
        found.2.current == m.current,
        found.2.parts == m.parts,
        found.2.resolver == m.resolver,
        found.2.perm == m.perm,
        run(mkdir_machine(), tree, m, reply, fuel) == run(
            mkdir_machine(),
            tree,
            found.2,
            tree.answer(reopen_call(found.0)),
            (fuel - found.1) as nat,
        ),
    decreases fuel,
{
    let (inner, step) = m.inner.step(reply);
    resolution_step_is_kept(tree, m.inner, reply);
    let next = MkdirAllView { inner, ..m };
    match step.next {
        NextView::Call(call) => {
            tree.reads_leave(call);
            assert(m.step(reply) == (next, StepView::<i32>::call(step.retired, call)));
            let deeper = opening_splits(tree, next, tree.answer(call), (fuel - 1) as nat);
            (deeper.0, deeper.1 + 1, deeper.2)
        },
        NextView::Done(Ok(handle)) => {
            let call = reopen_call(handle);
            let opened = MkdirAllView {
                stage: MkdirStage::Adopting,
                found: Some(handle),
                ..next
            };
            assert(m.step(reply) == (opened, StepView::<i32>::call(step.retired, call)));
            tree.reads_leave(call);
            (handle, 1, opened)
        },
        NextView::Done(Err(_)) => { (0, 0, m) },
    }
}

/// A walk that has nothing ahead ends with a duplicate of its root.
proof fn empty_walk_reaches_root(tree: Tree, w: WalkView)
    requires
        tree.is_dir(w.root),
        w.phase == Phase::Start,
        !w.empty,
        w.remaining.len() == 0,
        w.symlinks.frames.len() == 0,
    ensures
        run(walk_machine(), tree, w, ReplyView::Start, 3) == Some(
            (
                tree,
                Ok::<PartialView, ErrorView>(
                    PartialView { handle: w.root, remaining: Seq::empty() },
                ),
            ),
        ),
{
    reveal(WalkView::step);
    crate::model::kind_of_mode_of(FileKind::Directory);
    let (w1, s1) = w.step(ReplyView::Start);
    let call1 = SyscallView::Fstat { fd: w.root };
    assert(s1.next == NextView::<PartialView>::Call(call1));
    tree.reads_leave(call1);
    let reply1 = tree.answer(call1);
    let (w2, s2) = w1.step(reply1);
    let call2 = SyscallView::Dup { fd: w.root };
    assert(s2.next == NextView::<PartialView>::Call(call2));
    tree.reads_leave(call2);
    let reply2 = tree.answer(call2);
    let (w3, s3) = w2.step(reply2);
    assert(w2.symlinks.retired() == w2.symlinks);
    assert(s3.next == NextView::<PartialView>::Done(
        Ok(PartialView { handle: w.root, remaining: Seq::empty() }),
    ));
    assert(run(walk_machine(), tree, w2, reply2, 1) == Some(
        (
            tree,
            Ok::<PartialView, ErrorView>(PartialView { handle: w.root, remaining: Seq::empty() }),
        ),
    ));
    assert(run(walk_machine(), tree, w1, reply1, 2) == run(walk_machine(), tree, w2, reply2, 1));
    assert(run(walk_machine(), tree, w, ReplyView::Start, 3) == run(
        walk_machine(),
        tree,
        w1,
        reply1,
        2,
    ));
}

/// A name resolves to its entry. Where a name is, in a directory, the
/// entry of a directory, a resolution of the name in that directory that
/// ends with a handle ends with a handle to that entry.
proof fn name_resolves_to_entry(
    tree: Tree,
    resolver: Resolver,
    dir: i32,
    name: Seq<u8>,
    entry: i32,
    handle: i32,
    moves: nat,
)
    requires
        tree.wf(),
        tree.is_dir(dir),
        single_name(name),
        tree.answer(open_entry(dir, name)) == ReplyView::Fd(entry),
        tree.is_dir(entry),
        tree.nodes[entry].path == crate::model::child_path(tree.nodes[dir].path, name),
        run(
            resolution_machine(),
            tree,
            ResolutionView::start(resolver, dir, name, true),
            ReplyView::Start,
            moves,
        ) == Some((tree, Ok::<i32, ErrorView>(handle))),
    ensures
        handle == entry,
{
    let start = WalkView::start(dir, name, resolver.flags, true, false);
    let short = WalkView {
        remaining: Seq::empty(),
        ..WalkView::start(dir, name, resolver.flags, false, false)
    };
    crate::path::split_of_name(name);
    assert(longer(short, name, true, false).remaining =~= start.remaining);
    assert(longer(short, name, true, false) == start);
    empty_walk_reaches_root(tree, short);
    tree.closed_at(dir, name);
    assert(tree.nodes[dir].path.take(tree.nodes[dir].path.len() as int) =~= tree.nodes[dir].path);
    child_is_within(tree.nodes[dir].path, tree.nodes[dir].path, name);
    assert(agrees(tree, tree, Set::<SyscallView>::empty())) by {
        reveal(agrees);
    }
    nothing_is_untouched(tree, short, ReplyView::Start, 3);
    assert(crate::symlink_stack::nested(short.symlinks.frames));
    longer_walk_finds_entry(
        tree,
        tree,
        Set::empty(),
        dir,
        name,
        entry,
        short,
        ReplyView::Start,
        true,
        3,
    );
    resolution_runs_as_walk(tree, resolver, dir, name, true, moves);
    if resolver.backend != ResolverBackend::KernelNative {
        resolution_runs_as_walk(tree, resolver, dir, name, true, 7);
        crate::model::run_is_deterministic(
            resolution_machine(),
            tree,
            ResolutionView::start(resolver, dir, name, true),
            ReplyView::Start,
            moves,
            7 + lead(resolver.backend),
        );
    }
}

/// What a `mkdir_all` that has succeeded has made: the directories that
/// it had to make, one inside the other, and it has ended with the last
/// of them.
proof fn making_grows(tree: Tree, m: MkdirAllView, dir: i32, fuel: nat)
    requires
        tree.wf(),
        tree.is_dir(dir),
        m.stage == MkdirStage::Making,
        m.current == Some(dir),
        m.found is None,
        made(
            run(
                mkdir_machine(),
                tree.create(dir, m.part, FileKind::Directory, Seq::empty()).0,
                m,
                tree.create(dir, m.part, FileKind::Directory, Seq::empty()).1,
                fuel,
            ),
        ),
    ensures
        can_grow(tree, dir, seq![m.part] + m.parts),
        run(
            mkdir_machine(),
            tree.create(dir, m.part, FileKind::Directory, Seq::empty()).0,
            m,
            tree.create(dir, m.part, FileKind::Directory, Seq::empty()).1,
            fuel,
        ) == Some(
            (
                grown(tree, dir, seq![m.part] + m.parts).0,
                Ok::<i32, ErrorView>(grown(tree, dir, seq![m.part] + m.parts).1),
            ),
        ),
        m.parts.len() + 1 <= fuel,
    decreases m.parts.len(),
{
    let name = m.part;
    let all = seq![name] + m.parts;
    assert(all[0] == name);
    assert(all.skip(1) =~= m.parts);
    let kind = FileKind::Directory;
    let (grew, reply) = tree.create(dir, name, kind, Seq::empty());
    let (after_made, out) = m.step(reply);
    assert(reply == ReplyView::Done);
    let new = choose|new: i32| tree.free(new);
    let id = choose|id: InodeId| tree.unused(id);
    assert(grew == tree.with_entry(dir, name, new, kind, id, Seq::empty()));
    assert(can_create(tree, dir, name, new));
    answers_with_entry(tree, dir, name, new, kind, id, Seq::empty());
    assert(entered(grew, dir, name) == new);
    let fresh = ResolutionView::start(m.resolver, dir, name, true);
    let opening = MkdirAllView { stage: MkdirStage::Opening, inner: fresh, ..m };
    assert(m.step(reply) == opening.step(ReplyView::Start));
    resolution_starts_in_order(grew, m.resolver, dir, name, true);
    assert(run(mkdir_machine(), grew, m, reply, fuel) == run(
        mkdir_machine(),
        grew,
        opening,
        ReplyView::Start,
        fuel,
    ));
    let found = opening_splits(grew, opening, ReplyView::Start, fuel);
    let adopting = found.2;
    name_resolves_to_entry(grew, m.resolver, dir, name, new, found.0, found.1);
    assert(found.0 == new);
    assert(O_DIRECTORY & O_DIRECTORY != 0) by (bit_vector);
    assert(grew.answer(reopen_call(new)) == ReplyView::Fd(new));
    let left = (fuel - found.1) as nat;
    let (next, last) = adopting.step(ReplyView::Fd(new));
    if m.parts.len() == 0 {
        assert(grown(tree, dir, all) == grown(grew, new, m.parts));
        assert(grown(grew, new, m.parts) == (grew, new));
        assert(last.next == NextView::<i32>::Done(Ok(new)));
        assert(can_grow(grew, new, m.parts));
    } else {
        let call = SyscallView::MkdirAt { dir: new, name: m.parts[0], mode: m.perm };
        assert(last.next == NextView::<i32>::Call(call));
        assert(next.stage == MkdirStage::Making);
        assert(next.part == m.parts[0]);
        assert(next.parts == m.parts.skip(1));
        assert(grew.perform(call) == grew.create(new, m.parts[0], kind, Seq::empty()));
        assert(run(mkdir_machine(), grew, adopting, ReplyView::Fd(new), left) == run(
            mkdir_machine(),
            grew.create(new, m.parts[0], kind, Seq::empty()).0,
            next,
            grew.create(new, m.parts[0], kind, Seq::empty()).1,
            (left - 1) as nat,
        ));
        making_grows(grew, next, new, (left - 1) as nat);
        assert(seq![next.part] + next.parts =~= m.parts);
        assert(grown(tree, dir, all) == grown(grew, new, m.parts));
    }
}

/// Made twice is made once. Where a `mkdir_all` has succeeded on a tree
/// that nobody else changes, within as many moves as a machine word
/// counts, a second `mkdir_all` of the same path with the same mode on
/// the tree that the first has left succeeds as well: it ends with the
/// same directory, and it leaves the tree as it is, so that it has made no
/// directory. The number of moves that the second call needs is handed
/// back.
pub proof fn made_twice_is_made_once(
    tree: Tree,
    resolver: Resolver,
    root: i32,
    path: Seq<u8>,
    perm: u32,
    fuel: nat,
    after: Tree,
    handle: i32,
) -> (moves: nat)
    requires
        tree.wf(),
        fuel <= usize::MAX,
        run(
            mkdir_machine(),
            tree,
            MkdirAllView::start(resolver, root, path, perm),
            ReplyView::Start,
            fuel,
        ) == Some((after, Ok::<i32, ErrorView>(handle))),
    ensures
        run(
            mkdir_machine(),
            after,
            MkdirAllView::start(resolver, root, path, perm),
            ReplyView::Start,
            moves,
        ) == Some((after, Ok::<i32, ErrorView>(handle))),
{
    let m = MkdirAllView::start(resolver, root, path, perm);
    let walking = MkdirAllView { stage: MkdirStage::Walking, ..m };
    let start = WalkView::start(root, path, resolver.flags, false, true);
    assert(mode_is_accepted(perm)) by {
        if !mode_is_accepted(perm) {
            assert(m.step(ReplyView::Start).1.next is Done);
        }
    }
    assert(m.step(ReplyView::Start) == walking.step(ReplyView::Start));
    assert(run(mkdir_machine(), tree, m, ReplyView::Start, fuel) == run(
        mkdir_machine(),
        tree,
        walking,
        ReplyView::Start,
        fuel,
    ));
    assert(walk_inv(tree, start));
    assert(crate::symlink_stack::nested(start.symlinks.frames));
    let found = walking_splits(tree, walking, ReplyView::Start, fuel);
    let end = found.0;
    let steps = found.1;
    let reopening = found.2;
    let dir = end.handle;
    let parts = named(end.remaining);
    crate::contained::walk_run_is_contained(tree, start, ReplyView::Start, steps);
    assert(O_DIRECTORY & O_DIRECTORY != 0) by (bit_vector);
    let answer = tree.answer(reopen_call(dir));
    let left = (fuel - steps) as nat;
    let (next, out) = reopening.step(answer);
    assert(tree.is_dir(dir) && answer == ReplyView::Fd(dir) && !has_dotdot(parts)) by {
        if !(tree.is_dir(dir) && !has_dotdot(parts)) {
            assert(out.next is Done && out.next->Done_0 is Err);
        }
    }
    if parts.len() == 0 {
        assert(out.next == NextView::<i32>::Done(Ok(dir)));
        assert(after == tree && handle == dir);
        existing_is_accepted(tree, resolver, root, path, perm, steps);
        steps + 1
    } else {
        let call = SyscallView::MkdirAt { dir, name: parts[0], mode: perm };
        assert(out.next == NextView::<i32>::Call(call));
        assert(tree.perform(call) == tree.create(dir, parts[0], FileKind::Directory, Seq::empty()));
        assert(run(mkdir_machine(), tree, reopening, answer, left) == run(
            mkdir_machine(),
            tree.create(dir, parts[0], FileKind::Directory, Seq::empty()).0,
            next,
            tree.create(dir, parts[0], FileKind::Directory, Seq::empty()).1,
            (left - 1) as nat,
        ));
        making_grows(tree, next, dir, (left - 1) as nat);
        assert(seq![next.part] + next.parts =~= parts);
        assert((after, handle) == grown(tree, dir, parts));
        grown_is_there(tree, root, dir, parts);
        let remaining = end.remaining;
        assert(remaining.len() > 0) by {
            if remaining.len() == 0 {
                reveal(Seq::filter);
            }
        }
        stop_is_missing(tree, start, ReplyView::Start, steps);
        let name = remaining[0];
        let rest = remaining.skip(1);
        assert(remaining =~= seq![name] + rest);
        named_of_first(remaining);
        let all = seq![name] + named(rest);
        assert(all[0] == name);
        assert(parts[0] == name);
        assert(parts.skip(1) =~= named(rest));
        no_dotdot_among_named(remaining);
        assert forall|i: int| 0 <= i < rest.len() implies #[trigger] rest[i] != dotdot() by {
            assert(rest[i] == remaining[i + 1]);
        }
        let extra = 4 * parts.len();
        let stood = stops_at(
            tree,
            after,
            dir,
            name,
            rest,
            start,
            ReplyView::Start,
            ReplyView::Start,
            steps,
            0,
            extra,
        );
        let standing = stood.0;
        assert(descends(after, root, dir, parts, handle));
        assert(after.answer(open_entry(dir, name)) == ReplyView::Fd(entered(after, dir, name)));
        walk_descends(after, standing, dir, parts, handle);
        let walked = stood.1 + extra;
        assert(run(walk_machine(), after, start, ReplyView::Start, walked) == Some(
            (
                after,
                Ok::<PartialView, ErrorView>(
                    PartialView { handle, remaining: Seq::empty() },
                ),
            ),
        ));
        assert(named(Seq::<Seq<u8>>::empty()).len() == 0) by {
            reveal(Seq::filter);
        }
        existing_is_accepted(after, resolver, root, path, perm, walked);
        walked + 1
    }
}

} // verus!
