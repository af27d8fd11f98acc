//! Containment: on a tree that nobody else changes, whatever a resolution
//! reaches lies within the root, and the resolution leaves the tree as it
//! is.

use vstd::prelude::*;
use crate::error::ErrorView;
use crate::kernel::{KernelResolveView, KernelStage};
use crate::model::{run, Tree};
use crate::path::{dotdot, within};
use crate::resolver::{ResolutionView, Resolver, ResolverBackend, Stage};
use crate::step::{NextView, StepView};
use crate::symlink_stack::{
    nested, retired_keeps_wf, sum_bytes, sum_consumed, sums_are_natural, sums_bound_each,
    sums_of_push, take_one, take_one_keeps, FrameView,
};
use crate::sys::{ReplyView, SyscallView, O_PATH_NOFOLLOW};
use crate::walk::{PartialView, Phase, WalkView};

verus! {

/// The walk as an operation to run.
pub open spec fn walk_machine() -> spec_fn(WalkView, ReplyView) -> (
    WalkView,
    StepView<PartialView>,
) {
    |w: WalkView, reply: ReplyView| w.step(reply)
}

/// The resolution as an operation to run.
pub open spec fn resolution_machine() -> spec_fn(ResolutionView, ReplyView) -> (
    ResolutionView,
    StepView<i32>,
) {
    |r: ResolutionView, reply: ReplyView| r.step(reply)
}

/// Whether the inode `fd` lies within the inode `root`: the path that the
/// kernel reports for the one lies within the path that it reports for
/// the other.
pub open spec fn contains(tree: Tree, root: i32, fd: i32) -> bool {
    tree.has(root) && tree.has(fd) && within(tree.nodes[root].path, tree.nodes[fd].path)
}

/// The call whose answer a walk waits for.
pub open spec fn pending(w: WalkView) -> Option<SyscallView> {
    match w.phase {
        Phase::Start => None,
        Phase::Finished => None,
        Phase::RootStat => Some(SyscallView::Fstat { fd: w.root }),
        Phase::RootDup => Some(SyscallView::Dup { fd: w.root }),
        Phase::Reset => Some(SyscallView::Dup { fd: w.root }),
        Phase::Open => match w.current {
            Some(dir) => Some(
                SyscallView::OpenAt { dir, name: w.name, flags: O_PATH_NOFOLLOW, mode: 0 },
            ),
            None => None,
        },
        Phase::Stat => match w.candidate {
            Some(fd) => Some(SyscallView::Fstat { fd }),
            None => None,
        },
        Phase::Target => match w.candidate {
            Some(fd) => Some(SyscallView::ReadLink { fd }),
            None => None,
        },
        Phase::RootPath => Some(SyscallView::FdPath { fd: w.root }),
        Phase::CandidatePath => match w.candidate {
            Some(fd) => Some(SyscallView::FdPath { fd }),
            None => None,
        },
        Phase::AncestorOpen => None,
        Phase::AncestorStat => None,
    }
}

/// What holds of a walk on a tree that only the walk's driver touches:
/// the handles that it holds are inodes of the tree, and its current
/// handle lies within the root.
pub open spec fn walk_inv(tree: Tree, w: WalkView) -> bool {
    &&& tree.wf()
    &&& w.phase != Phase::AncestorOpen && w.phase != Phase::AncestorStat
    &&& w.ancestor is None
    &&& (w.phase != Phase::Start && w.phase != Phase::RootStat && w.phase != Phase::Finished)
        ==> tree.is_dir(w.root) && w.root_id == tree.nodes[w.root].id
    &&& (w.phase == Phase::Start || w.phase == Phase::RootStat || w.phase == Phase::RootDup
        || w.phase == Phase::Reset) ==> w.current is None && w.candidate is None
    &&& w.current matches Some(fd) ==> contains(tree, w.root, fd)
    &&& w.candidate matches Some(fd) ==> tree.has(fd)
    &&& (w.phase == Phase::Stat || w.phase == Phase::Target || w.phase == Phase::RootPath
        || w.phase == Phase::CandidatePath) ==> w.candidate is Some && w.current is Some
    &&& w.phase == Phase::Open ==> w.current is Some && w.candidate is None
    &&& w.phase == Phase::Open ==> w.name.len() > 0 && w.name != crate::path::dot() && (w.dotdot
        <==> w.name == dotdot())
    &&& w.phase == Phase::CandidatePath ==> w.probe_path == tree.nodes[w.root].path
    &&& (w.phase == Phase::Target || w.phase == Phase::RootPath || w.phase
        == Phase::CandidatePath) ==> w.candidate_kind == tree.nodes[w.candidate->0].kind
}

/// Whether a reply is the one that the tree gives to a walk.
pub open spec fn answers(tree: Tree, w: WalkView, reply: ReplyView) -> bool {
    match pending(w) {
        Some(call) => reply == tree.answer(call),
        None => w.phase == Phase::Start && reply == ReplyView::Start,
    }
}

/// What a walk is set up with, and keeps: its root, its flags, and the
/// budgets of its symlink stack.
pub open spec fn same_setup(w: WalkView, other: WalkView) -> bool {
    &&& other.root == w.root
    &&& other.flags == w.flags
    &&& other.nofollow == w.nofollow
    &&& other.partial == w.partial
    &&& other.symlinks.max_frames == w.symlinks.max_frames
    &&& other.symlinks.max_bytes == w.symlinks.max_bytes
}

/// What a move of a walk keeps: the invariant, that the walk asks only for
/// calls that read, and that the handle that it ends with lies within the
/// root.
pub open spec fn kept(tree: Tree, root: i32, out: (WalkView, StepView<PartialView>)) -> bool {
    &&& out.0.root == root
    &&& match out.1.next {
        NextView::Call(call) => walk_inv(tree, out.0) && pending(out.0) == Some(call)
            && call.reads_only(),
        NextView::Done(Ok(partial)) => contains(tree, root, partial.handle),
        NextView::Done(Err(_)) => true,
    }
}

pub proof fn advance_keeps_setup(w: WalkView, retired: Seq<i32>)
    requires
        w.symlinks.wf(),
    ensures
        same_setup(w, w.advance(retired).0),
        w.advance(retired).0.symlinks.wf(),
    decreases w.remaining.len(),
{
    if w.remaining.len() > 0 {
        let name = w.remaining[0];
        let rest = w.remaining.skip(1);
        if name.len() == 0 || name == crate::path::dot() {
            stack_moves_keep_wf(w.symlinks);
            match w.symlinks.consume(crate::symlink_stack::ComponentKind::NoOp) {
                Ok(symlinks) => {
                    advance_keeps_setup(WalkView { remaining: rest, symlinks, ..w }, retired);
                },
                Err(e) => {},
            }
        } else if name == dotdot() {
            stack_moves_keep_wf(w.symlinks);
            match w.symlinks.pop_for_dotdot() {
                Ok((symlinks, verdict)) => {
                    let next = WalkView { remaining: rest, symlinks, ..w };
                    if verdict is Suppress || w.current_id == w.root_id {
                        advance_keeps_setup(next, retired);
                    }
                },
                Err(e) => {},
            }
        }
    }
}

/// Whether a move of the symlink stack, where it succeeds, has kept the
/// invariants and the budgets of the stack.
pub open spec fn stack_kept(
    s: crate::symlink_stack::StackView,
    moved: Result<crate::symlink_stack::StackView, crate::error::SymlinkStackError>,
) -> bool {
    moved matches Ok(after) ==> after.wf() && after.max_frames == s.max_frames && after.max_bytes
        == s.max_bytes
}

/// The moves of the symlink stack keep its invariants and its budgets.
pub proof fn stack_moves_keep_wf(s: crate::symlink_stack::StackView)
    requires
        s.wf(),
    ensures
        forall|kind: crate::symlink_stack::ComponentKind| stack_kept(s, #[trigger] s.consume(kind)),
        s.pop_for_dotdot() matches Ok((after, _)) ==> after.wf() && after.max_frames
            == s.max_frames && after.max_bytes == s.max_bytes,
        forall|id: crate::sys::InodeId, name: Seq<u8>, components: usize, bytes: usize|
            stack_kept(s, #[trigger] s.push(id, name, components, bytes)),
{
    retired_keeps_wf(s);
    let r = s.retired();
    take_one_keeps(r.frames);
    take_one_keeps(s.frames);
    assert forall|kind: crate::symlink_stack::ComponentKind|
        stack_kept(s, #[trigger] s.consume(kind)) by {
        if r.frames.len() > 0 && kind == crate::symlink_stack::ComponentKind::Directory
            && sum_consumed(r.frames) < usize::MAX {
            let top = FrameView {
                tail: (r.frames.last().tail - 1) as usize,
                consumed: (r.frames.last().consumed + 1) as usize,
                ..r.frames.last()
            };
            sums_of_push(r.frames.drop_last(), top);
            sums_of_push(r.frames.drop_last(), r.frames.last());
            assert(r.frames.drop_last().push(r.frames.last()) =~= r.frames);
            sums_bound_each(r.frames, r.frames.len() - 1);
            let after = r.frames.drop_last().push(top);
            assert forall|i: int| 0 <= i < after.len() implies (#[trigger] after[i]).depth
                == i by {
                assert(after[i].depth == r.frames[i].depth);
            }
        }
    }
    assert forall|id: crate::sys::InodeId, name: Seq<u8>, components: usize, bytes: usize|
        stack_kept(s, #[trigger] s.push(id, name, components, bytes)) by {
        if r.frames.len() < r.max_frames && sum_bytes(r.frames) + bytes <= r.max_bytes {
            let frame = FrameView {
                id,
                name,
                depth: r.frames.len() as usize,
                tail: components,
                consumed: 0,
                bytes,
            };
            sums_of_push(take_one(r.frames), frame);
            let after = take_one(r.frames).push(frame);
            assert forall|i: int| 0 <= i < after.len() implies (#[trigger] after[i]).depth
                == i by {
                if i < r.frames.len() {
                    assert(take_one(r.frames)[i].depth == r.frames[i].depth);
                }
            }
        }
    }
    let frames = take_one(s.frames);
    if frames.len() > 0 {
        let below = frames.drop_last();
        sums_of_push(below, frames.last());
        assert(below.push(frames.last()) =~= frames);
        sums_are_natural(below);
        if frames.last().consumed > 0 {
            let top = FrameView {
                consumed: (frames.last().consumed - 1) as usize,
                ..frames.last()
            };
            sums_of_push(below, top);
            let after = below.push(top);
            assert forall|i: int| 0 <= i < after.len() implies (#[trigger] after[i]).depth
                == i by {
                assert(after[i].depth == frames[i].depth);
            }
        } else if below.len() > 0 && below.last().tail + frames.last().tail <= usize::MAX {
            let parent = FrameView {
                tail: (below.last().tail + frames.last().tail) as usize,
                ..below.last()
            };
            let rest = below.drop_last();
            sums_of_push(rest, parent);
            sums_of_push(rest, below.last());
            assert(rest.push(below.last()) =~= below);
            sums_are_natural(rest);
            let after = rest.push(parent);
            assert forall|i: int| 0 <= i < after.len() implies (#[trigger] after[i]).depth
                == i by {
                assert(after[i].depth == frames[i].depth);
            }
        } else if below.len() == 0 {
            assert(nested(below));
        }
    }
}

pub proof fn flags_of_the_walk()
    ensures
        O_PATH_NOFOLLOW & crate::sys::O_CREAT == 0,
        O_PATH_NOFOLLOW & crate::sys::O_DIRECTORY == 0,
{
    assert(0o10400000i32 & 0o100i32 == 0) by (bit_vector);
    assert(0o10400000i32 & 0o200000i32 == 0) by (bit_vector);
}

/// What holds of a walk that stands in a directory, whatever it waits for.
pub open spec fn standing(tree: Tree, w: WalkView) -> bool {
    &&& tree.wf()
    &&& tree.is_dir(w.root)
    &&& w.root_id == tree.nodes[w.root].id
    &&& w.ancestor is None
    &&& w.candidate is None
    &&& w.current matches Some(fd) && contains(tree, w.root, fd)
}

proof fn advance_is_kept(tree: Tree, w: WalkView, retired: Seq<i32>)
    requires
        standing(tree, w),
    ensures
        kept(tree, w.root, w.advance(retired)),
    decreases w.remaining.len(),
{
    flags_of_the_walk();
    if w.remaining.len() == 0 {
    } else {
        let name = w.remaining[0];
        let rest = w.remaining.skip(1);
        if name.len() == 0 || name == crate::path::dot() {
            match w.symlinks.consume(crate::symlink_stack::ComponentKind::NoOp) {
                Ok(symlinks) => {
                    advance_is_kept(tree, WalkView { remaining: rest, symlinks, ..w }, retired);
                },
                Err(e) => {},
            }
        } else if name == dotdot() {
            match w.symlinks.pop_for_dotdot() {
                Ok((symlinks, verdict)) => {
                    let next = WalkView { remaining: rest, symlinks, ..w };
                    if verdict is Suppress || w.current_id == w.root_id {
                        advance_is_kept(tree, next, retired);
                    }
                },
                Err(e) => {},
            }
        }
    }
}

proof fn accept_is_kept(
    tree: Tree,
    w: WalkView,
    contained: crate::walk::Contained,
    root_path: Seq<u8>,
    path: Seq<u8>,
)
    requires
        walk_inv(tree, w),
        tree.is_dir(w.root),
        w.root_id == tree.nodes[w.root].id,
        w.candidate matches Some(fd) && contains(tree, w.root, fd),
    ensures
        kept(tree, w.root, w.accept(contained, root_path, path)),
{
    let retired = crate::step::held(w.current) + crate::step::held(w.ancestor);
    let next = WalkView {
        current: w.candidate,
        current_id: w.candidate_id,
        root_path,
        current_path: path,
        contained,
        candidate: None,
        ancestor: None,
        ..w
    };
    if w.dotdot {
        advance_is_kept(tree, next, retired);
    } else {
        match w.symlinks.consume(crate::walk::component_kind(w.candidate_kind)) {
            Ok(symlinks) => {
                advance_is_kept(tree, WalkView { symlinks, ..next }, retired);
            },
            Err(e) => {},
        }
    }
}

/// A move of a walk on the answer of the tree keeps what [`kept`] says.
pub proof fn walk_step_is_kept(tree: Tree, w: WalkView, reply: ReplyView)
    requires
        walk_inv(tree, w),
        answers(tree, w, reply),
    ensures
        kept(tree, w.root, w.step(reply)),
{
    reveal(WalkView::step);
    flags_of_the_walk();
    match w.phase {
        Phase::Start => {},
        Phase::RootStat => {
            if tree.has(w.root) {
                crate::model::kind_of_mode_of(tree.nodes[w.root].kind);
            }
        },
        Phase::RootDup => {
            root_dup_is_kept(tree, w, reply);
        },
        Phase::Reset => {
            root_dup_is_kept(tree, w, reply);
        },
        Phase::Open => {
            let dir = w.current->0;
            assert(tree.is_dir(w.root));
            tree.closed_at(dir, w.name);
        },
        Phase::Stat => {
            let fd = w.candidate->0;
            crate::model::kind_of_mode_of(tree.nodes[fd].kind);
        },
        Phase::Target => {
            match reply {
                ReplyView::Bytes(target) => {
                    if target.len() > 0 && target.len() <= usize::MAX && crate::path::split(
                        target,
                    ).len() <= usize::MAX {
                        match w.symlinks.push(
                            w.current_id,
                            w.name,
                            crate::path::split(target).len() as usize,
                            target.len() as usize,
                        ) {
                            Ok(symlinks) => {
                                let next = WalkView {
                                    remaining: crate::path::split(target) + w.remaining,
                                    symlinks,
                                    candidate: None,
                                    ..w
                                };
                                if !crate::path::absolute(target) {
                                    advance_is_kept(tree, next, crate::step::held(w.candidate));
                                }
                            },
                            Err(e) => {},
                        }
                    }
                },
                _ => {},
            }
        },
        Phase::RootPath => {},
        Phase::CandidatePath => {
            match reply {
                ReplyView::Bytes(path) => {
                    if within(w.probe_path, path) {
                        accept_is_kept(tree, w, crate::walk::Contained::ByPath, w.probe_path, path);
                    }
                },
                _ => {},
            }
        },
        Phase::AncestorOpen => {},
        Phase::AncestorStat => {},
        Phase::Finished => {},
    }
}

proof fn root_dup_is_kept(tree: Tree, w: WalkView, reply: ReplyView)
    requires
        walk_inv(tree, w),
        w.phase == Phase::RootDup || w.phase == Phase::Reset,
        reply == tree.answer(SyscallView::Dup { fd: w.root }),
    ensures
        kept(tree, w.root, w.on_root_dup(reply)),
{
    let next = WalkView {
        current: Some(w.root),
        current_id: w.root_id,
        contained: crate::walk::Contained::Duplicate,
        root_path: Seq::empty(),
        current_path: Seq::empty(),
        ..w
    };
    assert(tree.nodes[w.root].path.take(tree.nodes[w.root].path.len() as int)
        =~= tree.nodes[w.root].path);
    if tree.has(w.root) {
        tree.closed_at(w.root, Seq::empty());
    }
    advance_is_kept(tree, next, Seq::empty());
}

/// A walk that a driver runs on a tree leaves the tree as it is, and the
/// handle that it ends with, where it ends with one, lies within the root.
pub proof fn walk_run_is_contained(tree: Tree, w: WalkView, reply: ReplyView, fuel: nat)
    requires
        walk_inv(tree, w),
        answers(tree, w, reply),
    ensures
        match run(walk_machine(), tree, w, reply, fuel) {
            Some((after, result)) => after == tree && (result matches Ok(partial) ==> contains(
                tree,
                w.root,
                partial.handle,
            )),
            None => true,
        },
    decreases fuel,
{
    if fuel > 0 {
        walk_step_is_kept(tree, w, reply);
        let (next, out) = w.step(reply);
        match out.next {
            NextView::Call(call) => {
                walk_run_is_contained(tree, next, tree.answer(call), (fuel - 1) as nat);
            },
            NextView::Done(_) => {},
        }
    }
}

/// The call whose answer a resolution waits for.
pub open spec fn resolution_pending(r: ResolutionView) -> Option<SyscallView> {
    match r.stage {
        Stage::Fresh => None,
        Stage::Over => None,
        Stage::Emulated => pending(r.walk),
        Stage::Kernel => match r.kernel.stage {
            KernelStage::Probing => Some(KernelResolveView::probe_call()),
            KernelStage::Opening => Some(r.kernel.open_call()),
            _ => None,
        },
    }
}

/// What holds of a resolution on a tree that only its driver touches.
pub open spec fn resolution_inv(tree: Tree, r: ResolutionView) -> bool {
    &&& tree.wf()
    &&& match r.stage {
        Stage::Fresh => r.walk.phase == Phase::Start && walk_inv(tree, r.walk) && r.kernel.stage
            == KernelStage::Fresh,
        Stage::Kernel => r.walk.phase == Phase::Start && walk_inv(tree, r.walk) && (r.kernel.stage
            == KernelStage::Probing || r.kernel.stage == KernelStage::Opening),
        Stage::Emulated => walk_inv(tree, r.walk) && r.walk.phase != Phase::Start && r.walk.phase
            != Phase::Finished,
        Stage::Over => true,
    }
}

/// Whether a reply is the one that the tree gives to a resolution.
pub open spec fn resolution_answers(tree: Tree, r: ResolutionView, reply: ReplyView) -> bool {
    match resolution_pending(r) {
        Some(call) => reply == tree.answer(call),
        None => r.stage == Stage::Fresh && reply == ReplyView::Start,
    }
}

/// What a move of a resolution keeps.
pub open spec fn resolution_kept(tree: Tree, root: i32, out: (ResolutionView, StepView<i32>))
    -> bool {
    &&& out.0.walk.root == root
    &&& match out.1.next {
        NextView::Call(call) => resolution_inv(tree, out.0) && resolution_pending(out.0) == Some(
            call,
        ) && call.reads_only(),
        NextView::Done(Ok(handle)) => contains(tree, root, handle),
        NextView::Done(Err(_)) => true,
    }
}

proof fn emulate_is_kept(tree: Tree, r: ResolutionView, retired: Seq<i32>)
    requires
        tree.wf(),
        walk_inv(tree, r.walk),
        r.walk.phase == Phase::Start,
    ensures
        resolution_kept(tree, r.walk.root, r.emulate(retired)),
{
    walk_step_is_kept(tree, r.walk, ReplyView::Start);
}

/// A move of a resolution on the answer of the tree keeps what
/// [`resolution_kept`] says.
pub proof fn resolution_step_is_kept(tree: Tree, r: ResolutionView, reply: ReplyView)
    requires
        resolution_inv(tree, r),
        resolution_answers(tree, r, reply),
    ensures
        resolution_kept(tree, r.walk.root, r.step(reply)),
{
    match r.stage {
        Stage::Over => {},
        Stage::Fresh => {
            if r.backend == ResolverBackend::Emulated {
                emulate_is_kept(tree, r, Seq::empty());
            }
        },
        Stage::Kernel => {
            let (kernel, step) = r.kernel.step(reply);
            let next = ResolutionView { kernel, ..r };
            emulate_is_kept(tree, next, step.retired);
        },
        Stage::Emulated => {
            walk_step_is_kept(tree, r.walk, reply);
        },
    }
}

proof fn resolution_run_is_contained(tree: Tree, r: ResolutionView, reply: ReplyView, fuel: nat)
    requires
        resolution_inv(tree, r),
        resolution_answers(tree, r, reply),
    ensures
        match run(resolution_machine(), tree, r, reply, fuel) {
            Some((after, result)) => after == tree && (result matches Ok(handle) ==> contains(
                tree,
                r.walk.root,
                handle,
            )),
            None => true,
        },
    decreases fuel,
{
    if fuel > 0 {
        resolution_step_is_kept(tree, r, reply);
        let (next, out) = r.step(reply);
        match out.next {
            NextView::Call(call) => {
                resolution_run_is_contained(tree, next, tree.answer(call), (fuel - 1) as nat);
            },
            NextView::Done(_) => {},
        }
    }
}

/// A resolution begins in order.
pub proof fn resolution_starts_in_order(
    tree: Tree,
    resolver: Resolver,
    root: i32,
    path: Seq<u8>,
    nofollow: bool,
)
    requires
        tree.wf(),
    ensures
        resolution_inv(tree, ResolutionView::start(resolver, root, path, nofollow)),
        resolution_answers(
            tree,
            ResolutionView::start(resolver, root, path, nofollow),
            ReplyView::Start,
        ),
        ResolutionView::start(resolver, root, path, nofollow).walk.root == root,
{
}

/// Containment. On a tree that nobody else changes, a resolution of any
/// path in any root, with or without following a symlink at the end, by
/// any backend, ends with a handle only to what lies within the root: the
/// path that the kernel reports for what the handle refers to begins with
/// the path that it reports for the root, and goes on, if it goes on, with
/// a separator. The resolution leaves the tree as it is.
pub proof fn resolve_stays_within_the_root(
    tree: Tree,
    resolver: Resolver,
    root: i32,
    path: Seq<u8>,
    nofollow: bool,
    fuel: nat,
)
    requires
        tree.wf(),
    ensures
        match run(
            resolution_machine(),
            tree,
            ResolutionView::start(resolver, root, path, nofollow),
            ReplyView::Start,
            fuel,
        ) {
            Some((after, result)) => after == tree && (result matches Ok(handle) ==> tree.has(root)
                && tree.has(handle) && within(tree.nodes[root].path, tree.nodes[handle].path)
                && tree.nodes[root].path.is_prefix_of(tree.nodes[handle].path)),
            None => true,
        },
{
    let start = ResolutionView::start(resolver, root, path, nofollow);
    resolution_starts_in_order(tree, resolver, root, path, nofollow);
    resolution_run_is_contained(tree, start, ReplyView::Start, fuel);
    match run(resolution_machine(), tree, start, ReplyView::Start, fuel) {
        Some((after, Ok(handle))) => {
            crate::path::within_begins_with(tree.nodes[root].path, tree.nodes[handle].path);
        },
        _ => {},
    }
}

/// No name escapes. There is no path, whatever its separators, its `.` and
/// `..` and the symlinks on its way, and however many moves the resolution
/// is given, for which a resolution on a tree that nobody else changes
/// ends with a handle to what lies outside of the root.
pub proof fn no_path_escapes_the_root(tree: Tree, resolver: Resolver, root: i32, nofollow: bool)
    requires
        tree.wf(),
    ensures
        !exists|path: Seq<u8>, fuel: nat|
            escapes(
                tree,
                root,
                #[trigger] run(
                    resolution_machine(),
                    tree,
                    ResolutionView::start(resolver, root, path, nofollow),
                    ReplyView::Start,
                    fuel,
                ),
            ),
{
    assert forall|path: Seq<u8>, fuel: nat|
        !escapes(
            tree,
            root,
            #[trigger] run(
                resolution_machine(),
                tree,
                ResolutionView::start(resolver, root, path, nofollow),
                ReplyView::Start,
                fuel,
            ),
        ) by {
        resolve_stays_within_the_root(tree, resolver, root, path, nofollow, fuel);
    }
}

/// Whether a run has ended with a handle to what lies outside of the root.
pub open spec fn escapes(tree: Tree, root: i32, outcome: Option<(Tree, Result<i32, ErrorView>)>)
    -> bool {
    outcome matches Some((_, Ok(handle))) && !contains(tree, root, handle)
}

/// Determinism. On a tree that nobody else changes, what a resolution ends
/// with is a function of the tree and of the path: it leaves the tree as
/// it is, so that a second resolution meets the same tree, and two
/// resolutions that end, however many moves each is given, end alike, with
/// handles to one inode.
pub proof fn resolve_is_deterministic(
    tree: Tree,
    resolver: Resolver,
    root: i32,
    path: Seq<u8>,
    nofollow: bool,
    fuel: nat,
    other: nat,
)
    requires
        tree.wf(),
        run(
            resolution_machine(),
            tree,
            ResolutionView::start(resolver, root, path, nofollow),
            ReplyView::Start,
            fuel,
        ) is Some,
        run(
            resolution_machine(),
            tree,
            ResolutionView::start(resolver, root, path, nofollow),
            ReplyView::Start,
            other,
        ) is Some,
    ensures
        run(
            resolution_machine(),
            tree,
            ResolutionView::start(resolver, root, path, nofollow),
            ReplyView::Start,
            fuel,
        ) == run(
            resolution_machine(),
            tree,
            ResolutionView::start(resolver, root, path, nofollow),
            ReplyView::Start,
            other,
        ),
        run(
            resolution_machine(),
            tree,
            ResolutionView::start(resolver, root, path, nofollow),
            ReplyView::Start,
            fuel,
        ) matches Some((after, _)) && after == tree,
{
    let start = ResolutionView::start(resolver, root, path, nofollow);
    crate::model::run_is_deterministic(
        resolution_machine(),
        tree,
        start,
        ReplyView::Start,
        fuel,
        other,
    );
    resolve_stays_within_the_root(tree, resolver, root, path, nofollow, fuel);
}

/// What a walk knows of its current handle, whoever answers it: where it
/// holds the handle by the paths of the kernel, the path that was reported
/// for the handle lies within the path that was reported for the root in
/// the same check.
pub open spec fn evidence(w: WalkView) -> bool {
    w.contained is ByPath ==> within(w.root_path, w.current_path)
}

proof fn advance_keeps_evidence(w: WalkView, retired: Seq<i32>)
    requires
        evidence(w),
    ensures
        evidence(w.advance(retired).0),
    decreases w.remaining.len(),
{
    if w.remaining.len() > 0 {
        let name = w.remaining[0];
        let rest = w.remaining.skip(1);
        if name.len() == 0 || name == crate::path::dot() {
            match w.symlinks.consume(crate::symlink_stack::ComponentKind::NoOp) {
                Ok(symlinks) => {
                    advance_keeps_evidence(WalkView { remaining: rest, symlinks, ..w }, retired);
                },
                Err(e) => {},
            }
        } else if name == dotdot() {
            match w.symlinks.pop_for_dotdot() {
                Ok((symlinks, verdict)) => {
                    let next = WalkView { remaining: rest, symlinks, ..w };
                    if verdict is Suppress || w.current_id == w.root_id {
                        advance_keeps_evidence(next, retired);
                    }
                },
                Err(e) => {},
            }
        }
    }
}

proof fn accept_keeps_evidence(
    w: WalkView,
    contained: crate::walk::Contained,
    root_path: Seq<u8>,
    path: Seq<u8>,
)
    requires
        contained is ByPath ==> within(root_path, path),
    ensures
        evidence(w.accept(contained, root_path, path).0),
{
    let retired = crate::step::held(w.current) + crate::step::held(w.ancestor);
    let next = WalkView {
        current: w.candidate,
        current_id: w.candidate_id,
        root_path,
        current_path: path,
        contained,
        candidate: None,
        ancestor: None,
        ..w
    };
    if w.dotdot {
        advance_keeps_evidence(next, retired);
    } else {
        match w.symlinks.consume(crate::walk::component_kind(w.candidate_kind)) {
            Ok(symlinks) => {
                advance_keeps_evidence(WalkView { symlinks, ..next }, retired);
            },
            Err(e) => {},
        }
    }
}

/// Containment against an adversary. Whatever a walk is answered, by a
/// kernel whose tree others change while the walk is under way or by
/// anything else, every move keeps what the walk knows of its current
/// handle: a handle that it holds by the paths of the kernel has passed
/// the containment check on the paths that were reported in that check.
pub proof fn evidence_is_kept(w: WalkView, reply: ReplyView)
    requires
        evidence(w),
    ensures
        evidence(w.step(reply).0),
{
    reveal(WalkView::step);
    match w.phase {
        Phase::RootDup => {
            root_dup_keeps_evidence(w, reply);
        },
        Phase::Reset => {
            root_dup_keeps_evidence(w, reply);
        },
        Phase::Target => {
            match reply {
                ReplyView::Bytes(target) => {
                    if target.len() > 0 && target.len() <= usize::MAX && crate::path::split(
                        target,
                    ).len() <= usize::MAX {
                        match w.symlinks.push(
                            w.current_id,
                            w.name,
                            crate::path::split(target).len() as usize,
                            target.len() as usize,
                        ) {
                            Ok(symlinks) => {
                                let next = WalkView {
                                    remaining: crate::path::split(target) + w.remaining,
                                    symlinks,
                                    candidate: None,
                                    ..w
                                };
                                if !crate::path::absolute(target) {
                                    advance_keeps_evidence(next, crate::step::held(w.candidate));
                                }
                            },
                            Err(e) => {},
                        }
                    }
                },
                _ => {},
            }
        },
        Phase::RootPath => {
            match reply {
                ReplyView::Failed(_) => {
                    fallback_keeps_evidence(w);
                },
                _ => {},
            }
        },
        Phase::CandidatePath => {
            match reply {
                ReplyView::Bytes(path) => {
                    if within(w.probe_path, path) {
                        accept_keeps_evidence(
                            w,
                            crate::walk::Contained::ByPath,
                            w.probe_path,
                            path,
                        );
                    }
                },
                ReplyView::Failed(_) => {
                    fallback_keeps_evidence(w);
                },
                _ => {},
            }
        },
        Phase::AncestorStat => {
            match reply {
                ReplyView::Stat { mode, dev, ino } => {
                    accept_keeps_evidence(
                        w,
                        crate::walk::Contained::ByAncestry,
                        Seq::empty(),
                        Seq::empty(),
                    );
                },
                _ => {},
            }
        },
        _ => {},
    }
}

proof fn root_dup_keeps_evidence(w: WalkView, reply: ReplyView)
    requires
        evidence(w),
    ensures
        evidence(w.on_root_dup(reply).0),
{
    match reply {
        ReplyView::Fd(fd) => {
            advance_keeps_evidence(
                WalkView {
                    current: Some(fd),
                    current_id: w.root_id,
                    contained: crate::walk::Contained::Duplicate,
                    root_path: Seq::empty(),
                    current_path: Seq::empty(),
                    ..w
                },
                Seq::empty(),
            );
        },
        _ => {},
    }
}

proof fn fallback_keeps_evidence(w: WalkView)
    requires
        evidence(w),
    ensures
        evidence(w.fallback().0),
{
    accept_keeps_evidence(w, crate::walk::Contained::ByParent, Seq::empty(), Seq::empty());
    accept_keeps_evidence(w, crate::walk::Contained::ByAncestry, Seq::empty(), Seq::empty());
}

proof fn accept_keeps_setup(
    w: WalkView,
    contained: crate::walk::Contained,
    root_path: Seq<u8>,
    path: Seq<u8>,
)
    requires
        w.symlinks.wf(),
    ensures
        same_setup(w, w.accept(contained, root_path, path).0),
        w.accept(contained, root_path, path).0.symlinks.wf(),
{
    let retired = crate::step::held(w.current) + crate::step::held(w.ancestor);
    let next = WalkView {
        current: w.candidate,
        current_id: w.candidate_id,
        root_path,
        current_path: path,
        contained,
        candidate: None,
        ancestor: None,
        ..w
    };
    stack_moves_keep_wf(w.symlinks);
    if w.dotdot {
        advance_keeps_setup(next, retired);
    } else {
        match w.symlinks.consume(crate::walk::component_kind(w.candidate_kind)) {
            Ok(symlinks) => {
                advance_keeps_setup(WalkView { symlinks, ..next }, retired);
            },
            Err(e) => {},
        }
    }
}

/// A move of a walk keeps what the walk was set up with.
pub proof fn step_keeps_config(w: WalkView, reply: ReplyView)
    ensures
        w.step(reply).0.partial == w.partial,
        w.step(reply).0.nofollow == w.nofollow,
        w.step(reply).0.root == w.root,
        w.step(reply).0.flags == w.flags,
{
    reveal(WalkView::step);
    match w.phase {
        Phase::RootDup => {
            config_after_root_dup(w, reply);
        },
        Phase::Reset => {
            config_after_root_dup(w, reply);
        },
        Phase::Target => {
            match reply {
                ReplyView::Bytes(target) => {
                    if target.len() > 0 && target.len() <= usize::MAX && crate::path::split(
                        target,
                    ).len() <= usize::MAX {
                        match w.symlinks.push(
                            w.current_id,
                            w.name,
                            crate::path::split(target).len() as usize,
                            target.len() as usize,
                        ) {
                            Ok(symlinks) => {
                                let next = WalkView {
                                    remaining: crate::path::split(target) + w.remaining,
                                    symlinks,
                                    candidate: None,
                                    ..w
                                };
                                if !crate::path::absolute(target) {
                                    config_after_advance(next, crate::step::held(w.candidate));
                                }
                            },
                            Err(e) => {},
                        }
                    }
                },
                _ => {},
            }
        },
        Phase::RootPath => {
            match reply {
                ReplyView::Failed(_) => {
                    config_after_accept(
                        w,
                        crate::walk::Contained::ByParent,
                        Seq::empty(),
                        Seq::empty(),
                    );
                    config_after_accept(
                        w,
                        crate::walk::Contained::ByAncestry,
                        Seq::empty(),
                        Seq::empty(),
                    );
                },
                _ => {},
            }
        },
        Phase::CandidatePath => {
            match reply {
                ReplyView::Bytes(path) => {
                    if within(w.probe_path, path) {
                        config_after_accept(w, crate::walk::Contained::ByPath, w.probe_path, path);
                    }
                },
                ReplyView::Failed(_) => {
                    config_after_accept(
                        w,
                        crate::walk::Contained::ByParent,
                        Seq::empty(),
                        Seq::empty(),
                    );
                    config_after_accept(
                        w,
                        crate::walk::Contained::ByAncestry,
                        Seq::empty(),
                        Seq::empty(),
                    );
                },
                _ => {},
            }
        },
        Phase::AncestorStat => {
            config_after_accept(w, crate::walk::Contained::ByAncestry, Seq::empty(), Seq::empty());
        },
        _ => {},
    }
}

proof fn config_after_advance(w: WalkView, retired: Seq<i32>)
    ensures
        w.advance(retired).0.partial == w.partial,
        w.advance(retired).0.nofollow == w.nofollow,
        w.advance(retired).0.root == w.root,
        w.advance(retired).0.flags == w.flags,
    decreases w.remaining.len(),
{
    if w.remaining.len() > 0 {
        let name = w.remaining[0];
        let rest = w.remaining.skip(1);
        if name.len() == 0 || name == crate::path::dot() {
            match w.symlinks.consume(crate::symlink_stack::ComponentKind::NoOp) {
                Ok(symlinks) => {
                    config_after_advance(WalkView { remaining: rest, symlinks, ..w }, retired);
                },
                Err(e) => {},
            }
        } else if name == dotdot() {
            match w.symlinks.pop_for_dotdot() {
                Ok((symlinks, verdict)) => {
                    let next = WalkView { remaining: rest, symlinks, ..w };
                    if verdict is Suppress || w.current_id == w.root_id {
                        config_after_advance(next, retired);
                    }
                },
                Err(e) => {},
            }
        }
    }
}

proof fn config_after_accept(
    w: WalkView,
    contained: crate::walk::Contained,
    root_path: Seq<u8>,
    path: Seq<u8>,
)
    ensures
        w.accept(contained, root_path, path).0.partial == w.partial,
        w.accept(contained, root_path, path).0.nofollow == w.nofollow,
        w.accept(contained, root_path, path).0.root == w.root,
        w.accept(contained, root_path, path).0.flags == w.flags,
{
    let retired = crate::step::held(w.current) + crate::step::held(w.ancestor);
    let next = WalkView {
        current: w.candidate,
        current_id: w.candidate_id,
        root_path,
        current_path: path,
        contained,
        candidate: None,
        ancestor: None,
        ..w
    };
    if w.dotdot {
        config_after_advance(next, retired);
    } else {
        match w.symlinks.consume(crate::walk::component_kind(w.candidate_kind)) {
            Ok(symlinks) => {
                config_after_advance(WalkView { symlinks, ..next }, retired);
            },
            Err(e) => {},
        }
    }
}

proof fn config_after_root_dup(w: WalkView, reply: ReplyView)
    ensures
        w.on_root_dup(reply).0.partial == w.partial,
        w.on_root_dup(reply).0.nofollow == w.nofollow,
        w.on_root_dup(reply).0.root == w.root,
        w.on_root_dup(reply).0.flags == w.flags,
{
    match reply {
        ReplyView::Fd(fd) => {
            config_after_advance(
                WalkView {
                    current: Some(fd),
                    current_id: w.root_id,
                    contained: crate::walk::Contained::Duplicate,
                    root_path: Seq::empty(),
                    current_path: Seq::empty(),
                    ..w
                },
                Seq::empty(),
            );
        },
        _ => {},
    }
}

/// A move of a walk keeps what the walk was set up with, and the
/// invariants of its symlink stack.
pub proof fn step_keeps_setup(w: WalkView, reply: ReplyView)
    requires
        w.symlinks.wf(),
    ensures
        same_setup(w, w.step(reply).0),
        w.step(reply).0.symlinks.wf(),
{
    reveal(WalkView::step);
    stack_moves_keep_wf(w.symlinks);
    match w.phase {
        Phase::RootDup => {
            root_dup_keeps_setup(w, reply);
        },
        Phase::Reset => {
            root_dup_keeps_setup(w, reply);
        },
        Phase::Target => {
            match reply {
                ReplyView::Bytes(target) => {
                    if target.len() > 0 && target.len() <= usize::MAX && crate::path::split(
                        target,
                    ).len() <= usize::MAX {
                        match w.symlinks.push(
                            w.current_id,
                            w.name,
                            crate::path::split(target).len() as usize,
                            target.len() as usize,
                        ) {
                            Ok(symlinks) => {
                                let next = WalkView {
                                    remaining: crate::path::split(target) + w.remaining,
                                    symlinks,
                                    candidate: None,
                                    ..w
                                };
                                if !crate::path::absolute(target) {
                                    advance_keeps_setup(next, crate::step::held(w.candidate));
                                }
                            },
                            Err(e) => {},
                        }
                    }
                },
                _ => {},
            }
        },
        Phase::RootPath => {
            match reply {
                ReplyView::Failed(_) => {
                    accept_keeps_setup(
                        w,
                        crate::walk::Contained::ByParent,
                        Seq::empty(),
                        Seq::empty(),
                    );
                    accept_keeps_setup(
                        w,
                        crate::walk::Contained::ByAncestry,
                        Seq::empty(),
                        Seq::empty(),
                    );
                },
                _ => {},
            }
        },
        Phase::CandidatePath => {
            match reply {
                ReplyView::Bytes(path) => {
                    if within(w.probe_path, path) {
                        accept_keeps_setup(w, crate::walk::Contained::ByPath, w.probe_path, path);
                    }
                },
                ReplyView::Failed(_) => {
                    accept_keeps_setup(
                        w,
                        crate::walk::Contained::ByParent,
                        Seq::empty(),
                        Seq::empty(),
                    );
                    accept_keeps_setup(
                        w,
                        crate::walk::Contained::ByAncestry,
                        Seq::empty(),
                        Seq::empty(),
                    );
                },
                _ => {},
            }
        },
        Phase::AncestorStat => {
            accept_keeps_setup(w, crate::walk::Contained::ByAncestry, Seq::empty(), Seq::empty());
        },
        _ => {},
    }
}

proof fn root_dup_keeps_setup(w: WalkView, reply: ReplyView)
    requires
        w.symlinks.wf(),
    ensures
        same_setup(w, w.on_root_dup(reply).0),
        w.on_root_dup(reply).0.symlinks.wf(),
{
    match reply {
        ReplyView::Fd(fd) => {
            advance_keeps_setup(
                WalkView {
                    current: Some(fd),
                    current_id: w.root_id,
                    contained: crate::walk::Contained::Duplicate,
                    root_path: Seq::empty(),
                    current_path: Seq::empty(),
                    ..w
                },
                Seq::empty(),
            );
        },
        _ => {},
    }
}

} // verus!
