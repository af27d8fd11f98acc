//! What the symlink stack of a walk measures: its frames have no more
//! components ahead than the walk has, so that a walk that has nothing
//! ahead finds every expansion complete; and the directory steps that
//! they count grow by one a move at most.

use vstd::prelude::*;
use crate::contained::{stack_moves_keep_wf};
use crate::path::{absolute, dot, dotdot, split, within};
use crate::step::held;
use crate::symlink_stack::{
    retired_keeps_wf, sum_consumed, sums_are_natural, sums_of_push, take_one, ComponentKind,
    FrameView, StackView,
};
use crate::sys::ReplyView;
use crate::walk::{component_kind, Contained, Phase, WalkView};

verus! {

/// The components that all frames together have ahead.
pub open spec fn sum_tails(frames: Seq<FrameView>) -> int
    decreases frames.len(),
{
    if frames.len() == 0 {
        0
    } else {
        sum_tails(frames.drop_last()) + frames.last().tail
    }
}

/// One less, but not less than nothing.
pub open spec fn less_one(n: int) -> int {
    if n > 0 {
        n - 1
    } else {
        0
    }
}

/// Tails are counted from zero, and with one frame more they are the
/// tails so far and the tail of that frame.
pub proof fn tails_of_push(frames: Seq<FrameView>, frame: FrameView)
    ensures
        sum_tails(frames.push(frame)) == sum_tails(frames) + frame.tail,
        sum_tails(frames) >= 0,
    decreases frames.len(),
{
    assert(frames.push(frame).drop_last() =~= frames);
    if frames.len() > 0 {
        tails_of_push(frames.drop_last(), frames.last());
    }
}

/// Taking a component off takes one off the tails, where there is one.
pub proof fn take_one_takes_one(frames: Seq<FrameView>)
    ensures
        sum_tails(take_one(frames)) == less_one(sum_tails(frames)),
    decreases frames.len(),
{
    if frames.len() == 0 {
    } else {
        let below = frames.drop_last();
        tails_of_push(below, frames.last());
        assert(below.push(frames.last()) =~= frames);
        if frames.last().tail > 0 {
            let top = FrameView { tail: (frames.last().tail - 1) as usize, ..frames.last() };
            tails_of_push(below, top);
        } else {
            take_one_takes_one(below);
            tails_of_push(take_one(below), frames.last());
        }
    }
}

/// Frames that have nothing ahead all leave when they retire; retiring keeps
/// the tails, and counts no step more.
pub proof fn retired_keeps_measure(s: StackView)
    requires
        s.wf(),
    ensures
        sum_tails(s.retired().frames) == sum_tails(s.frames),
        sum_consumed(s.retired().frames) <= sum_consumed(s.frames),
        sum_tails(s.frames) == 0 ==> s.retired().frames.len() == 0,
    decreases s.frames.len(),
{
    sums_are_natural(s.frames);
    if s.frames.len() > 0 {
        let below = s.frames.drop_last();
        tails_of_push(below, s.frames.last());
        assert(below.push(s.frames.last()) =~= s.frames);
        if s.frames.last().tail == 0 {
            crate::symlink_stack::without_top_keeps_wf(s);
            let after = s.without_top();
            if below.len() > 0 {
                let rest = below.drop_last();
                let parent = FrameView {
                    consumed: (below.last().consumed + s.frames.last().consumed) as usize,
                    ..below.last()
                };
                tails_of_push(rest, parent);
                tails_of_push(rest, below.last());
                assert(rest.push(below.last()) =~= below);
            }
            retired_keeps_measure(after);
        }
    }
}

/// What the moves of the stack do to its measures.
pub open spec fn measured(s: StackView, after: StackView, more: int) -> bool {
    &&& sum_tails(after.frames) <= less_one(sum_tails(s.frames)) + more
    &&& sum_consumed(after.frames) <= sum_consumed(s.frames) + 1
}

/// A component that the walk has dealt with is one less ahead, and one
/// step more at most.
pub proof fn consume_is_measured(s: StackView, kind: ComponentKind)
    requires
        s.wf(),
    ensures
        s.consume(kind) matches Ok(after) ==> measured(s, after, 0),
        kind != ComponentKind::Directory ==> s.consume(kind) is Ok,
        sum_consumed(s.frames) < usize::MAX ==> s.consume(kind) is Ok,
        sum_tails(s.frames) == 0 ==> s.consume(kind) == Ok::<
            StackView,
            crate::error::SymlinkStackError,
        >(s.retired()) && s.retired().frames.len() == 0,
{
    retired_keeps_wf(s);
    retired_keeps_measure(s);
    let r = s.retired();
    take_one_takes_one(r.frames);
    crate::symlink_stack::take_one_keeps(r.frames);
    if r.frames.len() > 0 {
        let below = r.frames.drop_last();
        tails_of_push(below, r.frames.last());
        sums_of_push(below, r.frames.last());
        assert(below.push(r.frames.last()) =~= r.frames);
        if kind == ComponentKind::Directory && sum_consumed(r.frames) < usize::MAX {
            let top = FrameView {
                tail: (r.frames.last().tail - 1) as usize,
                consumed: (r.frames.last().consumed + 1) as usize,
                ..r.frames.last()
            };
            crate::symlink_stack::sums_bound_each(r.frames, r.frames.len() - 1);
            tails_of_push(below, top);
            sums_of_push(below, top);
        }
    }
}

/// A symlink that is expanded puts the components of its target ahead, in
/// place of its name, and counts no step.
pub proof fn push_is_measured(
    s: StackView,
    id: crate::sys::InodeId,
    name: Seq<u8>,
    components: usize,
    bytes: usize,
)
    requires
        s.wf(),
    ensures
        s.push(id, name, components, bytes) matches Ok(after) ==> measured(
            s,
            after,
            components as int,
        ),
{
    retired_keeps_wf(s);
    retired_keeps_measure(s);
    let r = s.retired();
    take_one_takes_one(r.frames);
    crate::symlink_stack::take_one_keeps(r.frames);
    if r.frames.len() < r.max_frames && crate::symlink_stack::sum_bytes(r.frames) + bytes
        <= r.max_bytes {
        let frame = FrameView {
            id,
            name,
            depth: r.frames.len() as usize,
            tail: components,
            consumed: 0,
            bytes,
        };
        tails_of_push(take_one(r.frames), frame);
        sums_of_push(take_one(r.frames), frame);
    }
}

/// A `..` is one component less ahead, and counts no step.
pub proof fn pop_is_measured(s: StackView)
    requires
        s.wf(),
    ensures
        s.pop_for_dotdot() matches Ok((after, _)) ==> measured(s, after, 0),
{
    take_one_takes_one(s.frames);
    crate::symlink_stack::take_one_keeps(s.frames);
    sums_are_natural(s.frames);
    let frames = take_one(s.frames);
    if frames.len() > 0 {
        let below = frames.drop_last();
        tails_of_push(below, frames.last());
        sums_of_push(below, frames.last());
        assert(below.push(frames.last()) =~= frames);
        sums_are_natural(below);
        if frames.last().consumed > 0 {
            let top = FrameView {
                consumed: (frames.last().consumed - 1) as usize,
                ..frames.last()
            };
            tails_of_push(below, top);
            sums_of_push(below, top);
        } else if below.len() > 0 && below.last().tail + frames.last().tail <= usize::MAX {
            let rest = below.drop_last();
            let parent = FrameView {
                tail: (below.last().tail + frames.last().tail) as usize,
                ..below.last()
            };
            tails_of_push(rest, parent);
            sums_of_push(rest, parent);
            tails_of_push(rest, below.last());
            sums_of_push(rest, below.last());
            assert(rest.push(below.last()) =~= below);
        }
    }
}

/// Whether a walk deals with a component that its stack still counts as
/// ahead.
pub open spec fn in_flight(w: WalkView) -> int {
    if (w.phase == Phase::Open || w.phase == Phase::Stat || w.phase == Phase::Target || w.phase
        == Phase::RootPath || w.phase == Phase::CandidatePath || w.phase == Phase::AncestorOpen
        || w.phase == Phase::AncestorStat) && !w.dotdot {
        1
    } else {
        0
    }
}

/// The frames of the symlink stack of a walk have no more components
/// ahead than the walk has.
pub open spec fn in_step(w: WalkView) -> bool {
    &&& w.symlinks.wf()
    &&& sum_tails(w.symlinks.frames) <= w.remaining.len() + in_flight(w)
}

/// Complete at the end. A walk that is in step and has nothing ahead
/// finds every expansion complete: its symlink stack is empty once the
/// complete expansions have left, so that the walk does not end with a
/// broken stack.
pub proof fn expansions_end_with_the_path(w: WalkView)
    requires
        in_step(w),
        w.remaining.len() == 0,
        in_flight(w) == 0,
    ensures
        w.symlinks.retired().frames.len() == 0,
        forall|retired: Seq<i32>| #[trigger] w.finish(retired) == w.end(retired, Seq::empty()),
{
    tails_of_push(w.symlinks.frames, w.symlinks.frames[0]);
    retired_keeps_measure(w.symlinks);
}

/// What a move of a walk does to its measures.
pub open spec fn paced(w: WalkView, next: WalkView) -> bool {
    &&& in_step(next)
    &&& sum_consumed(next.symlinks.frames) <= sum_consumed(w.symlinks.frames) + 1
}

proof fn settled_is_paced(w: WalkView)
    requires
        w.symlinks.wf(),
    ensures
        in_step(w.settled()),
        sum_consumed(w.settled().symlinks.frames) == 0,
        forall|retired: Seq<i32>, error: crate::error::ErrorView|
            (#[trigger] w.fail(retired, error)).0 == w.settled(),
{
    sums_are_natural(w.symlinks.frames);
    assert(crate::symlink_stack::nested(Seq::<FrameView>::empty()));
}

proof fn advance_is_paced(w: WalkView, retired: Seq<i32>, start: int)
    requires
        w.symlinks.wf(),
        sum_tails(w.symlinks.frames) <= w.remaining.len(),
        sum_consumed(w.symlinks.frames) <= start,
    ensures
        in_step(w.advance(retired).0),
        sum_consumed(w.advance(retired).0.symlinks.frames) <= start,
    decreases w.remaining.len(),
{
    settled_is_paced(w);
    sums_are_natural(w.symlinks.frames);
    if w.remaining.len() == 0 {
    } else {
        let name = w.remaining[0];
        let rest = w.remaining.skip(1);
        stack_moves_keep_wf(w.symlinks);
        if name.len() == 0 || name == dot() {
            consume_is_measured(w.symlinks, ComponentKind::NoOp);
            match w.symlinks.consume(ComponentKind::NoOp) {
                Ok(symlinks) => {
                    noop_counts_no_step(w.symlinks);
                    advance_is_paced(WalkView { remaining: rest, symlinks, ..w }, retired, start);
                },
                Err(e) => {},
            }
        } else if name == dotdot() {
            pop_is_measured(w.symlinks);
            pop_counts_no_step(w.symlinks);
            match w.symlinks.pop_for_dotdot() {
                Ok((symlinks, verdict)) => {
                    let next = WalkView { remaining: rest, symlinks, ..w };
                    if verdict is Suppress || w.current_id == w.root_id {
                        advance_is_paced(next, retired, start);
                    } else {
                        settled_is_paced(next);
                    }
                },
                Err(e) => {},
            }
        } else {
            settled_is_paced(WalkView { remaining: rest, ..w });
        }
    }
}

/// A component that leads nowhere counts no step.
pub proof fn noop_counts_no_step(s: StackView)
    requires
        s.wf(),
    ensures
        s.consume(ComponentKind::NoOp) matches Ok(after) ==> sum_consumed(after.frames)
            <= sum_consumed(s.frames),
{
    retired_keeps_wf(s);
    retired_keeps_measure(s);
    crate::symlink_stack::take_one_keeps(s.retired().frames);
}

/// A `..` counts no step.
pub proof fn pop_counts_no_step(s: StackView)
    requires
        s.wf(),
    ensures
        s.pop_for_dotdot() matches Ok((after, _)) ==> sum_consumed(after.frames) <= sum_consumed(
            s.frames,
        ),
{
    crate::symlink_stack::take_one_keeps(s.frames);
    sums_are_natural(s.frames);
    let frames = take_one(s.frames);
    if frames.len() > 0 {
        let below = frames.drop_last();
        sums_of_push(below, frames.last());
        assert(below.push(frames.last()) =~= frames);
        sums_are_natural(below);
        if frames.last().consumed > 0 {
            let top = FrameView {
                consumed: (frames.last().consumed - 1) as usize,
                ..frames.last()
            };
            sums_of_push(below, top);
        } else if below.len() > 0 && below.last().tail + frames.last().tail <= usize::MAX {
            let rest = below.drop_last();
            let parent = FrameView {
                tail: (below.last().tail + frames.last().tail) as usize,
                ..below.last()
            };
            sums_of_push(rest, parent);
            sums_of_push(rest, below.last());
            assert(rest.push(below.last()) =~= below);
        }
    }
}

proof fn accept_is_paced(w: WalkView, contained: Contained, root_path: Seq<u8>, path: Seq<u8>)
    requires
        w.symlinks.wf(),
        sum_tails(w.symlinks.frames) <= w.remaining.len() + (if w.dotdot {
            0int
        } else {
            1int
        }),
    ensures
        paced(w, w.accept(contained, root_path, path).0),
{
    let retired = held(w.current) + held(w.ancestor);
    let next = WalkView {
        current: w.candidate,
        current_id: w.candidate_id,
        root_path,
        current_path: path,
        contained,
        candidate: None,
        ancestor: None,
        ..w
    };
    settled_is_paced(next);
    sums_are_natural(w.symlinks.frames);
    stack_moves_keep_wf(w.symlinks);
    if w.dotdot {
        advance_is_paced(next, retired, sum_consumed(w.symlinks.frames));
    } else {
        consume_is_measured(w.symlinks, component_kind(w.candidate_kind));
        match w.symlinks.consume(component_kind(w.candidate_kind)) {
            Ok(symlinks) => {
                advance_is_paced(
                    WalkView { symlinks, ..next },
                    retired,
                    sum_consumed(w.symlinks.frames) + 1,
                );
            },
            Err(e) => {},
        }
    }
}

proof fn root_dup_is_paced(w: WalkView, reply: ReplyView)
    requires
        in_step(w),
        w.phase == Phase::RootDup || w.phase == Phase::Reset,
    ensures
        paced(w, w.on_root_dup(reply).0),
{
    settled_is_paced(w);
    sums_are_natural(w.symlinks.frames);
    match reply {
        ReplyView::Fd(fd) => {
            advance_is_paced(
                WalkView {
                    current: Some(fd),
                    current_id: w.root_id,
                    contained: Contained::Duplicate,
                    root_path: Seq::empty(),
                    current_path: Seq::empty(),
                    ..w
                },
                Seq::empty(),
                sum_consumed(w.symlinks.frames),
            );
        },
        _ => {},
    }
}

proof fn target_is_paced(w: WalkView, reply: ReplyView)
    requires
        in_step(w),
        w.phase == Phase::Target,
        !w.dotdot,
    ensures
        paced(w, w.on_target(reply).0),
{
    settled_is_paced(w);
    sums_are_natural(w.symlinks.frames);
    stack_moves_keep_wf(w.symlinks);
    match reply {
        ReplyView::Bytes(target) => {
            if target.len() > 0 && target.len() <= usize::MAX && split(target).len()
                <= usize::MAX {
                let components = split(target).len() as usize;
                push_is_measured(w.symlinks, w.current_id, w.name, components, target.len() as usize);
                push_counts_no_step(
                    w.symlinks,
                    w.current_id,
                    w.name,
                    components,
                    target.len() as usize,
                );
                match w.symlinks.push(w.current_id, w.name, components, target.len() as usize) {
                    Ok(symlinks) => {
                        let next = WalkView {
                            remaining: split(target) + w.remaining,
                            symlinks,
                            candidate: None,
                            ..w
                        };
                        if !absolute(target) {
                            advance_is_paced(
                                next,
                                held(w.candidate),
                                sum_consumed(w.symlinks.frames),
                            );
                        }
                    },
                    Err(e) => {},
                }
            }
        },
        _ => {},
    }
}

/// A symlink that is expanded counts no step.
pub proof fn push_counts_no_step(
    s: StackView,
    id: crate::sys::InodeId,
    name: Seq<u8>,
    components: usize,
    bytes: usize,
)
    requires
        s.wf(),
    ensures
        s.push(id, name, components, bytes) matches Ok(after) ==> sum_consumed(after.frames)
            <= sum_consumed(s.frames),
{
    retired_keeps_wf(s);
    retired_keeps_measure(s);
    let r = s.retired();
    crate::symlink_stack::take_one_keeps(r.frames);
    if r.frames.len() < r.max_frames && crate::symlink_stack::sum_bytes(r.frames) + bytes
        <= r.max_bytes {
        let frame = FrameView {
            id,
            name,
            depth: r.frames.len() as usize,
            tail: components,
            consumed: 0,
            bytes,
        };
        sums_of_push(take_one(r.frames), frame);
    }
}

/// In step. Whatever a walk is answered, every move keeps the frames of
/// its symlink stack in step with the path: they have no more components
/// ahead than the walk has, and they count one directory step more than
/// before at most.
pub proof fn step_is_paced(w: WalkView, reply: ReplyView)
    requires
        in_step(w),
        (w.phase == Phase::Start || w.phase == Phase::RootStat || w.phase == Phase::RootDup
            || w.phase == Phase::Reset || w.phase == Phase::Finished) ==> !w.dotdot,
        w.phase == Phase::Target ==> !w.dotdot,
    ensures
        paced(w, w.step(reply).0),
        (w.step(reply).0.phase == Phase::Target || w.step(reply).0.phase == Phase::Start
            || w.step(reply).0.phase == Phase::RootStat || w.step(reply).0.phase
            == Phase::RootDup || w.step(reply).0.phase == Phase::Reset) ==> !w.step(
            reply,
        ).0.dotdot,
{
    reveal(WalkView::step);
    settled_is_paced(w);
    sums_are_natural(w.symlinks.frames);
    match w.phase {
        Phase::Start => {},
        Phase::RootStat => {},
        Phase::RootDup => {
            root_dup_is_paced(w, reply);
            dotdot_after_root_dup(w, reply);
        },
        Phase::Reset => {
            root_dup_is_paced(w, reply);
            dotdot_after_root_dup(w, reply);
        },
        Phase::Open => {},
        Phase::Stat => {
            match reply {
                ReplyView::Stat { mode, dev, ino } => {
                    let next = WalkView {
                        candidate_id: crate::sys::InodeId { dev, ino },
                        candidate_kind: crate::sys::kind_of_mode(mode),
                        ..w
                    };
                    settled_is_paced(next);
                },
                _ => {},
            }
        },
        Phase::Target => {
            target_is_paced(w, reply);
            dotdot_after_target(w, reply);
        },
        Phase::RootPath => {
            match reply {
                ReplyView::Failed(_) => {
                    accept_is_paced(w, Contained::ByParent, Seq::empty(), Seq::empty());
                    accept_is_paced(w, Contained::ByAncestry, Seq::empty(), Seq::empty());
                    dotdot_after_accept(w, Contained::ByParent, Seq::empty(), Seq::empty());
                    dotdot_after_accept(w, Contained::ByAncestry, Seq::empty(), Seq::empty());
                },
                _ => {},
            }
        },
        Phase::CandidatePath => {
            match reply {
                ReplyView::Bytes(path) => {
                    if within(w.probe_path, path) {
                        accept_is_paced(w, Contained::ByPath, w.probe_path, path);
                        dotdot_after_accept(w, Contained::ByPath, w.probe_path, path);
                    }
                },
                ReplyView::Failed(_) => {
                    accept_is_paced(w, Contained::ByParent, Seq::empty(), Seq::empty());
                    accept_is_paced(w, Contained::ByAncestry, Seq::empty(), Seq::empty());
                    dotdot_after_accept(w, Contained::ByParent, Seq::empty(), Seq::empty());
                    dotdot_after_accept(w, Contained::ByAncestry, Seq::empty(), Seq::empty());
                },
                _ => {},
            }
        },
        Phase::AncestorOpen => {},
        Phase::AncestorStat => {
            accept_is_paced(w, Contained::ByAncestry, Seq::empty(), Seq::empty());
            dotdot_after_accept(w, Contained::ByAncestry, Seq::empty(), Seq::empty());
        },
        Phase::Finished => {},
    }
}

/// Whether a walk that does not open a name has no `..` in hand.
pub open spec fn no_stale_dotdot(w: WalkView) -> bool {
    (w.phase == Phase::Target || w.phase == Phase::Start || w.phase == Phase::RootStat || w.phase
        == Phase::RootDup || w.phase == Phase::Reset) ==> !w.dotdot
}

proof fn dotdot_after_advance(w: WalkView, retired: Seq<i32>)
    ensures
        w.advance(retired).0.phase == Phase::Open || w.advance(retired).0.phase
            == Phase::Finished,
    decreases w.remaining.len(),
{
    if w.remaining.len() > 0 {
        let name = w.remaining[0];
        let rest = w.remaining.skip(1);
        if name.len() == 0 || name == dot() {
            match w.symlinks.consume(ComponentKind::NoOp) {
                Ok(symlinks) => {
                    dotdot_after_advance(WalkView { remaining: rest, symlinks, ..w }, retired);
                },
                Err(e) => {},
            }
        } else if name == dotdot() {
            match w.symlinks.pop_for_dotdot() {
                Ok((symlinks, verdict)) => {
                    let next = WalkView { remaining: rest, symlinks, ..w };
                    if verdict is Suppress || w.current_id == w.root_id {
                        dotdot_after_advance(next, retired);
                    }
                },
                Err(e) => {},
            }
        }
    }
}

proof fn dotdot_after_accept(w: WalkView, contained: Contained, root_path: Seq<u8>, path: Seq<u8>)
    ensures
        no_stale_dotdot(w.accept(contained, root_path, path).0),
{
    let retired = held(w.current) + held(w.ancestor);
    let next = WalkView {
        current: w.candidate,
        current_id: w.candidate_id,
        root_path,
        current_path: path,
        contained,
        candidate: None,
        ancestor: None,
        ..w
    };
    if w.dotdot {
        dotdot_after_advance(next, retired);
    } else {
        match w.symlinks.consume(component_kind(w.candidate_kind)) {
            Ok(symlinks) => {
                dotdot_after_advance(WalkView { symlinks, ..next }, retired);
            },
            Err(e) => {},
        }
    }
}

proof fn dotdot_after_root_dup(w: WalkView, reply: ReplyView)
    ensures
        no_stale_dotdot(w.on_root_dup(reply).0),
{
    match reply {
        ReplyView::Fd(fd) => {
            dotdot_after_advance(
                WalkView {
                    current: Some(fd),
                    current_id: w.root_id,
                    contained: Contained::Duplicate,
                    root_path: Seq::empty(),
                    current_path: Seq::empty(),
                    ..w
                },
                Seq::empty(),
            );
        },
        _ => {},
    }
}

proof fn dotdot_after_target(w: WalkView, reply: ReplyView)
    requires
        !w.dotdot,
    ensures
        no_stale_dotdot(w.on_target(reply).0),
{
    match reply {
        ReplyView::Bytes(target) => {
            if target.len() > 0 && target.len() <= usize::MAX && split(target).len()
                <= usize::MAX {
                match w.symlinks.push(
                    w.current_id,
                    w.name,
                    split(target).len() as usize,
                    target.len() as usize,
                ) {
                    Ok(symlinks) => {
                        let next = WalkView {
                            remaining: split(target) + w.remaining,
                            symlinks,
                            candidate: None,
                            ..w
                        };
                        if !absolute(target) {
                            dotdot_after_advance(next, held(w.candidate));
                        }
                    },
                    Err(e) => {},
                }
            }
        },
        _ => {},
    }
}

} // verus!
