//! The handles of a walk: every handle that a walk is given it holds,
//! releases, or ends with; none is lost, and none is released twice.

use vstd::prelude::*;
use crate::path::{absolute, dot, dotdot, split, within};
use crate::step::{held, NextView, StepView};
use crate::symlink_stack::ComponentKind;
use crate::sys::ReplyView;
use crate::walk::{component_kind, Contained, PartialView, Phase, WalkView};

verus! {

/// How often a handle occurs among handles.
pub open spec fn count(handles: Seq<i32>, fd: i32) -> int
    decreases handles.len(),
{
    if handles.len() == 0 {
        0
    } else {
        count(handles.drop_last(), fd) + if handles.last() == fd {
            1int
        } else {
            0int
        }
    }
}

/// How often a handle is the handle that may be held.
pub open spec fn count_held(handle: Option<i32>, fd: i32) -> int {
    if handle == Some(fd) {
        1
    } else {
        0
    }
}

/// How often a walk holds a handle.
pub open spec fn holds(w: WalkView, fd: i32) -> int {
    count_held(w.current, fd) + count_held(w.candidate, fd) + count_held(w.ancestor, fd)
}

/// How often a step hands a handle out: to be released, or as what the
/// walk ends with.
pub open spec fn hands_out(out: StepView<PartialView>, fd: i32) -> int {
    count(out.retired, fd) + if out.next matches NextView::Done(Ok(end)) && end.handle == fd {
        1int
    } else {
        0int
    }
}

/// How often a reply hands a handle in.
pub open spec fn hands_in(reply: ReplyView, fd: i32) -> int {
    if reply == ReplyView::Fd(fd) {
        1
    } else {
        0
    }
}

/// Whether a walk holds handles only where it has use for them.
pub open spec fn tidy(w: WalkView) -> bool {
    match w.phase {
        Phase::Start => w.current is None && w.candidate is None && w.ancestor is None,
        Phase::RootStat => w.current is None && w.candidate is None && w.ancestor is None,
        Phase::RootDup => w.current is None && w.candidate is None && w.ancestor is None,
        Phase::Reset => w.current is None && w.candidate is None && w.ancestor is None,
        Phase::Finished => w.current is None && w.candidate is None && w.ancestor is None,
        Phase::Open => w.candidate is None && w.ancestor is None,
        Phase::Stat => w.ancestor is None,
        Phase::Target => w.ancestor is None,
        Phase::RootPath => w.ancestor is None,
        Phase::CandidatePath => w.ancestor is None,
        Phase::AncestorOpen => true,
        Phase::AncestorStat => true,
    }
}

/// Whether a reply hands a handle in only where the walk has asked for
/// one.
pub open spec fn fits(w: WalkView, reply: ReplyView) -> bool {
    reply is Fd ==> w.phase == Phase::RootDup || w.phase == Phase::Reset || w.phase == Phase::Open
        || w.phase == Phase::AncestorOpen
}

/// Whether a move accounts for a handle: the walk holds it, and hands it
/// out, as often after the move as it held it, and was handed it, before.
pub open spec fn accounts(
    w: WalkView,
    carried: Seq<i32>,
    reply: ReplyView,
    out: (WalkView, StepView<PartialView>),
    fd: i32,
) -> bool {
    &&& tidy(out.0)
    &&& holds(out.0, fd) + hands_out(out.1, fd) == holds(w, fd) + count(carried, fd) + hands_in(
        reply,
        fd,
    )
}

/// Handles are counted part by part.
pub proof fn count_of_concat(front: Seq<i32>, back: Seq<i32>, fd: i32)
    ensures
        count(front + back, fd) == count(front, fd) + count(back, fd),
    decreases back.len(),
{
    if back.len() == 0 {
        assert(front + back =~= front);
    } else {
        count_of_concat(front, back.drop_last(), fd);
        assert((front + back).drop_last() =~= front + back.drop_last());
    }
}

/// The handle that may be held occurs once where it is held.
pub proof fn count_of_held(handle: Option<i32>, fd: i32)
    ensures
        count(held(handle), fd) == count_held(handle, fd),
        count(Seq::<i32>::empty(), fd) == 0,
{
    match handle {
        Some(h) => {
            assert(seq![h].drop_last() =~= Seq::<i32>::empty());
            assert(seq![h].last() == h);
            assert(count(Seq::<i32>::empty(), fd) == 0);
            assert(count(seq![h], fd) == count(seq![h].drop_last(), fd) + if h == fd {
                1int
            } else {
                0int
            });
        },
        None => {},
    }
}

proof fn fail_accounts(w: WalkView, retired: Seq<i32>, error: crate::error::ErrorView, fd: i32)
    ensures
        accounts(w, retired, ReplyView::Done, w.fail(retired, error), fd),
{
    count_of_held(w.current, fd);
    count_of_held(w.candidate, fd);
    count_of_held(w.ancestor, fd);
    count_of_concat(retired, held(w.current), fd);
    count_of_concat(retired + held(w.current), held(w.candidate), fd);
    count_of_concat(retired + held(w.current) + held(w.candidate), held(w.ancestor), fd);
}

proof fn end_accounts(w: WalkView, retired: Seq<i32>, remaining: Seq<Seq<u8>>, fd: i32)
    ensures
        accounts(w, retired, ReplyView::Done, w.end(retired, remaining), fd),
{
    count_of_held(w.candidate, fd);
    count_of_held(w.ancestor, fd);
    count_of_concat(retired, held(w.candidate), fd);
    count_of_concat(retired + held(w.candidate), held(w.ancestor), fd);
    fail_accounts(w, retired, crate::error::ErrorView::safety("the walk holds no directory"@), fd);
}

proof fn advance_accounts(w: WalkView, retired: Seq<i32>, fd: i32)
    requires
        w.candidate is None,
        w.ancestor is None,
    ensures
        accounts(w, retired, ReplyView::Done, w.advance(retired), fd),
    decreases w.remaining.len(),
{
    if w.remaining.len() == 0 {
        fail_accounts(
            w,
            retired,
            crate::error::ErrorView::bad_stack(
                "symlink expansion is incomplete at the end of the path"@,
                crate::error::SymlinkStackError::BrokenInvariant,
            ),
            fd,
        );
        end_accounts(w, retired, Seq::empty(), fd);
    } else {
        let name = w.remaining[0];
        let rest = w.remaining.skip(1);
        if name.len() == 0 || name == dot() {
            match w.symlinks.consume(ComponentKind::NoOp) {
                Ok(symlinks) => {
                    advance_accounts(WalkView { remaining: rest, symlinks, ..w }, retired, fd);
                },
                Err(e) => {
                    fail_accounts(w, retired, crate::walk::stack_error(e), fd);
                },
            }
        } else if name == dotdot() {
            match w.symlinks.pop_for_dotdot() {
                Ok((symlinks, verdict)) => {
                    let next = WalkView { remaining: rest, symlinks, ..w };
                    if verdict is Suppress || w.current_id == w.root_id {
                        advance_accounts(next, retired, fd);
                    } else {
                        fail_accounts(
                            next,
                            retired,
                            crate::error::ErrorView::safety("the walk holds no directory"@),
                            fd,
                        );
                    }
                },
                Err(e) => {
                    fail_accounts(w, retired, crate::walk::stack_error(e), fd);
                },
            }
        } else {
            fail_accounts(
                WalkView { remaining: rest, ..w },
                retired,
                crate::error::ErrorView::safety("the walk holds no directory"@),
                fd,
            );
        }
    }
}

proof fn accept_accounts(
    w: WalkView,
    contained: Contained,
    root_path: Seq<u8>,
    path: Seq<u8>,
    fd: i32,
)
    ensures
        accounts(w, Seq::empty(), ReplyView::Done, w.accept(contained, root_path, path), fd),
{
    let retired = held(w.current) + held(w.ancestor);
    let next = WalkView {
        current: w.candidate,
        current_id: w.candidate_id,
        root_path,
        current_path: path,
        contained,
        candidate: None,
        ancestor: None,
        ..w
    };
    count_of_held(w.current, fd);
    count_of_held(w.ancestor, fd);
    count_of_concat(held(w.current), held(w.ancestor), fd);
    if w.dotdot {
        advance_accounts(next, retired, fd);
    } else {
        match w.symlinks.consume(component_kind(w.candidate_kind)) {
            Ok(symlinks) => {
                advance_accounts(WalkView { symlinks, ..next }, retired, fd);
            },
            Err(e) => {
                fail_accounts(next, retired, crate::walk::stack_error(e), fd);
            },
        }
    }
}

proof fn fallback_accounts(w: WalkView, fd: i32)
    requires
        w.ancestor is None,
    ensures
        accounts(w, Seq::empty(), ReplyView::Done, w.fallback(), fd),
{
    count_of_held(None, fd);
    accept_accounts(w, Contained::ByParent, Seq::empty(), Seq::empty(), fd);
    accept_accounts(w, Contained::ByAncestry, Seq::empty(), Seq::empty(), fd);
    fail_accounts(
        w,
        Seq::empty(),
        crate::error::ErrorView::safety("the walk holds no component"@),
        fd,
    );
}

/// Every handle is accounted for. Whatever a walk is answered, as long as
/// it is handed a handle only where it has asked for one, every move
/// accounts for every handle: what the walk held before the move, and
/// what the reply has handed in, the walk holds after the move, or has
/// handed out, to be released or as what it ends with, exactly once. A
/// walk that is over holds no handle.
pub proof fn handles_are_accounted_for(w: WalkView, reply: ReplyView, fd: i32)
    requires
        tidy(w),
        fits(w, reply),
    ensures
        accounts(w, Seq::empty(), reply, w.step(reply), fd),
        w.step(reply).1.next is Done ==> holds(w.step(reply).0, fd) == 0,
{
    reveal(WalkView::step);
    count_of_held(None, fd);
    count_of_held(w.candidate, fd);
    count_of_held(w.current, fd);
    count_of_held(w.ancestor, fd);
    fail_accounts(w, Seq::empty(), crate::walk::unexpected_reply(), fd);
    match w.phase {
        Phase::Start => {
            fail_accounts(
                w,
                Seq::empty(),
                crate::error::ErrorView::os("resolve an empty path"@, crate::sys::ENOENT),
                fd,
            );
        },
        Phase::RootStat => {
            all_failures_account(w, fd);
        },
        Phase::RootDup => {
            root_dup_accounts(w, reply, fd);
        },
        Phase::Reset => {
            root_dup_accounts(w, reply, fd);
        },
        Phase::Open => {
            all_failures_account(w, fd);
            end_accounts(w, Seq::empty(), seq![w.name] + w.remaining, fd);
        },
        Phase::Stat => {
            match reply {
                ReplyView::Stat { mode, dev, ino } => {
                    let next = WalkView {
                        candidate_id: crate::sys::InodeId { dev, ino },
                        candidate_kind: crate::sys::kind_of_mode(mode),
                        ..w
                    };
                    all_failures_account(next, fd);
                },
                _ => {
                    all_failures_account(w, fd);
                },
            }
        },
        Phase::Target => {
            all_failures_account(w, fd);
            match reply {
                ReplyView::Bytes(target) => {
                    if target.len() > 0 && target.len() <= usize::MAX && split(target).len()
                        <= usize::MAX {
                        match w.symlinks.push(
                            w.current_id,
                            w.name,
                            split(target).len() as usize,
                            target.len() as usize,
                        ) {
                            Ok(symlinks) => {
                                let next = WalkView {
                                    remaining: split(target) + w.remaining,
                                    symlinks,
                                    candidate: None,
                                    ..w
                                };
                                count_of_concat(held(w.candidate), held(w.current), fd);
                                if !absolute(target) {
                                    advance_accounts(next, held(w.candidate), fd);
                                }
                            },
                            Err(e) => {},
                        }
                    }
                },
                _ => {},
            }
        },
        Phase::RootPath => {
            all_failures_account(w, fd);
            fallback_accounts(w, fd);
        },
        Phase::CandidatePath => {
            all_failures_account(w, fd);
            fallback_accounts(w, fd);
            match reply {
                ReplyView::Bytes(path) => {
                    if within(w.probe_path, path) {
                        accept_accounts(w, Contained::ByPath, w.probe_path, path, fd);
                    }
                },
                _ => {},
            }
        },
        Phase::AncestorOpen => {
            all_failures_account(w, fd);
        },
        Phase::AncestorStat => {
            all_failures_account(w, fd);
            accept_accounts(w, Contained::ByAncestry, Seq::empty(), Seq::empty(), fd);
        },
        Phase::Finished => {},
    }
    over_holds_nothing(w, reply, fd);
}

/// A failure accounts for every handle, whatever its error.
proof fn all_failures_account(w: WalkView, fd: i32)
    ensures
        forall|error: crate::error::ErrorView|
            accounts(w, Seq::empty(), ReplyView::Done, #[trigger] w.fail(Seq::empty(), error), fd),
{
    assert forall|error: crate::error::ErrorView|
        accounts(w, Seq::empty(), ReplyView::Done, #[trigger] w.fail(Seq::empty(), error), fd) by {
        fail_accounts(w, Seq::empty(), error, fd);
    }
}

proof fn root_dup_accounts(w: WalkView, reply: ReplyView, fd: i32)
    requires
        w.current is None,
        w.candidate is None,
        w.ancestor is None,
    ensures
        accounts(w, Seq::empty(), reply, w.on_root_dup(reply), fd),
{
    count_of_held(None, fd);
    all_failures_account(w, fd);
    match reply {
        ReplyView::Fd(given) => {
            advance_accounts(
                WalkView {
                    current: Some(given),
                    current_id: w.root_id,
                    contained: Contained::Duplicate,
                    root_path: Seq::empty(),
                    current_path: Seq::empty(),
                    ..w
                },
                Seq::empty(),
                fd,
            );
        },
        _ => {},
    }
}

/// A walk whose move ends it holds no handle.
proof fn over_holds_nothing(w: WalkView, reply: ReplyView, fd: i32)
    requires
        tidy(w),
    ensures
        w.step(reply).1.next is Done ==> holds(w.step(reply).0, fd) == 0,
{
    reveal(WalkView::step);
    match w.phase {
        Phase::RootDup => {
            root_dup_settles(w, reply);
        },
        Phase::Reset => {
            root_dup_settles(w, reply);
        },
        Phase::Target => {
            match reply {
                ReplyView::Bytes(target) => {
                    if target.len() > 0 && target.len() <= usize::MAX && split(target).len()
                        <= usize::MAX {
                        match w.symlinks.push(
                            w.current_id,
                            w.name,
                            split(target).len() as usize,
                            target.len() as usize,
                        ) {
                            Ok(symlinks) => {
                                let next = WalkView {
                                    remaining: split(target) + w.remaining,
                                    symlinks,
                                    candidate: None,
                                    ..w
                                };
                                if !absolute(target) {
                                    advance_settles(next, held(w.candidate));
                                }
                            },
                            Err(e) => {},
                        }
                    }
                },
                _ => {},
            }
        },
        Phase::RootPath => {
            accept_settles(w, Contained::ByParent, Seq::empty(), Seq::empty());
            accept_settles(w, Contained::ByAncestry, Seq::empty(), Seq::empty());
        },
        Phase::CandidatePath => {
            accept_settles(w, Contained::ByParent, Seq::empty(), Seq::empty());
            accept_settles(w, Contained::ByAncestry, Seq::empty(), Seq::empty());
            match reply {
                ReplyView::Bytes(path) => {
                    accept_settles(w, Contained::ByPath, w.probe_path, path);
                },
                _ => {},
            }
        },
        Phase::AncestorStat => {
            accept_settles(w, Contained::ByAncestry, Seq::empty(), Seq::empty());
        },
        _ => {},
    }
}

/// Whether a step that ends a walk leaves it without a handle.
pub open spec fn settles(out: (WalkView, StepView<PartialView>)) -> bool {
    out.1.next is Done ==> out.0.current is None && out.0.candidate is None && out.0.ancestor
        is None
}

proof fn advance_settles(w: WalkView, retired: Seq<i32>)
    ensures
        settles(w.advance(retired)),
    decreases w.remaining.len(),
{
    if w.remaining.len() > 0 {
        let name = w.remaining[0];
        let rest = w.remaining.skip(1);
        if name.len() == 0 || name == dot() {
            match w.symlinks.consume(ComponentKind::NoOp) {
                Ok(symlinks) => {
                    advance_settles(WalkView { remaining: rest, symlinks, ..w }, retired);
                },
                Err(e) => {},
            }
        } else if name == dotdot() {
            match w.symlinks.pop_for_dotdot() {
                Ok((symlinks, verdict)) => {
                    let next = WalkView { remaining: rest, symlinks, ..w };
                    if verdict is Suppress || w.current_id == w.root_id {
                        advance_settles(next, retired);
                    }
                },
                Err(e) => {},
            }
        }
    }
}

proof fn accept_settles(w: WalkView, contained: Contained, root_path: Seq<u8>, path: Seq<u8>)
    ensures
        settles(w.accept(contained, root_path, path)),
{
    let retired = held(w.current) + held(w.ancestor);
    let next = WalkView {
        current: w.candidate,
        current_id: w.candidate_id,
        root_path,
        current_path: path,
        contained,
        candidate: None,
        ancestor: None,
        ..w
    };
    if w.dotdot {
        advance_settles(next, retired);
    } else {
        match w.symlinks.consume(component_kind(w.candidate_kind)) {
            Ok(symlinks) => {
                advance_settles(WalkView { symlinks, ..next }, retired);
            },
            Err(e) => {},
        }
    }
}

proof fn root_dup_settles(w: WalkView, reply: ReplyView)
    ensures
        settles(w.on_root_dup(reply)),
{
    match reply {
        ReplyView::Fd(given) => {
            advance_settles(
                WalkView {
                    current: Some(given),
                    current_id: w.root_id,
                    contained: Contained::Duplicate,
                    root_path: Seq::empty(),
                    current_path: Seq::empty(),
                    ..w
                },
                Seq::empty(),
            );
        },
        _ => {},
    }
}

} // verus!
