//! Walks of a path and of the path with one more name at its end: until
//! the shorter walk ends, the longer one makes the same moves; where the
//! shorter one ends with a handle, the longer one asks for the name to be
//! opened in what the handle refers to.

use vstd::prelude::*;
use crate::path::{absolute, dot, dotdot, split, within};
use crate::remove_all::single_name;
use crate::step::{held, NextView, StepView};
use crate::symlink_stack::{ComponentKind};
use crate::sys::{kind_of_mode, FileKind, InodeId, ReplyView, SyscallView, O_PATH_NOFOLLOW};
use crate::walk::{component_kind, Contained, PartialView, Phase, WalkView};

verus! {

/// The walk `w` with `name` as one more component at the end of what it
/// has ahead, and with its own choice of what to do with a symlink at the
/// end and with a component that cannot be opened.
pub open spec fn longer(w: WalkView, name: Seq<u8>, nofollow: bool, partial: bool) -> WalkView {
    WalkView { remaining: w.remaining.push(name), nofollow, partial, ..w }
}

/// Whether a walk has arrived at the directory `handle` with the one name
/// `name` left, and asks for it to be opened there.
pub open spec fn arrived(l: WalkView, w: WalkView, name: Seq<u8>, handle: i32) -> bool {
    &&& l.phase == Phase::Open
    &&& l.current == Some(handle)
    &&& l.name == name
    &&& !l.dotdot
    &&& l.remaining.len() == 0
    &&& l.candidate is None
    &&& l.ancestor is None
    &&& l.root == w.root
    &&& l.root_id == w.root_id
    &&& l.flags == w.flags
    &&& l.symlinks.retired().frames.len() == 0
    &&& l.symlinks.max_frames == w.symlinks.max_frames
    &&& l.symlinks.max_bytes == w.symlinks.max_bytes
}

/// Whether a walk has met, at the end of its path, what is no directory.
pub open spec fn at_last_name(w: WalkView) -> bool {
    &&& w.phase == Phase::RootPath
    &&& w.candidate_kind != FileKind::Directory
    &&& w.remaining.len() == 0
    &&& !w.dotdot
}

/// How a move of the longer walk follows the same move of the shorter one.
pub open spec fn follows(
    name: Seq<u8>,
    nofollow: bool,
    partial: bool,
    short: (WalkView, StepView<PartialView>),
    long: (WalkView, StepView<PartialView>),
) -> bool {
    match short.1.next {
        NextView::Call(call) => {
            ||| long == (longer(short.0, name, nofollow, partial), short.1)
            ||| at_last_name(short.0) && long.1.next is Done && long.1.next->Done_0 is Err
        },
        NextView::Done(Ok(reached)) => {
            &&& long.1.next == NextView::<PartialView>::Call(
                SyscallView::OpenAt {
                    dir: reached.handle,
                    name,
                    flags: O_PATH_NOFOLLOW,
                    mode: 0,
                },
            )
            &&& arrived(long.0, short.0, name, reached.handle)
            &&& long.0.nofollow == nofollow
            &&& long.0.partial == partial
        },
        NextView::Done(Err(_)) => true,
    }
}

proof fn advance_follows(
    w: WalkView,
    name: Seq<u8>,
    nofollow: bool,
    partial: bool,
    retired: Seq<i32>,
)
    requires
        single_name(name),
        !w.partial,
        w.candidate is None,
        w.ancestor is None,
    ensures
        follows(
            name,
            nofollow,
            partial,
            w.advance(retired),
            longer(w, name, nofollow, partial).advance(retired),
        ),
    decreases w.remaining.len(),
{
    let l = longer(w, name, nofollow, partial);
    if w.remaining.len() == 0 {
        assert(l.remaining[0] == name);
        assert(l.remaining.skip(1) =~= Seq::<Seq<u8>>::empty());
        if w.symlinks.retired().frames.len() == 0 {
            match w.current {
                Some(handle) => {
                    let opened = WalkView { remaining: l.remaining.skip(1), ..l }.open(
                        retired,
                        name,
                        false,
                    );
                    assert(l.advance(retired) == opened);
                },
                None => {},
            }
        }
    } else {
        let first = w.remaining[0];
        let rest = w.remaining.skip(1);
        assert(l.remaining[0] == first);
        assert(l.remaining.skip(1) =~= rest.push(name));
        if first.len() == 0 || first == dot() {
            match w.symlinks.consume(ComponentKind::NoOp) {
                Ok(symlinks) => {
                    let next = WalkView { remaining: rest, symlinks, ..w };
                    advance_follows(next, name, nofollow, partial, retired);
                    assert(WalkView { remaining: l.remaining.skip(1), symlinks, ..l } == longer(
                        next,
                        name,
                        nofollow,
                        partial,
                    ));
                },
                Err(e) => {},
            }
        } else if first == dotdot() {
            match w.symlinks.pop_for_dotdot() {
                Ok((symlinks, verdict)) => {
                    let next = WalkView { remaining: rest, symlinks, ..w };
                    assert(WalkView { remaining: l.remaining.skip(1), symlinks, ..l } == longer(
                        next,
                        name,
                        nofollow,
                        partial,
                    ));
                    if verdict is Suppress || w.current_id == w.root_id {
                        advance_follows(next, name, nofollow, partial, retired);
                    } else {
                        match w.current {
                            Some(dir) => {
                                assert(WalkView {
                                    phase: Phase::Open,
                                    name: first,
                                    dotdot: true,
                                    ..longer(next, name, nofollow, partial)
                                } == longer(
                                    WalkView {
                                        phase: Phase::Open,
                                        name: first,
                                        dotdot: true,
                                        ..next
                                    },
                                    name,
                                    nofollow,
                                    partial,
                                ));
                            },
                            None => {},
                        }
                    }
                },
                Err(e) => {},
            }
        } else {
            let next = WalkView { remaining: rest, ..w };
            assert(WalkView { remaining: l.remaining.skip(1), ..l } == longer(
                next,
                name,
                nofollow,
                partial,
            ));
            match w.current {
                Some(dir) => {
                    assert(WalkView {
                        phase: Phase::Open,
                        name: first,
                        dotdot: false,
                        ..longer(next, name, nofollow, partial)
                    } == longer(
                        WalkView { phase: Phase::Open, name: first, dotdot: false, ..next },
                        name,
                        nofollow,
                        partial,
                    ));
                },
                None => {},
            }
        }
    }
}

proof fn accept_follows(
    w: WalkView,
    name: Seq<u8>,
    nofollow: bool,
    partial: bool,
    contained: Contained,
    root_path: Seq<u8>,
    path: Seq<u8>,
)
    requires
        single_name(name),
        !w.partial,
    ensures
        follows(
            name,
            nofollow,
            partial,
            w.accept(contained, root_path, path),
            longer(w, name, nofollow, partial).accept(contained, root_path, path),
        ),
{
    let l = longer(w, name, nofollow, partial);
    let retired = held(w.current) + held(w.ancestor);
    let next = WalkView {
        current: w.candidate,
        current_id: w.candidate_id,
        root_path,
        current_path: path,
        contained,
        candidate: None,
        ancestor: None,
        ..w
    };
    let lnext = WalkView {
        current: l.candidate,
        current_id: l.candidate_id,
        root_path,
        current_path: path,
        contained,
        candidate: None,
        ancestor: None,
        ..l
    };
    assert(lnext == longer(next, name, nofollow, partial));
    if w.dotdot {
        advance_follows(next, name, nofollow, partial, retired);
    } else {
        match w.symlinks.consume(component_kind(w.candidate_kind)) {
            Ok(symlinks) => {
                advance_follows(WalkView { symlinks, ..next }, name, nofollow, partial, retired);
                assert(WalkView { symlinks, ..lnext } == longer(
                    WalkView { symlinks, ..next },
                    name,
                    nofollow,
                    partial,
                ));
            },
            Err(e) => {},
        }
    }
}

proof fn fallback_follows(w: WalkView, name: Seq<u8>, nofollow: bool, partial: bool)
    requires
        single_name(name),
        !w.partial,
    ensures
        follows(
            name,
            nofollow,
            partial,
            w.fallback(),
            longer(w, name, nofollow, partial).fallback(),
        ),
{
    let l = longer(w, name, nofollow, partial);
    if w.candidate_kind != FileKind::Directory {
        accept_follows(w, name, nofollow, partial, Contained::ByParent, Seq::empty(), Seq::empty());
    } else if w.candidate_id == w.root_id {
        accept_follows(
            w,
            name,
            nofollow,
            partial,
            Contained::ByAncestry,
            Seq::empty(),
            Seq::empty(),
        );
    } else {
        match w.candidate {
            Some(dir) => {
                assert(WalkView {
                    phase: Phase::AncestorOpen,
                    ancestor_id: w.candidate_id,
                    ancestor_depth: 0,
                    ..l
                } == longer(
                    WalkView {
                        phase: Phase::AncestorOpen,
                        ancestor_id: w.candidate_id,
                        ancestor_depth: 0,
                        ..w
                    },
                    name,
                    nofollow,
                    partial,
                ));
            },
            None => {},
        }
    }
}

proof fn root_dup_follows(
    w: WalkView,
    name: Seq<u8>,
    nofollow: bool,
    partial: bool,
    reply: ReplyView,
)
    requires
        single_name(name),
        !w.partial,
        w.candidate is None,
        w.ancestor is None,
    ensures
        follows(
            name,
            nofollow,
            partial,
            w.on_root_dup(reply),
            longer(w, name, nofollow, partial).on_root_dup(reply),
        ),
{
    let l = longer(w, name, nofollow, partial);
    match reply {
        ReplyView::Fd(fd) => {
            let next = WalkView {
                current: Some(fd),
                current_id: w.root_id,
                contained: Contained::Duplicate,
                root_path: Seq::empty(),
                current_path: Seq::empty(),
                ..w
            };
            advance_follows(next, name, nofollow, partial, Seq::empty());
            assert(WalkView {
                current: Some(fd),
                current_id: l.root_id,
                contained: Contained::Duplicate,
                root_path: Seq::empty(),
                current_path: Seq::empty(),
                ..l
            } == longer(next, name, nofollow, partial));
        },
        _ => {},
    }
}

proof fn target_follows(
    w: WalkView,
    name: Seq<u8>,
    nofollow: bool,
    partial: bool,
    reply: ReplyView,
)
    requires
        single_name(name),
        !w.partial,
        w.ancestor is None,
    ensures
        follows(
            name,
            nofollow,
            partial,
            w.on_target(reply),
            longer(w, name, nofollow, partial).on_target(reply),
        ),
{
    let l = longer(w, name, nofollow, partial);
    match reply {
        ReplyView::Bytes(target) => {
            if target.len() > 0 && target.len() <= usize::MAX && split(target).len()
                <= usize::MAX {
                match w.symlinks.push(
                    w.current_id,
                    w.name,
                    split(target).len() as usize,
                    target.len() as usize,
                ) {
                    Ok(symlinks) => {
                        let next = WalkView {
                            remaining: split(target) + w.remaining,
                            symlinks,
                            candidate: None,
                            ..w
                        };
                        let lnext = WalkView {
                            remaining: split(target) + l.remaining,
                            symlinks,
                            candidate: None,
                            ..l
                        };
                        assert(split(target) + l.remaining =~= (split(target)
                            + w.remaining).push(name));
                        assert(lnext == longer(next, name, nofollow, partial));
                        if absolute(target) {
                            assert(WalkView { phase: Phase::Reset, current: None, ..lnext }
                                == longer(
                                WalkView { phase: Phase::Reset, current: None, ..next },
                                name,
                                nofollow,
                                partial,
                            ));
                        } else {
                            advance_follows(next, name, nofollow, partial, held(w.candidate));
                        }
                    },
                    Err(e) => {},
                }
            }
        },
        _ => {},
    }
}

proof fn stat_follows(w: WalkView, name: Seq<u8>, nofollow: bool, partial: bool, reply: ReplyView)
    requires
        single_name(name),
        !w.partial,
        !w.nofollow,
    ensures
        follows(
            name,
            nofollow,
            partial,
            w.on_stat(reply),
            longer(w, name, nofollow, partial).on_stat(reply),
        ),
{
    let l = longer(w, name, nofollow, partial);
    match reply {
        ReplyView::Stat { mode, dev, ino } => {
            let kind = kind_of_mode(mode);
            let next = WalkView { candidate_id: InodeId { dev, ino }, candidate_kind: kind, ..w };
            let lnext = WalkView { candidate_id: InodeId { dev, ino }, candidate_kind: kind, ..l };
            assert(lnext == longer(next, name, nofollow, partial));
            assert(WalkView { phase: Phase::RootPath, ..lnext } == longer(
                WalkView { phase: Phase::RootPath, ..next },
                name,
                nofollow,
                partial,
            ));
            assert(WalkView { phase: Phase::Target, ..lnext } == longer(
                WalkView { phase: Phase::Target, ..next },
                name,
                nofollow,
                partial,
            ));
        },
        _ => {},
    }
}

/// A move of the longer walk follows the same move of the shorter one.
pub proof fn step_follows(
    w: WalkView,
    name: Seq<u8>,
    nofollow: bool,
    partial: bool,
    reply: ReplyView,
)
    requires
        single_name(name),
        !w.partial,
        !w.nofollow,
        w.ancestor is None,
        w.phase != Phase::AncestorOpen && w.phase != Phase::AncestorStat,
        (w.phase == Phase::RootDup || w.phase == Phase::Reset) ==> w.candidate is None,
    ensures
        follows(
            name,
            nofollow,
            partial,
            w.step(reply),
            longer(w, name, nofollow, partial).step(reply),
        ),
{
    reveal(WalkView::step);
    let l = longer(w, name, nofollow, partial);
    match w.phase {
        Phase::Start => {
            assert(WalkView { phase: Phase::RootStat, ..l } == longer(
                WalkView { phase: Phase::RootStat, ..w },
                name,
                nofollow,
                partial,
            ));
        },
        Phase::RootStat => {
            match reply {
                ReplyView::Stat { mode, dev, ino } => {
                    assert(WalkView {
                        phase: Phase::RootDup,
                        root_id: InodeId { dev, ino },
                        ..l
                    } == longer(
                        WalkView { phase: Phase::RootDup, root_id: InodeId { dev, ino }, ..w },
                        name,
                        nofollow,
                        partial,
                    ));
                },
                _ => {},
            }
        },
        Phase::RootDup => {
            root_dup_follows(w, name, nofollow, partial, reply);
        },
        Phase::Reset => {
            root_dup_follows(w, name, nofollow, partial, reply);
        },
        Phase::Open => {
            match reply {
                ReplyView::Fd(fd) => {
                    assert(WalkView { phase: Phase::Stat, candidate: Some(fd), ..l } == longer(
                        WalkView { phase: Phase::Stat, candidate: Some(fd), ..w },
                        name,
                        nofollow,
                        partial,
                    ));
                },
                _ => {},
            }
        },
        Phase::Stat => {
            stat_follows(w, name, nofollow, partial, reply);
        },
        Phase::Target => {
            target_follows(w, name, nofollow, partial, reply);
        },
        Phase::RootPath => {
            match reply {
                ReplyView::Bytes(path) => {
                    match w.candidate {
                        Some(fd) => {
                            assert(WalkView {
                                phase: Phase::CandidatePath,
                                probe_path: path,
                                ..l
                            } == longer(
                                WalkView { phase: Phase::CandidatePath, probe_path: path, ..w },
                                name,
                                nofollow,
                                partial,
                            ));
                        },
                        None => {},
                    }
                },
                ReplyView::Failed(_) => {
                    fallback_follows(w, name, nofollow, partial);
                },
                _ => {},
            }
        },
        Phase::CandidatePath => {
            match reply {
                ReplyView::Bytes(path) => {
                    if within(w.probe_path, path) {
                        accept_follows(
                            w,
                            name,
                            nofollow,
                            partial,
                            Contained::ByPath,
                            w.probe_path,
                            path,
                        );
                    }
                },
                ReplyView::Failed(_) => {
                    fallback_follows(w, name, nofollow, partial);
                },
                _ => {},
            }
        },
        Phase::AncestorOpen => {},
        Phase::AncestorStat => {},
        Phase::Finished => {},
    }
}

} // verus!
