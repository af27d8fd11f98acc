//! Resolve, then act on one name: whatever an operation below a root is
//! answered, every call that it makes on a directory handle names a single
//! component. No path of several components is handed to the kernel,
//! but to the kernel's own resolver, which is held to the root.

use vstd::prelude::*;
use crate::entry::{EntryOpView, EntryStage};
use crate::lookup::{ParentLookupView, ParentView};
use crate::mkdir_all::{named, MkdirAllView, MkdirStage};
use crate::path::{
    absolute, dot, dotdot, last_slash_divides, parent_and_name, slash_free, split,
    split_is_faithful,
};
use crate::remove_all::{single_names, LevelView, RemoveAllView, RemoveStage};
use crate::resolver::{ResolutionView, Resolver};
use crate::step::{held, NextView, StepView};
use crate::symlink_stack::ComponentKind;
use crate::sys::{ReplyView, SyscallView};
use crate::walk::{component_kind, Contained, PartialView, Phase, WalkView};

verus! {

/// Whether every name that a call hands to the kernel with a directory
/// handle is a single component.
pub open spec fn single_named(call: SyscallView) -> bool {
    match call {
        SyscallView::OpenAt { name, .. } => slash_free(name),
        SyscallView::MkdirAt { name, .. } => slash_free(name),
        SyscallView::MknodAt { name, .. } => slash_free(name),
        SyscallView::SymlinkAt { name, .. } => slash_free(name),
        SyscallView::UnlinkAt { name, .. } => slash_free(name),
        SyscallView::LinkAt { old_name, new_name, .. } => slash_free(old_name) && slash_free(
            new_name,
        ),
        SyscallView::RenameAt2 { old_name, new_name, .. } => slash_free(old_name) && slash_free(
            new_name,
        ),
        _ => true,
    }
}

/// Whether the step of an operation asks for a call on single names, if it
/// asks for one.
pub open spec fn asks_for_names<V>(out: StepView<V>) -> bool {
    out.next matches NextView::Call(call) ==> single_named(call)
}

/// Whether all components are single components.
pub open spec fn all_names(components: Seq<Seq<u8>>) -> bool {
    forall|i: int| 0 <= i < components.len() ==> slash_free(#[trigger] components[i])
}

/// Whether a walk has only single components ahead and in hand.
pub open spec fn well_named(w: WalkView) -> bool {
    all_names(w.remaining) && slash_free(w.name)
}

/// What a move of a walk keeps of its names.
pub open spec fn keeps_names(out: (WalkView, StepView<PartialView>)) -> bool {
    &&& well_named(out.0)
    &&& asks_for_names(out.1)
    &&& out.1.next matches NextView::Done(Ok(end)) ==> all_names(end.remaining)
}

proof fn advance_keeps_names(w: WalkView, retired: Seq<i32>)
    requires
        all_names(w.remaining),
    ensures
        keeps_names(w.advance(retired)),
    decreases w.remaining.len(),
{
    if w.remaining.len() > 0 {
        let name = w.remaining[0];
        let rest = w.remaining.skip(1);
        assert forall|i: int| 0 <= i < rest.len() implies slash_free(#[trigger] rest[i]) by {
            assert(rest[i] == w.remaining[i + 1]);
        }
        if name.len() == 0 || name == dot() {
            match w.symlinks.consume(ComponentKind::NoOp) {
                Ok(symlinks) => {
                    advance_keeps_names(WalkView { remaining: rest, symlinks, ..w }, retired);
                },
                Err(e) => {},
            }
        } else if name == dotdot() {
            match w.symlinks.pop_for_dotdot() {
                Ok((symlinks, verdict)) => {
                    let next = WalkView { remaining: rest, symlinks, ..w };
                    if verdict is Suppress || w.current_id == w.root_id {
                        advance_keeps_names(next, retired);
                    }
                },
                Err(e) => {},
            }
        }
    }
}

proof fn accept_keeps_names(w: WalkView, contained: Contained, root_path: Seq<u8>, path: Seq<u8>)
    requires
        all_names(w.remaining),
    ensures
        keeps_names(w.accept(contained, root_path, path)),
{
    let retired = held(w.current) + held(w.ancestor);
    let next = WalkView {
        current: w.candidate,
        current_id: w.candidate_id,
        root_path,
        current_path: path,
        contained,
        candidate: None,
        ancestor: None,
        ..w
    };
    if w.dotdot {
        advance_keeps_names(next, retired);
    } else {
        match w.symlinks.consume(component_kind(w.candidate_kind)) {
            Ok(symlinks) => {
                advance_keeps_names(WalkView { symlinks, ..next }, retired);
            },
            Err(e) => {},
        }
    }
}

proof fn root_dup_keeps_names(w: WalkView, reply: ReplyView)
    requires
        all_names(w.remaining),
    ensures
        keeps_names(w.on_root_dup(reply)),
{
    match reply {
        ReplyView::Fd(fd) => {
            advance_keeps_names(
                WalkView {
                    current: Some(fd),
                    current_id: w.root_id,
                    contained: Contained::Duplicate,
                    root_path: Seq::empty(),
                    current_path: Seq::empty(),
                    ..w
                },
                Seq::empty(),
            );
        },
        _ => {},
    }
}

/// A walk sets out with single components ahead.
pub proof fn walk_starts_well_named(
    root: i32,
    path: Seq<u8>,
    flags: crate::flags::ResolverFlags,
    nofollow: bool,
    partial: bool,
)
    ensures
        well_named(WalkView::start(root, path, flags, nofollow, partial)),
{
    split_is_faithful(path);
}

/// One name at a time, for the walk. Whatever a walk is answered, every
/// call that it asks for names a single component, and what it leaves
/// unresolved are single components.
pub proof fn walk_keeps_names(w: WalkView, reply: ReplyView)
    requires
        well_named(w),
    ensures
        keeps_names(w.step(reply)),
{
    reveal(WalkView::step);
    match w.phase {
        Phase::RootDup => {
            root_dup_keeps_names(w, reply);
        },
        Phase::Reset => {
            root_dup_keeps_names(w, reply);
        },
        Phase::Open => {
            let left = seq![w.name] + w.remaining;
            assert forall|i: int| 0 <= i < left.len() implies slash_free(#[trigger] left[i]) by {
                if i > 0 {
                    assert(left[i] == w.remaining[i - 1]);
                }
            }
        },
        Phase::Target => {
            match reply {
                ReplyView::Bytes(target) => {
                    split_is_faithful(target);
                    let all = split(target) + w.remaining;
                    assert forall|i: int| 0 <= i < all.len() implies slash_free(
                        #[trigger] all[i],
                    ) by {
                        if i >= split(target).len() {
                            assert(all[i] == w.remaining[i - split(target).len()]);
                        }
                    }
                    if target.len() > 0 && target.len() <= usize::MAX && split(target).len()
                        <= usize::MAX {
                        match w.symlinks.push(
                            w.current_id,
                            w.name,
                            split(target).len() as usize,
                            target.len() as usize,
                        ) {
                            Ok(symlinks) => {
                                let next = WalkView {
                                    remaining: all,
                                    symlinks,
                                    candidate: None,
                                    ..w
                                };
                                if !absolute(target) {
                                    advance_keeps_names(next, held(w.candidate));
                                }
                            },
                            Err(e) => {},
                        }
                    }
                },
                _ => {},
            }
        },
        Phase::RootPath => {
            accept_keeps_names(w, Contained::ByParent, Seq::empty(), Seq::empty());
            accept_keeps_names(w, Contained::ByAncestry, Seq::empty(), Seq::empty());
        },
        Phase::CandidatePath => {
            accept_keeps_names(w, Contained::ByParent, Seq::empty(), Seq::empty());
            accept_keeps_names(w, Contained::ByAncestry, Seq::empty(), Seq::empty());
            match reply {
                ReplyView::Bytes(path) => {
                    accept_keeps_names(w, Contained::ByPath, w.probe_path, path);
                },
                _ => {},
            }
        },
        Phase::AncestorStat => {
            accept_keeps_names(w, Contained::ByAncestry, Seq::empty(), Seq::empty());
        },
        _ => {},
    }
}

/// One name at a time, for the resolution. Whatever a resolution is
/// answered, every call that it asks for on a directory handle names a
/// single component.
pub proof fn resolution_keeps_names(r: ResolutionView, reply: ReplyView)
    requires
        well_named(r.walk),
    ensures
        well_named(r.step(reply).0.walk),
        asks_for_names(r.step(reply).1),
{
    walk_keeps_names(r.walk, reply);
    walk_keeps_names(r.walk, ReplyView::Start);
    let (kernel, step) = r.kernel.step(reply);
    walk_keeps_names(ResolutionView { kernel, ..r }.walk, ReplyView::Start);
}

/// Whether a lookup has only single components ahead, and a single
/// component as its trailing name.
pub open spec fn lookup_well_named(l: ParentLookupView) -> bool {
    well_named(l.resolution.walk) && (l.name matches Some(name) ==> slash_free(name))
}

/// A lookup sets out with single components ahead, and with a single
/// component as its trailing name.
pub proof fn lookup_starts_well_named(resolver: Resolver, root: i32, path: Seq<u8>)
    ensures
        lookup_well_named(ParentLookupView::start(resolver, root, path)),
{
    last_slash_divides(path);
    walk_starts_well_named(root, parent_and_name(path).0, resolver.flags, false, false);
    walk_starts_well_named(root, Seq::empty(), resolver.flags, false, false);
}

proof fn lookup_keeps_names(l: ParentLookupView, reply: ReplyView)
    requires
        lookup_well_named(l),
    ensures
        lookup_well_named(l.step(reply).0),
        asks_for_names(l.step(reply).1),
        l.step(reply).1.next matches NextView::Done(Ok(parent)) ==> (
        parent.name matches Some(name) ==> slash_free(name)),
{
    resolution_keeps_names(l.resolution, reply);
}

/// Whether an operation on single entries has only single components
/// ahead and in hand.
pub open spec fn entry_well_named(e: EntryOpView) -> bool {
    &&& lookup_well_named(e.first)
    &&& lookup_well_named(e.second)
    &&& slash_free(e.name)
    &&& slash_free(e.other_name)
}

/// An operation on single entries sets out with single components ahead.
pub proof fn entry_starts_well_named(
    resolver: Resolver,
    root: i32,
    action: crate::entry::ActionView,
    operation: Seq<char>,
    first: Seq<u8>,
    first_words: crate::entry::WordingView,
    second: Seq<u8>,
    second_words: crate::entry::WordingView,
)
    ensures
        entry_well_named(
            crate::root::entry_op(
                resolver,
                root,
                action,
                operation,
                first,
                first_words,
                second,
                second_words,
            ),
        ),
{
    lookup_starts_well_named(resolver, root, first);
    lookup_starts_well_named(resolver, root, second);
}

/// One name at a time, for the operations on single entries. Whatever a
/// creation, a removal or a rename is answered, every call that it asks
/// for on a directory handle names a single component: the calls of its
/// lookups do, and so does the call that acts, on the trailing name of
/// each of its paths.
pub proof fn entry_keeps_names(e: EntryOpView, reply: ReplyView)
    requires
        entry_well_named(e),
    ensures
        entry_well_named(e.step(reply).0),
        asks_for_names(e.step(reply).1),
{
    lookup_keeps_names(e.first, reply);
    lookup_keeps_names(e.second, reply);
    lookup_keeps_names(e.second, ReplyView::Start);
    match e.stage {
        EntryStage::First => {
            let (first, step) = e.first.step(reply);
            let after = EntryOpView { first, ..e };
            match step.next {
                NextView::Done(Ok(parent)) => {
                    match parent.name {
                        Some(name) => {
                            let found = EntryOpView { dir: Some(parent.dir), name, ..after };
                            if e.action.binary() {
                                let (second, more) = e.second.step(ReplyView::Start);
                                let next = EntryOpView {
                                    stage: EntryStage::Second,
                                    second,
                                    ..found
                                };
                                second_keeps_names(
                                    next,
                                    StepView { retired: step.retired + more.retired, ..more },
                                );
                            }
                        },
                        None => {},
                    }
                },
                _ => {},
            }
        },
        EntryStage::Second => {
            let (second, step) = e.second.step(reply);
            second_keeps_names(EntryOpView { second, ..e }, step);
        },
        _ => {},
    }
}

proof fn second_keeps_names(e: EntryOpView, step: StepView<ParentView>)
    requires
        entry_well_named(e),
        asks_for_names(step),
        step.next matches NextView::Done(Ok(parent)) ==> (parent.name matches Some(name)
            ==> slash_free(name)),
    ensures
        entry_well_named(e.after_second(step).0),
        asks_for_names(e.after_second(step).1),
{
}

/// The components that name something are single components where all
/// components are.
pub proof fn named_are_names(components: Seq<Seq<u8>>)
    requires
        all_names(components),
    ensures
        all_names(named(components)),
    decreases components.len(),
{
    reveal(Seq::filter);
    if components.len() > 0 {
        let shorter = components.drop_last();
        assert forall|i: int| 0 <= i < shorter.len() implies slash_free(#[trigger] shorter[i]) by {
            assert(shorter[i] == components[i]);
        }
        named_are_names(shorter);
    }
}

/// Whether a `mkdir_all` has only single components ahead and in hand.
pub open spec fn mkdir_well_named(m: MkdirAllView) -> bool {
    &&& well_named(m.walk)
    &&& well_named(m.inner.walk)
    &&& all_names(m.parts)
    &&& slash_free(m.part)
}

/// A `mkdir_all` sets out with single components ahead.
pub proof fn mkdir_starts_well_named(resolver: Resolver, root: i32, path: Seq<u8>, perm: u32)
    ensures
        mkdir_well_named(MkdirAllView::start(resolver, root, path, perm)),
{
    walk_starts_well_named(root, path, resolver.flags, false, true);
    walk_starts_well_named(root, Seq::empty(), resolver.flags, true, false);
}

/// One name at a time, for `mkdir_all`. Whatever a `mkdir_all` is
/// answered, every call that it asks for on a directory handle names a
/// single component: each directory is made under one name in the
/// directory before it.
pub proof fn mkdir_keeps_names(m: MkdirAllView, reply: ReplyView)
    requires
        mkdir_well_named(m),
    ensures
        mkdir_well_named(m.step(reply).0),
        asks_for_names(m.step(reply).1),
{
    walk_keeps_names(m.walk, reply);
    resolution_keeps_names(m.inner, reply);
    if m.parts.len() > 0 {
        let rest = m.parts.skip(1);
        assert forall|i: int| 0 <= i < rest.len() implies slash_free(#[trigger] rest[i]) by {
            assert(rest[i] == m.parts[i + 1]);
        }
    }
    match m.stage {
        MkdirStage::Fresh => {
            let (walk, step) = m.walk.step(reply);
            after_walk_keeps_names(MkdirAllView { stage: MkdirStage::Walking, walk, ..m }, step);
        },
        MkdirStage::Walking => {
            let (walk, step) = m.walk.step(reply);
            after_walk_keeps_names(MkdirAllView { walk, ..m }, step);
        },
        MkdirStage::Making => {
            match m.current {
                Some(current) => {
                    let fresh = ResolutionView::start(m.resolver, current, m.part, true);
                    walk_starts_well_named(current, m.part, m.resolver.flags, true, false);
                    resolution_keeps_names(fresh, ReplyView::Start);
                },
                None => {},
            }
        },
        _ => {},
    }
}

proof fn after_walk_keeps_names(m: MkdirAllView, step: StepView<PartialView>)
    requires
        mkdir_well_named(m),
        asks_for_names(step),
        step.next matches NextView::Done(Ok(end)) ==> all_names(end.remaining),
    ensures
        mkdir_well_named(m.after_walk(step).0),
        asks_for_names(m.after_walk(step).1),
{
    match step.next {
        NextView::Done(Ok(end)) => {
            named_are_names(end.remaining);
        },
        _ => {},
    }
}

/// Whether the levels of a removal name single components.
pub open spec fn levels_well_named(levels: Seq<LevelView>) -> bool {
    forall|i: int|
        0 <= i < levels.len() ==> slash_free((#[trigger] levels[i]).name) && all_names(
            levels[i].entries,
        )
}

/// Whether a `remove_all` has only single components ahead and in hand.
pub open spec fn remove_well_named(m: RemoveAllView) -> bool {
    lookup_well_named(m.lookup) && levels_well_named(m.levels)
}

/// One name at a time, for `remove_all`. Whatever a `remove_all` is
/// answered, and whatever names it is told that a directory holds, every
/// call that it asks for on a directory handle names a single component.
pub proof fn remove_keeps_names(m: RemoveAllView, reply: ReplyView)
    requires
        remove_well_named(m),
    ensures
        remove_well_named(m.step(reply).0),
        asks_for_names(m.step(reply).1),
{
    lookup_keeps_names(m.lookup, reply);
    assert(levels_well_named(Seq::<LevelView>::empty()));
    match m.stage {
        RemoveStage::Lookup => {
            let (lookup, step) = m.lookup.step(reply);
            match step.next {
                NextView::Done(Ok(parent)) => {
                    match parent.name {
                        Some(name) => {
                            let level = LevelView {
                                dir: parent.dir,
                                name,
                                sub: None,
                                entries: Seq::empty(),
                            };
                            assert(levels_well_named(seq![level]));
                            assert(seq![level].last() == level);
                        },
                        None => {},
                    }
                },
                _ => {},
            }
        },
        RemoveStage::Unlinking => {
            if m.levels.len() > 1 {
                drop_keeps_names(m);
                descend_keeps_names(
                    RemoveAllView { levels: m.levels.drop_last(), ..m },
                    Seq::empty(),
                );
            }
        },
        RemoveStage::Opening => {
            if m.levels.len() > 0 {
                match reply {
                    ReplyView::Fd(fd) => {
                        let level = LevelView { sub: Some(fd), ..m.levels.last() };
                        let levels = m.levels.drop_last().push(level);
                        assert forall|i: int| 0 <= i < levels.len() implies slash_free(
                            (#[trigger] levels[i]).name,
                        ) && all_names(levels[i].entries) by {
                            assert(levels[i].name == m.levels[i].name);
                            assert(levels[i].entries == m.levels[i].entries);
                        }
                    },
                    _ => {},
                }
            }
        },
        RemoveStage::Listing => {
            if m.levels.len() > 0 {
                match reply {
                    ReplyView::Names(names) => {
                        if single_names(names) {
                            let level = LevelView { entries: names, ..m.levels.last() };
                            let levels = m.levels.drop_last().push(level);
                            assert forall|i: int| 0 <= i < levels.len() implies slash_free(
                                (#[trigger] levels[i]).name,
                            ) && all_names(levels[i].entries) by {
                                assert(levels[i].name == m.levels[i].name);
                                if i < levels.len() - 1 {
                                    assert(levels[i].entries == m.levels[i].entries);
                                }
                            }
                            descend_keeps_names(RemoveAllView { levels, ..m }, Seq::empty());
                        }
                    },
                    _ => {},
                }
            }
        },
        RemoveStage::Removing => {
            if m.levels.len() > 1 {
                drop_keeps_names(m);
                descend_keeps_names(
                    RemoveAllView { levels: m.levels.drop_last(), ..m },
                    held(m.levels.last().sub),
                );
            }
        },
        RemoveStage::Over => {},
    }
}

proof fn drop_keeps_names(m: RemoveAllView)
    requires
        levels_well_named(m.levels),
        m.levels.len() > 0,
    ensures
        levels_well_named(m.levels.drop_last()),
{
    let levels = m.levels.drop_last();
    assert forall|i: int| 0 <= i < levels.len() implies slash_free((#[trigger] levels[i]).name)
        && all_names(levels[i].entries) by {
        assert(levels[i] == m.levels[i]);
    }
}

proof fn descend_keeps_names(m: RemoveAllView, retired: Seq<i32>)
    requires
        remove_well_named(m),
    ensures
        remove_well_named(m.descend(retired).0),
        asks_for_names(m.descend(retired).1),
{
    assert(levels_well_named(Seq::<LevelView>::empty()));
    if m.levels.len() > 0 {
        let level = m.levels.last();
        match level.sub {
            Some(sub) => {
                if level.entries.len() > 0 {
                    let rest = LevelView { entries: level.entries.skip(1), ..level };
                    let inner = LevelView {
                        dir: sub,
                        name: level.entries[0],
                        sub: None,
                        entries: Seq::empty(),
                    };
                    let levels = m.levels.drop_last().push(rest).push(inner);
                    assert(levels.last() == inner);
                    assert forall|i: int| 0 <= i < levels.len() implies slash_free(
                        (#[trigger] levels[i]).name,
                    ) && all_names(levels[i].entries) by {
                        if i < m.levels.len() - 1 {
                            assert(levels[i] == m.levels[i]);
                        } else if i == m.levels.len() - 1 {
                            assert(levels[i] == rest);
                            assert forall|j: int| 0 <= j < rest.entries.len() implies slash_free(
                                #[trigger] rest.entries[j],
                            ) by {
                                assert(rest.entries[j] == level.entries[j + 1]);
                            }
                        }
                    }
                }
            },
            None => {},
        }
    }
}

} // verus!
