//! The symlink stack, and the numbers of the kernel.

use pathrs::error::SymlinkStackError;
use pathrs::flags::{OpenFlags, RenameFlags, ResolverFlags};
use pathrs::symlink_stack::{
    ComponentKind, DotDot, FrameState, SymlinkStack, MAX_EXPANDED_BYTES, MAX_SYMLINK_FRAMES,
};
use pathrs::sys::{FileKind, InodeId};

const DIR: InodeId = InodeId { dev: 1, ino: 2 };

#[test]
fn a_new_stack_is_empty_and_in_order() {
    let stack = SymlinkStack::new();
    assert!(stack.is_empty());
    assert_eq!(stack.depth(), 0);
    assert_eq!(stack.top_state(), None);
    assert_eq!(stack.check_invariants(), Ok(()));
    assert_eq!(MAX_SYMLINK_FRAMES, 40);
    assert_eq!(MAX_EXPANDED_BYTES, 4096);
}

#[test]
fn a_frame_is_pending_until_its_target_is_walked() {
    // The path `l/x`, with `l -> a/b`.
    let mut stack = SymlinkStack::new();
    assert_eq!(stack.push(DIR, b"l", 2, 3), Ok(()));
    assert_eq!(stack.top_state(), Some(FrameState::Pending(2)));
    assert_eq!(stack.consume_component(ComponentKind::Directory), Ok(()));
    assert_eq!(stack.top_state(), Some(FrameState::Pending(1)));
    assert_eq!(stack.consume_component(ComponentKind::Directory), Ok(()));
    assert_eq!(stack.top_state(), Some(FrameState::Expanded(2)));
    assert_eq!(stack.check_invariants(), Ok(()));
    // The next name lies beyond the symlink: its frame leaves.
    assert_eq!(stack.consume_component(ComponentKind::NonDirectory), Ok(()));
    assert!(stack.is_empty());
    assert_eq!(stack.consume_component(ComponentKind::NoOp), Ok(()));
    assert!(stack.is_empty());
}

#[test]
fn components_that_lead_nowhere_are_no_steps() {
    // `l -> ./a/`: four raw components, one step.
    let mut stack = SymlinkStack::new();
    stack.push(DIR, b"l", 3, 4).unwrap();
    stack.consume_component(ComponentKind::NoOp).unwrap();
    assert_eq!(stack.top_state(), Some(FrameState::Pending(2)));
    stack.consume_component(ComponentKind::Directory).unwrap();
    stack.consume_component(ComponentKind::NoOp).unwrap();
    assert_eq!(stack.top_state(), Some(FrameState::Expanded(1)));
}

#[test]
fn dotdot_takes_back_steps_and_then_the_frame() {
    // The path `l/../..`, with `l -> a`.
    let mut stack = SymlinkStack::new();
    stack.push(DIR, b"l", 1, 1).unwrap();
    stack.consume_component(ComponentKind::Directory).unwrap();
    assert_eq!(stack.top_state(), Some(FrameState::Expanded(1)));
    assert_eq!(stack.pop_for_dotdot(), Ok(DotDot::Physical));
    assert_eq!(stack.top_state(), Some(FrameState::Expanded(0)));
    assert_eq!(stack.pop_for_dotdot(), Ok(DotDot::Suppress));
    assert!(stack.is_empty());
    assert_eq!(stack.pop_for_dotdot(), Ok(DotDot::Physical));
    assert!(stack.is_empty());
}

#[test]
fn a_frame_that_leaves_hands_down_what_is_left_of_its_target() {
    // `l -> m/z`, `m -> ../x/y`: the `..` takes `m` off, `x` and `y` are
    // `l`'s from then on.
    let mut stack = SymlinkStack::new();
    stack.push(DIR, b"l", 2, 3).unwrap();
    stack.push(DIR, b"m", 3, 6).unwrap();
    assert_eq!(stack.pop_for_dotdot(), Ok(DotDot::Suppress));
    assert_eq!(stack.depth(), 1);
    assert_eq!(stack.top_state(), Some(FrameState::Pending(3)));
    assert_eq!(stack.check_invariants(), Ok(()));
}

#[test]
fn steps_of_a_nested_symlink_go_to_its_parent() {
    // `l -> m/c`, `m -> a/b`: when `m` is walked, its two steps are `l`'s.
    let mut stack = SymlinkStack::new();
    stack.push(DIR, b"l", 2, 3).unwrap();
    stack.push(DIR, b"m", 2, 3).unwrap();
    assert_eq!(stack.depth(), 2);
    stack.consume_component(ComponentKind::Directory).unwrap();
    stack.consume_component(ComponentKind::Directory).unwrap();
    assert_eq!(stack.top_state(), Some(FrameState::Expanded(2)));
    stack.consume_component(ComponentKind::Directory).unwrap();
    assert_eq!(stack.depth(), 1);
    assert_eq!(stack.top_state(), Some(FrameState::Expanded(3)));
    assert_eq!(stack.check_invariants(), Ok(()));
    stack.retire();
    assert!(stack.is_empty());
}

#[test]
fn budgets_bound_the_stack() {
    let mut stack = SymlinkStack::with_budgets(2, 10);
    assert_eq!(stack.push(DIR, b"a", 1, 4), Ok(()));
    assert_eq!(stack.push(DIR, b"b", 1, 7), Err(SymlinkStackError::TooManyBytes));
    assert_eq!(stack.push(DIR, b"b", 1, 6), Ok(()));
    assert_eq!(stack.push(DIR, b"c", 1, 0), Err(SymlinkStackError::TooManyFrames));
    assert_eq!(stack.depth(), 2);
    stack.reset();
    assert!(stack.is_empty());
    assert_eq!(stack.push(DIR, b"c", 1, 10), Ok(()));
    assert_eq!(stack.check_invariants(), Ok(()));
}

#[test]
fn a_tail_that_does_not_fit_is_an_overflow() {
    let mut stack = SymlinkStack::new();
    stack.push(DIR, b"a", usize::MAX, 1).unwrap();
    stack.push(DIR, b"b", 5, 1).unwrap();
    assert_eq!(stack.pop_for_dotdot(), Err(SymlinkStackError::CounterOverflow));
    assert_eq!(stack.depth(), 2);
    assert_eq!(stack.check_invariants(), Ok(()));
}

#[test]
fn default_budget_is_forty_frames() {
    let mut stack = SymlinkStack::new();
    for _ in 0..40 {
        assert_eq!(stack.push(DIR, b"l", 1, 1), Ok(()));
    }
    assert_eq!(stack.push(DIR, b"l", 1, 1), Err(SymlinkStackError::TooManyFrames));
    assert_eq!(stack.depth(), 40);
}

#[test]
fn file_kinds_are_read_from_modes() {
    assert_eq!(FileKind::from_mode(0o100644), FileKind::Regular);
    assert_eq!(FileKind::from_mode(0o040755), FileKind::Directory);
    assert_eq!(FileKind::from_mode(0o120777), FileKind::Symlink);
    assert_eq!(FileKind::from_mode(0o010600), FileKind::Fifo);
    assert_eq!(FileKind::from_mode(0o020666), FileKind::CharacterDevice);
    assert_eq!(FileKind::from_mode(0o060660), FileKind::BlockDevice);
    assert_eq!(FileKind::from_mode(0o140777), FileKind::Other);
    assert_eq!(FileKind::from_mode(0o644), FileKind::Other);
    assert!(InodeId { dev: 1, ino: 2 }.same(&DIR));
    assert!(!InodeId { dev: 1, ino: 3 }.same(&DIR));
    assert!(!InodeId { dev: 2, ino: 2 }.same(&DIR));
}

#[test]
fn flags_are_sets_of_bits() {
    assert_eq!(ResolverFlags::no_symlinks().bits(), 0x04);
    assert_eq!(ResolverFlags::default(), ResolverFlags::empty());
    let mut flags = ResolverFlags::empty();
    assert!(!flags.forbids_symlinks());
    assert!(!flags.contains(ResolverFlags::no_symlinks()));
    flags.insert(ResolverFlags::no_symlinks());
    assert!(flags.forbids_symlinks());
    assert!(flags.contains(ResolverFlags::no_symlinks()));
    assert!(ResolverFlags::from_bits(0x14).forbids_symlinks());
    assert!(!ResolverFlags::from_bits(0x10).forbids_symlinks());

    assert_eq!(OpenFlags::creat().bits(), 0o100);
    assert_eq!(OpenFlags::directory().bits(), 0o200000);
    let mut open = OpenFlags::from_bits(2);
    open.insert(OpenFlags::creat());
    assert_eq!(open.bits(), 0o102);
    assert!(open.contains(OpenFlags::creat()));
    assert!(!open.contains(OpenFlags::directory()));

    assert_eq!(RenameFlags::empty().bits(), 0);
    assert_eq!(RenameFlags::from_bits(2).bits(), 2);
}
