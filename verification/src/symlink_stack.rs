//! The symlink stack: one frame for each symlink whose expansion the walk
//! is in, or has just left. It decides what a `..` means after a symlink
//! was expanded, and it bounds how deep and how long expansions get.
//!
//! A frame counts the components of its symlink's target that the walk
//! still has ahead (its *tail*). While there is such a tail the frame is
//! *pending*; after that it is *expanded*, and counts the directory steps
//! that the symlink has contributed. A component that the walk deals with
//! belongs to the topmost pending frame, or, where no frame is pending, to
//! the path that the walk was given.

use vstd::prelude::*;
use crate::error::SymlinkStackError;
use crate::path::copy_bytes;
use crate::sys::InodeId;

verus! {

/// The symlink-expansion budget: how many frames a stack holds by default.
pub const MAX_SYMLINK_FRAMES: usize = 40;

/// The path-length budget: how many bytes the targets of the frames of a
/// stack have together by default.
pub const MAX_EXPANDED_BYTES: usize = 4096;

/// A component that the walk has dealt with.
#[derive(Debug, Clone, Copy, PartialEq, Eq)]
pub enum ComponentKind {
    /// An empty component or `.`: the walk stays where it is.
    NoOp,
    /// A name that led into a directory.
    Directory,
    /// A name that led to something that is no directory.
    NonDirectory,
}

/// What the walk is to do with a `..`.
#[derive(Debug, Clone, Copy, PartialEq, Eq)]
pub enum DotDot {
    /// Go to the parent directory.
    Physical,
    /// Stay: the `..` only undid a symlink that led nowhere.
    Suppress,
}

/// Where the expansion of a frame's symlink stands.
#[derive(Debug, Clone, Copy, PartialEq, Eq)]
pub enum FrameState {
    /// So many components of the target are still to be walked.
    Pending(usize),
    /// The target is walked; the symlink contributed so many directory
    /// steps that no `..` has taken back.
    Expanded(usize),
}

/// One symlink that was expanded.
#[derive(Debug)]
pub struct Frame {
    /// The directory in which the symlink was met.
    pub id: InodeId,
    /// The name of the symlink in that directory.
    pub name: Vec<u8>,
    /// How many frames were below this one when it was pushed.
    pub depth: usize,
    /// The components of the target that are still ahead.
    pub tail: usize,
    /// The directory steps that the symlink has contributed.
    pub consumed: usize,
    /// The length of the symlink's target.
    pub bytes: usize,
}

/// The mathematical content of a [`Frame`].
pub struct FrameView {
    pub id: InodeId,
    pub name: Seq<u8>,
    pub depth: usize,
    pub tail: usize,
    pub consumed: usize,
    pub bytes: usize,
}

impl View for Frame {
    type V = FrameView;

    open spec fn view(&self) -> FrameView {
        FrameView {
            id: self.id,
            name: self.name@,
            depth: self.depth,
            tail: self.tail,
            consumed: self.consumed,
            bytes: self.bytes,
        }
    }
}

/// The views of the frames of a vector.
pub open spec fn frames_of(frames: Seq<Frame>) -> Seq<FrameView> {
    Seq::new(frames.len(), |i: int| frames[i]@)
}

/// The directory steps that all frames together have contributed.
pub open spec fn sum_consumed(frames: Seq<FrameView>) -> int
    decreases frames.len(),
{
    if frames.len() == 0 {
        0
    } else {
        sum_consumed(frames.drop_last()) + frames.last().consumed
    }
}

/// The length of the targets of all frames together.
pub open spec fn sum_bytes(frames: Seq<FrameView>) -> int
    decreases frames.len(),
{
    if frames.len() == 0 {
        0
    } else {
        sum_bytes(frames.drop_last()) + frames.last().bytes
    }
}

/// Whether each frame lies where it was pushed: inside the frames that
/// were below it then.
pub open spec fn nested(frames: Seq<FrameView>) -> bool {
    forall|i: int| 0 <= i < frames.len() ==> (#[trigger] frames[i]).depth == i
}

/// The frames after one component of the topmost pending frame is no
/// longer ahead. Without a pending frame the frames stay as they are: the
/// component was one of the path that the walk was given.
pub open spec fn take_one(frames: Seq<FrameView>) -> Seq<FrameView>
    decreases frames.len(),
{
    if frames.len() == 0 {
        frames
    } else if frames.last().tail > 0 {
        frames.drop_last().push(
            FrameView { tail: (frames.last().tail - 1) as usize, ..frames.last() },
        )
    } else {
        take_one(frames.drop_last()).push(frames.last())
    }
}

/// The mathematical content of a [`SymlinkStack`].
pub struct StackView {
    /// The frames, the innermost expansion last.
    pub frames: Seq<FrameView>,
    /// The symlink-expansion budget.
    pub max_frames: usize,
    /// The path-length budget.
    pub max_bytes: usize,
}

impl StackView {
    /// The invariants of the stack: it is within both budgets, its frames
    /// are nested, and the steps that they count fit a counter.
    pub open spec fn wf(self) -> bool {
        &&& self.frames.len() <= self.max_frames
        &&& sum_bytes(self.frames) <= self.max_bytes
        &&& sum_consumed(self.frames) <= usize::MAX
        &&& nested(self.frames)
    }

    /// The state of the topmost frame.
    pub open spec fn top_state(self) -> Option<FrameState> {
        if self.frames.len() == 0 {
            None
        } else if self.frames.last().tail > 0 {
            Some(FrameState::Pending(self.frames.last().tail))
        } else {
            Some(FrameState::Expanded(self.frames.last().consumed))
        }
    }

    /// The stack without its topmost frame, whose directory steps go to the
    /// frame below it.
    pub open spec fn without_top(self) -> StackView {
        let below = self.frames.drop_last();
        if below.len() == 0 {
            StackView { frames: below, ..self }
        } else {
            let parent = FrameView {
                consumed: (below.last().consumed + self.frames.last().consumed) as usize,
                ..below.last()
            };
            StackView { frames: below.drop_last().push(parent), ..self }
        }
    }

    /// The stack after the expansions that are complete have left it: the
    /// topmost frame that remains, if one does, is pending.
    pub open spec fn retired(self) -> StackView
        decreases self.frames.len(),
    {
        if self.frames.len() > 0 && self.frames.last().tail == 0 {
            self.without_top().retired()
        } else {
            self
        }
    }

    /// The stack after the walk has dealt with a component that is neither
    /// `..` nor a symlink. Complete expansions leave first; the component
    /// is then one of the topmost frame, if one is left, and a step into a
    /// directory counts for that frame.
    pub open spec fn consume(self, kind: ComponentKind) -> Result<StackView, SymlinkStackError> {
        let s = self.retired();
        if s.frames.len() == 0 {
            Ok(s)
        } else if kind == ComponentKind::Directory {
            if sum_consumed(s.frames) >= usize::MAX {
                Err(SymlinkStackError::CounterOverflow)
            } else {
                let top = FrameView {
                    tail: (s.frames.last().tail - 1) as usize,
                    consumed: (s.frames.last().consumed + 1) as usize,
                    ..s.frames.last()
                };
                Ok(StackView { frames: s.frames.drop_last().push(top), ..s })
            }
        } else {
            Ok(StackView { frames: take_one(s.frames), ..s })
        }
    }

    /// The stack after the walk has met a symlink `name` in the directory
    /// `id` whose target has `bytes` bytes and `components` raw components.
    /// Complete expansions leave first; the name itself is no longer ahead,
    /// the components of the target are.
    pub open spec fn push(
        self,
        id: InodeId,
        name: Seq<u8>,
        components: usize,
        bytes: usize,
    ) -> Result<StackView, SymlinkStackError> {
        let s = self.retired();
        if s.frames.len() >= s.max_frames {
            Err(SymlinkStackError::TooManyFrames)
        } else if sum_bytes(s.frames) + bytes > s.max_bytes {
            Err(SymlinkStackError::TooManyBytes)
        } else {
            let frame = FrameView {
                id,
                name,
                depth: s.frames.len() as usize,
                tail: components,
                consumed: 0,
                bytes,
            };
            Ok(StackView { frames: take_one(s.frames).push(frame), ..s })
        }
    }

    /// The stack after the walk has met a `..`, and what the walk is to do
    /// with it. Where the topmost frame has directory steps left, one of
    /// them is taken back and the walk goes to the parent; where it has
    /// none, the frame leaves, what is left of its target goes to the frame
    /// below it, and the walk stays. Without a frame the `..` is the walk's
    /// own.
    pub open spec fn pop_for_dotdot(self) -> Result<(StackView, DotDot), SymlinkStackError> {
        let frames = take_one(self.frames);
        if frames.len() == 0 {
            Ok((self, DotDot::Physical))
        } else if frames.last().consumed > 0 {
            let top = FrameView {
                consumed: (frames.last().consumed - 1) as usize,
                ..frames.last()
            };
            Ok((StackView { frames: frames.drop_last().push(top), ..self }, DotDot::Physical))
        } else {
            let below = frames.drop_last();
            if below.len() == 0 {
                Ok((StackView { frames: below, ..self }, DotDot::Suppress))
            } else if below.last().tail + frames.last().tail > usize::MAX {
                Err(SymlinkStackError::CounterOverflow)
            } else {
                let parent = FrameView {
                    tail: (below.last().tail + frames.last().tail) as usize,
                    ..below.last()
                };
                Ok(
                    (
                        StackView { frames: below.drop_last().push(parent), ..self },
                        DotDot::Suppress,
                    ),
                )
            }
        }
    }
}

/// Counting the steps and the bytes of a stack with one frame more.
pub proof fn sums_of_push(frames: Seq<FrameView>, frame: FrameView)
    ensures
        sum_consumed(frames.push(frame)) == sum_consumed(frames) + frame.consumed,
        sum_bytes(frames.push(frame)) == sum_bytes(frames) + frame.bytes,
{
    assert(frames.push(frame).drop_last() =~= frames);
}

/// Steps and bytes are counted from zero.
pub proof fn sums_are_natural(frames: Seq<FrameView>)
    ensures
        sum_consumed(frames) >= 0,
        sum_bytes(frames) >= 0,
    decreases frames.len(),
{
    if frames.len() > 0 {
        sums_are_natural(frames.drop_last());
    }
}

/// No frame counts more steps, or holds more bytes, than all together.
pub proof fn sums_bound_each(frames: Seq<FrameView>, i: int)
    requires
        0 <= i < frames.len(),
    ensures
        frames[i].consumed <= sum_consumed(frames),
        frames[i].bytes <= sum_bytes(frames),
    decreases frames.len(),
{
    sums_are_natural(frames.drop_last());
    if i < frames.len() - 1 {
        sums_bound_each(frames.drop_last(), i);
    }
}

/// The frames at the bottom of a stack count no more steps, and hold no
/// more bytes, than all of them.
pub proof fn sum_of_prefix(frames: Seq<FrameView>, n: int)
    requires
        0 <= n <= frames.len(),
    ensures
        sum_consumed(frames.take(n)) <= sum_consumed(frames),
        sum_bytes(frames.take(n)) <= sum_bytes(frames),
    decreases frames.len() - n,
{
    if n < frames.len() {
        sum_of_prefix(frames, n + 1);
        assert(frames.take(n + 1).drop_last() =~= frames.take(n));
    } else {
        assert(frames.take(n) =~= frames);
    }
}

/// Taking a component off changes the tail of one frame at most: the
/// frames keep their number, their places, their steps and their bytes.
pub proof fn take_one_keeps(frames: Seq<FrameView>)
    ensures
        take_one(frames).len() == frames.len(),
        sum_consumed(take_one(frames)) == sum_consumed(frames),
        sum_bytes(take_one(frames)) == sum_bytes(frames),
        nested(frames) ==> nested(take_one(frames)),
        forall|i: int|
            0 <= i < frames.len() ==> {
                &&& (#[trigger] take_one(frames)[i]).consumed == frames[i].consumed
                &&& take_one(frames)[i].bytes == frames[i].bytes
                &&& take_one(frames)[i].depth == frames[i].depth
                &&& take_one(frames)[i].id == frames[i].id
                &&& take_one(frames)[i].name == frames[i].name
                &&& take_one(frames)[i].tail <= frames[i].tail
            },
    decreases frames.len(),
{
    if frames.len() == 0 {
    } else if frames.last().tail > 0 {
        let top = FrameView { tail: (frames.last().tail - 1) as usize, ..frames.last() };
        sums_of_push(frames.drop_last(), top);
        assert(frames.drop_last().push(frames.last()) =~= frames);
        sums_of_push(frames.drop_last(), frames.last());
    } else {
        take_one_keeps(frames.drop_last());
        sums_of_push(take_one(frames.drop_last()), frames.last());
        assert(frames.drop_last().push(frames.last()) =~= frames);
        sums_of_push(frames.drop_last(), frames.last());
    }
}

/// Taking the topmost frame off keeps the invariants, and the steps that
/// the frames count unless the stack is left empty.
pub proof fn without_top_keeps_wf(s: StackView)
    requires
        s.wf(),
        s.frames.len() > 0,
    ensures
        s.without_top().wf(),
        s.without_top().frames.len() == s.frames.len() - 1,
        s.without_top().max_frames == s.max_frames,
        s.without_top().max_bytes == s.max_bytes,
        sum_bytes(s.without_top().frames) == sum_bytes(s.frames) - s.frames.last().bytes,
        s.frames.len() > 1 ==> sum_consumed(s.without_top().frames) == sum_consumed(s.frames),
        s.frames.len() == 1 ==> sum_consumed(s.without_top().frames) == 0,
{
    let below = s.frames.drop_last();
    sums_are_natural(below);
    if below.len() > 0 {
        let rest = below.drop_last();
        sums_are_natural(rest);
        let parent = FrameView {
            consumed: (below.last().consumed + s.frames.last().consumed) as usize,
            ..below.last()
        };
        sums_of_push(rest, parent);
        let after = rest.push(parent);
        assert forall|i: int| 0 <= i < after.len() implies (#[trigger] after[i]).depth == i by {
            assert(after[i].depth == s.frames[i].depth);
        }
    } else {
        assert(nested(below));
    }
}

/// Retiring keeps the invariants and leaves a stack whose topmost frame, if
/// it has one, is pending.
pub proof fn retired_keeps_wf(s: StackView)
    requires
        s.wf(),
    ensures
        s.retired().wf(),
        s.retired().max_frames == s.max_frames,
        s.retired().max_bytes == s.max_bytes,
        s.retired().frames.len() <= s.frames.len(),
        s.retired().frames.len() > 0 ==> s.retired().frames.last().tail > 0,
        s.retired().retired() == s.retired(),
    decreases s.frames.len(),
{
    if s.frames.len() > 0 && s.frames.last().tail == 0 {
        without_top_keeps_wf(s);
        retired_keeps_wf(s.without_top());
    }
}

/// The stack of symlinks that a walk is expanding.
#[derive(Debug)]
pub struct SymlinkStack {
    frames: Vec<Frame>,
    advances: usize,
    expanded: usize,
    max_frames: usize,
    max_bytes: usize,
}

impl View for SymlinkStack {
    type V = StackView;

    closed spec fn view(&self) -> StackView {
        StackView {
            frames: frames_of(self.frames@),
            max_frames: self.max_frames,
            max_bytes: self.max_bytes,
        }
    }
}

impl SymlinkStack {
    /// The invariants of the stack, and that its two counters say what its
    /// frames add up to.
    pub closed spec fn wf(&self) -> bool {
        &&& self@.wf()
        &&& self.advances == sum_consumed(self@.frames)
        &&& self.expanded == sum_bytes(self@.frames)
    }

    /// An empty stack with the default budgets.
    pub fn new() -> (stack: SymlinkStack)
        ensures
            stack.wf(),
            stack@ == (StackView {
                frames: Seq::empty(),
                max_frames: MAX_SYMLINK_FRAMES,
                max_bytes: MAX_EXPANDED_BYTES,
            }),
    {
        SymlinkStack::with_budgets(MAX_SYMLINK_FRAMES, MAX_EXPANDED_BYTES)
    }

    /// An empty stack with the given budgets.
    pub fn with_budgets(max_frames: usize, max_bytes: usize) -> (stack: SymlinkStack)
        ensures
            stack.wf(),
            stack@ == (StackView { frames: Seq::empty(), max_frames, max_bytes }),
    {
        let stack = SymlinkStack {
            frames: Vec::new(),
            advances: 0,
            expanded: 0,
            max_frames,
            max_bytes,
        };
        assert(frames_of(stack.frames@) =~= Seq::empty());
        stack
    }

    /// Empties the stack; the budgets stay.
    pub fn reset(&mut self)
        ensures
            final(self).wf(),
            final(self)@ == (StackView { frames: Seq::empty(), ..old(self)@ }),
    {
        self.frames = Vec::new();
        self.advances = 0;
        self.expanded = 0;
        assert(frames_of(self.frames@) =~= Seq::empty());
    }

    /// Whether the stack holds no frame.
    pub fn is_empty(&self) -> (empty: bool)
        ensures
            empty == (self@.frames.len() == 0),
    {
        self.frames.len() == 0
    }

    /// How many frames the stack holds.
    pub fn depth(&self) -> (depth: usize)
        ensures
            depth == self@.frames.len(),
    {
        self.frames.len()
    }

    /// The state of the topmost frame.
    pub fn top_state(&self) -> (state: Option<FrameState>)
        ensures
            state == self@.top_state(),
    {
        let depth = self.frames.len();
        if depth == 0 {
            None
        } else {
            let top = &self.frames[depth - 1];
            assert(self@.frames.last() == top@);
            if top.tail > 0 {
                Some(FrameState::Pending(top.tail))
            } else {
                Some(FrameState::Expanded(top.consumed))
            }
        }
    }

    /// Takes the topmost frame off; its directory steps go to the frame
    /// below it.
    fn drop_top(&mut self)
        requires
            old(self).wf(),
            old(self)@.frames.len() > 0,
        ensures
            final(self).wf(),
            final(self)@ == old(self)@.without_top(),
    {
        proof {
            without_top_keeps_wf(self@);
            sums_are_natural(self@.frames.drop_last());
        }
        let ghost before = self@;
        let top = self.frames.pop().unwrap();
        assert(top@ == before.frames.last());
        assert(frames_of(self.frames@) =~= before.frames.drop_last());
        self.expanded = self.expanded - top.bytes;
        match self.frames.pop() {
            Some(parent) => {
                let ghost rest = frames_of(self.frames@);
                assert(rest =~= before.frames.drop_last().drop_last());
                assert(parent@ == before.frames.drop_last().last());
                proof {
                    sums_are_natural(rest);
                }
                let merged = Frame {
                    id: parent.id,
                    name: parent.name,
                    depth: parent.depth,
                    tail: parent.tail,
                    consumed: parent.consumed + top.consumed,
                    bytes: parent.bytes,
                };
                self.frames.push(merged);
                assert(frames_of(self.frames@) =~= before.without_top().frames);
            },
            None => {
                self.advances = 0;
                assert(frames_of(self.frames@) =~= before.without_top().frames);
            },
        }
    }

    /// Lets the expansions that are complete leave the stack.
    pub fn retire(&mut self)
        requires
            old(self).wf(),
        ensures
            final(self).wf(),
            final(self)@ == old(self)@.retired(),
            final(self)@.max_frames == old(self)@.max_frames,
            final(self)@.max_bytes == old(self)@.max_bytes,
    {
        proof {
            retired_keeps_wf(self@);
        }
        loop
            invariant
                self.wf(),
                self@.retired() == old(self)@.retired(),
            ensures
                self.wf(),
                self@ == old(self)@.retired(),
            decreases self.frames.len(),
        {
            let depth = self.frames.len();
            if depth == 0 {
                break ;
            }
            let tail = self.frames[depth - 1].tail;
            assert(self@.frames.last() == self.frames@[depth - 1]@);
            if tail > 0 {
                break ;
            }
            self.drop_top();
        }
    }

    /// Takes one component off the topmost pending frame.
    fn take(&mut self)
        requires
            old(self).wf(),
        ensures
            final(self).wf(),
            final(self)@ == (StackView { frames: take_one(old(self)@.frames), ..old(self)@ }),
    {
        let ghost before = self@.frames;
        proof {
            take_one_keeps(before);
        }
        let mut i: usize = self.frames.len();
        assert(before.take(i as int) =~= before);
        assert(take_one(before) + before.skip(i as int) =~= take_one(before));
        while i > 0
            invariant
                i <= self.frames.len(),
                *self == *old(self),
                before == old(self)@.frames,
                frames_of(self.frames@) == before,
                take_one(before) == take_one(before.take(i as int)) + before.skip(i as int),
                self.wf(),
                take_one(before).len() == before.len(),
                sum_consumed(take_one(before)) == sum_consumed(before),
                sum_bytes(take_one(before)) == sum_bytes(before),
                nested(take_one(before)),
            decreases i,
        {
            let ghost lower = before.take(i as int);
            assert(lower.last() == self.frames@[i - 1]@);
            assert(lower.drop_last() =~= before.take(i - 1));
            if self.frames[i - 1].tail > 0 {
                let frame = self.frames.remove(i - 1);
                assert(frame@ == lower.last());
                let less = Frame {
                    id: frame.id,
                    name: frame.name,
                    depth: frame.depth,
                    tail: frame.tail - 1,
                    consumed: frame.consumed,
                    bytes: frame.bytes,
                };
                self.frames.insert(i - 1, less);
                assert(frames_of(self.frames@) =~= take_one(before)) by {
                    assert(take_one(lower) =~= lower.drop_last().push(less@));
                    assert(frames_of(self.frames@) =~= lower.drop_last().push(less@) + before.skip(
                        i as int,
                    ));
                }
                return ;
            }
            assert(take_one(lower) == take_one(lower.drop_last()).push(lower.last()));
            assert(take_one(lower.drop_last()).push(lower.last()) + before.skip(i as int)
                =~= take_one(before.take(i - 1)) + before.skip(i - 1));
            i -= 1;
        }
        assert(before.take(0) =~= Seq::empty());
        assert(before.skip(0) =~= before);
        assert(take_one(before) =~= before);
    }

    /// Tells the stack that the walk has dealt with a component that is
    /// neither `..` nor a symlink.
    ///
    /// Fails with `CounterOverflow` where the directory steps no longer fit
    /// their counter; the stack is then as it is after complete expansions
    /// have left.
    pub fn consume_component(&mut self, kind: ComponentKind) -> (done: Result<
        (),
        SymlinkStackError,
    >)
        requires
            old(self).wf(),
        ensures
            final(self).wf(),
            final(self)@.max_frames == old(self)@.max_frames,
            final(self)@.max_bytes == old(self)@.max_bytes,
            match done {
                Ok(()) => old(self)@.consume(kind) == Ok::<StackView, SymlinkStackError>(
                    final(self)@,
                ),
                Err(e) => old(self)@.consume(kind) == Err::<StackView, SymlinkStackError>(e)
                    && final(self)@ == old(self)@.retired(),
            },
    {
        self.retire();
        let depth = self.frames.len();
        if depth == 0 {
            return Ok(());
        }
        let advance = match kind {
            ComponentKind::Directory => true,
            _ => false,
        };
        if advance {
            if self.advances == usize::MAX {
                return Err(SymlinkStackError::CounterOverflow);
            }
            let ghost before = self@;
            proof {
                retired_keeps_wf(old(self)@);
            }
            let top = self.frames.pop().unwrap();
            assert(top@ == before.frames.last());
            assert(frames_of(self.frames@) =~= before.frames.drop_last());
            proof {
                sums_of_push(before.frames.drop_last(), before.frames.last());
                assert(before.frames.drop_last().push(before.frames.last()) =~= before.frames);
                sums_bound_each(before.frames, depth - 1);
            }
            let stepped = Frame {
                id: top.id,
                name: top.name,
                depth: top.depth,
                tail: top.tail - 1,
                consumed: top.consumed + 1,
                bytes: top.bytes,
            };
            proof {
                sums_of_push(before.frames.drop_last(), stepped@);
            }
            self.frames.push(stepped);
            self.advances = self.advances + 1;
            let ghost after = before.frames.drop_last().push(stepped@);
            assert(frames_of(self.frames@) =~= after);
            assert forall|i: int| 0 <= i < after.len() implies (#[trigger] after[i]).depth == i by {
                assert(after[i].depth == before.frames[i].depth);
            }
        } else {
            self.take();
        }
        Ok(())
    }

    /// Pushes the frame of a symlink `name` that the walk has met in the
    /// directory `id`, and whose target has `bytes` bytes and `components`
    /// raw components.
    ///
    /// Fails with `TooManyFrames` or `TooManyBytes` where the frame would
    /// exceed a budget; the stack is then as it is after complete
    /// expansions have left.
    pub fn push(&mut self, id: InodeId, name: &[u8], components: usize, bytes: usize) -> (done:
        Result<(), SymlinkStackError>)
        requires
            old(self).wf(),
        ensures
            final(self).wf(),
            final(self)@.max_frames == old(self)@.max_frames,
            final(self)@.max_bytes == old(self)@.max_bytes,
            match done {
                Ok(()) => old(self)@.push(id, name@, components, bytes) == Ok::<
                    StackView,
                    SymlinkStackError,
                >(final(self)@),
                Err(e) => old(self)@.push(id, name@, components, bytes) == Err::<
                    StackView,
                    SymlinkStackError,
                >(e) && final(self)@ == old(self)@.retired(),
            },
    {
        self.retire();
        if self.frames.len() >= self.max_frames {
            return Err(SymlinkStackError::TooManyFrames);
        }
        if bytes > self.max_bytes - self.expanded {
            return Err(SymlinkStackError::TooManyBytes);
        }
        let ghost retired = self@;
        self.take();
        let ghost before = self@;
        proof {
            take_one_keeps(retired.frames);
        }
        let frame = Frame {
            id,
            name: copy_bytes(name),
            depth: self.frames.len(),
            tail: components,
            consumed: 0,
            bytes,
        };
        proof {
            sums_of_push(before.frames, frame@);
        }
        self.frames.push(frame);
        self.expanded = self.expanded + bytes;
        let ghost after = before.frames.push(frame@);
        assert(frames_of(self.frames@) =~= after);
        Ok(())
    }

    /// Tells the stack that the walk has met a `..`, and learns what to do
    /// with it.
    ///
    /// Fails with `CounterOverflow` where what is left of a target no
    /// longer fits the counter of the frame below; the stack is then
    /// unchanged but for the component that is no longer ahead.
    pub fn pop_for_dotdot(&mut self) -> (verdict: Result<DotDot, SymlinkStackError>)
        requires
            old(self).wf(),
        ensures
            final(self).wf(),
            final(self)@.max_frames == old(self)@.max_frames,
            final(self)@.max_bytes == old(self)@.max_bytes,
            match verdict {
                Ok(v) => old(self)@.pop_for_dotdot() == Ok::<(StackView, DotDot), SymlinkStackError>(
                    (final(self)@, v),
                ),
                Err(e) => old(self)@.pop_for_dotdot() == Err::<
                    (StackView, DotDot),
                    SymlinkStackError,
                >(e),
            },
    {
        let ghost start = self@;
        proof {
            take_one_keeps(start.frames);
        }
        self.take();
        let ghost before = self@;
        match self.frames.pop() {
            None => {
                assert(frames_of(self.frames@) =~= before.frames);
                assert(start.frames =~= before.frames);
                Ok(DotDot::Physical)
            },
            Some(top) => {
                assert(top@ == before.frames.last());
                let ghost below = before.frames.drop_last();
                assert(frames_of(self.frames@) =~= below);
                proof {
                    sums_of_push(below, top@);
                    assert(below.push(top@) =~= before.frames);
                    sums_are_natural(below);
                }
                assert(nested(below));
                if top.consumed > 0 {
                    let undone = Frame {
                        id: top.id,
                        name: top.name,
                        depth: top.depth,
                        tail: top.tail,
                        consumed: top.consumed - 1,
                        bytes: top.bytes,
                    };
                    proof {
                        sums_of_push(below, undone@);
                    }
                    self.frames.push(undone);
                    self.advances = self.advances - 1;
                    let ghost after = below.push(undone@);
                    assert(frames_of(self.frames@) =~= after);
                    assert forall|i: int| 0 <= i < after.len() implies (#[trigger] after[i]).depth
                        == i by {
                        assert(after[i].depth == before.frames[i].depth);
                    }
                    Ok(DotDot::Physical)
                } else {
                    match self.frames.pop() {
                        None => {
                            assert(frames_of(self.frames@) =~= below);
                            self.expanded = self.expanded - top.bytes;
                            Ok(DotDot::Suppress)
                        },
                        Some(parent) => {
                            assert(parent@ == below.last());
                            let ghost rest = below.drop_last();
                            assert(frames_of(self.frames@) =~= rest);
                            proof {
                                sums_of_push(rest, parent@);
                                assert(rest.push(parent@) =~= below);
                                sums_are_natural(rest);
                            }
                            if top.tail > usize::MAX - parent.tail {
                                self.frames.push(parent);
                                self.frames.push(top);
                                assert(frames_of(self.frames@) =~= before.frames);
                                return Err(SymlinkStackError::CounterOverflow);
                            }
                            let heir = Frame {
                                id: parent.id,
                                name: parent.name,
                                depth: parent.depth,
                                tail: parent.tail + top.tail,
                                consumed: parent.consumed,
                                bytes: parent.bytes,
                            };
                            proof {
                                sums_of_push(rest, heir@);
                            }
                            self.frames.push(heir);
                            self.expanded = self.expanded - top.bytes;
                            let ghost after = rest.push(heir@);
                            assert(frames_of(self.frames@) =~= after);
                            assert forall|i: int| 0 <= i < after.len() implies (
                            #[trigger] after[i]).depth == i by {
                                assert(after[i].depth == before.frames[i].depth);
                            }
                            Ok(DotDot::Suppress)
                        },
                    }
                }
            },
        }
    }

    /// Checks the invariants of the stack: that it is within both budgets,
    /// that its frames are nested, and that its counters say what its
    /// frames add up to.
    pub fn check_invariants(&self) -> (checked: Result<(), SymlinkStackError>)
        ensures
            checked is Ok <==> self.wf(),
            checked is Err ==> checked == Err::<(), SymlinkStackError>(
                SymlinkStackError::BrokenInvariant,
            ),
    {
        if self.frames.len() > self.max_frames {
            return Err(SymlinkStackError::BrokenInvariant);
        }
        let ghost frames = self@.frames;
        let mut steps: usize = 0;
        let mut bytes: usize = 0;
        let mut i: usize = 0;
        assert(frames.take(0) =~= Seq::empty());
        while i < self.frames.len()
            invariant
                i <= self.frames.len(),
                frames == frames_of(self.frames@),
                steps == sum_consumed(frames.take(i as int)),
                bytes == sum_bytes(frames.take(i as int)),
                nested(frames.take(i as int)),
            decreases self.frames.len() - i,
        {
            let frame = &self.frames[i];
            let ghost seen = frames.take(i as int);
            let ghost more = frames.take(i + 1);
            proof {
                assert(more =~= seen.push(frame@));
                sums_of_push(seen, frame@);
                sums_are_natural(seen);
                if i + 1 < frames.len() {
                    sum_of_prefix(frames, i + 1);
                } else {
                    assert(more =~= frames);
                }
            }
            if frame.consumed > usize::MAX - steps || frame.bytes > usize::MAX - bytes {
                proof {
                    if self.wf() {
                        sums_are_natural(frames);
                    }
                }
                return Err(SymlinkStackError::BrokenInvariant);
            }
            if frame.depth != i {
                proof {
                    if nested(frames) {
                        assert(frames[i as int].depth == i);
                    }
                }
                return Err(SymlinkStackError::BrokenInvariant);
            }
            proof {
                assert forall|a: int| 0 <= a < more.len() implies (#[trigger] more[a]).depth == a by {
                    if a < i {
                        assert(seen[a].depth == a);
                    }
                }
            }
            steps = steps + frame.consumed;
            bytes = bytes + frame.bytes;
            i += 1;
        }
        assert(frames.take(i as int) =~= frames);
        if steps == self.advances && bytes == self.expanded && bytes <= self.max_bytes {
            Ok(())
        } else {
            Err(SymlinkStackError::BrokenInvariant)
        }
    }
}

} // verus!
