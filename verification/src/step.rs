//! The moves of an operation: each step releases the handles that the
//! operation is done with, and either asks for a system call or ends with
//! the result.

use vstd::prelude::*;
use crate::error::{Error, ErrorView};
use crate::sys::{Syscall, SyscallView};

verus! {

/// What comes after a step.
#[derive(Debug)]
pub enum Next<T> {
    /// The driver is to make this call and hand back its outcome.
    Call(Syscall),
    /// The operation is over.
    Done(Result<T, Error>),
}

/// One step of an operation.
#[derive(Debug)]
pub struct Step<T> {
    /// The handles that the operation opened and is done with: the driver
    /// closes them.
    pub retired: Vec<i32>,
    /// What comes next.
    pub next: Next<T>,
}

/// The mathematical content of a [`Next`].
pub enum NextView<V> {
    Call(SyscallView),
    Done(Result<V, ErrorView>),
}

/// The mathematical content of a [`Step`].
pub struct StepView<V> {
    pub retired: Seq<i32>,
    pub next: NextView<V>,
}

impl<T: View> View for Next<T> {
    type V = NextView<T::V>;

    open spec fn view(&self) -> NextView<T::V> {
        match self {
            Next::Call(call) => NextView::Call(call@),
            Next::Done(Ok(value)) => NextView::Done(Ok(value@)),
            Next::Done(Err(error)) => NextView::Done(Err(error@)),
        }
    }
}

impl<T: View> View for Step<T> {
    type V = StepView<T::V>;

    open spec fn view(&self) -> StepView<T::V> {
        StepView { retired: self.retired@, next: self.next@ }
    }
}

impl<V> StepView<V> {
    /// A step that asks for a call.
    pub open spec fn call(retired: Seq<i32>, call: SyscallView) -> StepView<V> {
        StepView { retired, next: NextView::Call(call) }
    }

    /// A step that ends the operation with a value.
    pub open spec fn done(retired: Seq<i32>, value: V) -> StepView<V> {
        StepView { retired, next: NextView::Done(Ok(value)) }
    }

    /// A step that ends the operation with an error.
    pub open spec fn failed(retired: Seq<i32>, error: ErrorView) -> StepView<V> {
        StepView { retired, next: NextView::Done(Err(error)) }
    }

    /// Whether the step ends the operation.
    pub open spec fn is_done(self) -> bool {
        self.next is Done
    }
}

/// The handle that an optional handle holds, as a sequence.
pub open spec fn held(handle: Option<i32>) -> Seq<i32> {
    match handle {
        Some(fd) => seq![fd],
        None => Seq::empty(),
    }
}

/// Adds the handle that `handle` holds to the handles to release.
pub fn release(retired: &mut Vec<i32>, handle: Option<i32>)
    ensures
        final(retired)@ == old(retired)@ + held(handle),
{
    match handle {
        Some(fd) => {
            retired.push(fd);
            assert(retired@ =~= old(retired)@ + held(handle));
        },
        None => {
            assert(retired@ =~= old(retired)@ + held(handle));
        },
    }
}

} // verus!
