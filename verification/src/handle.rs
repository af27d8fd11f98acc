//! Handles: references to inodes that a resolution has reached.

use vstd::prelude::*;
use crate::flags::OpenFlags;
use crate::error::{Error, ErrorView};
use crate::step::{Next, Step, StepView};
use crate::sys::{Reply, ReplyView, Syscall, SyscallView};

verus! {

/// A reference to a resolved inode: a file descriptor that the caller now
/// owns, whatever becomes of the root it was resolved in.
#[derive(Debug)]
pub struct Handle {
    fd: i32,
}

impl View for Handle {
    type V = i32;

    closed spec fn view(&self) -> i32 {
        self.fd
    }
}

impl Handle {
    /// Wraps a file descriptor.
    pub fn from_fd(fd: i32) -> (handle: Handle)
        ensures
            handle@ == fd,
    {
        Handle { fd }
    }

    /// The file descriptor of the handle.
    pub fn as_fd(&self) -> (fd: i32)
        ensures
            fd == self@,
    {
        self.fd
    }

    /// Gives up the handle for its file descriptor.
    pub fn into_fd(self) -> (fd: i32)
        ensures
            fd == self@,
    {
        self.fd
    }

    /// Starts to open what the handle refers to once more, with the access
    /// that `flags` asks for.
    pub fn reopen(&self, flags: OpenFlags) -> (reopen: Reopen)
        ensures
            reopen@ == (ReopenView { fd: self@, flags: flags.bits, asked: false, over: false }),
    {
        Reopen { fd: self.fd, flags: flags.bits, asked: false, over: false }
    }
}

/// The operation that opens again what a handle refers to.
#[derive(Debug)]
pub struct Reopen {
    fd: i32,
    flags: i32,
    asked: bool,
    over: bool,
}

/// The mathematical content of a [`Reopen`].
pub struct ReopenView {
    pub fd: i32,
    pub flags: i32,
    pub asked: bool,
    pub over: bool,
}

impl ReopenView {
    /// The error for a reply that does not answer the call.
    pub open spec fn unexpected() -> ErrorView {
        ErrorView::invalid("reply"@, "the reply does not answer the call that was made"@)
    }

    /// The move that the operation makes on a reply: it asks for the handle
    /// to be opened again, and ends with the new file descriptor or with the
    /// error of the call.
    pub open spec fn step(self, reply: ReplyView) -> (ReopenView, StepView<i32>) {
        let over = ReopenView { over: true, ..self };
        if self.over {
            (self, StepView::failed(Seq::empty(), ReopenView::unexpected()))
        } else if !self.asked {
            match reply {
                ReplyView::Start => (
                    ReopenView { asked: true, ..self },
                    StepView::call(
                        Seq::empty(),
                        SyscallView::Reopen { fd: self.fd, flags: self.flags },
                    ),
                ),
                _ => (over, StepView::failed(Seq::empty(), ReopenView::unexpected())),
            }
        } else {
            match reply {
                ReplyView::Fd(fd) => (over, StepView::done(Seq::empty(), fd)),
                ReplyView::Failed(errno) => (
                    over,
                    StepView::failed(Seq::empty(), ErrorView::raw_os("reopen handle"@, errno)),
                ),
                _ => (over, StepView::failed(Seq::empty(), ReopenView::unexpected())),
            }
        }
    }
}

impl View for Reopen {
    type V = ReopenView;

    closed spec fn view(&self) -> ReopenView {
        ReopenView { fd: self.fd, flags: self.flags, asked: self.asked, over: self.over }
    }
}

impl Reopen {
    /// Makes the next move of the operation.
    pub fn step(&mut self, reply: Reply) -> (step: Step<i32>)
        ensures
            (final(self)@, step@) == old(self)@.step(reply@),
    {
        if self.over {
            return Step {
                retired: Vec::new(),
                next: Next::Done(
                    Err(
                        Error::invalid_argument(
                            "reply",
                            "the reply does not answer the call that was made",
                        ),
                    ),
                ),
            };
        }
        if !self.asked {
            match reply {
                Reply::Start => {
                    self.asked = true;
                    return Step {
                        retired: Vec::new(),
                        next: Next::Call(Syscall::Reopen { fd: self.fd, flags: self.flags }),
                    };
                },
                _ => {},
            }
        } else {
            match reply {
                Reply::Fd(fd) => {
                    self.over = true;
                    return Step { retired: Vec::new(), next: Next::Done(Ok(fd)) };
                },
                Reply::Failed(errno) => {
                    self.over = true;
                    return Step {
                        retired: Vec::new(),
                        next: Next::Done(Err(Error::raw_os_error("reopen handle", errno))),
                    };
                },
                _ => {},
            }
        }
        self.over = true;
        Step {
            retired: Vec::new(),
            next: Next::Done(
                Err(
                    Error::invalid_argument(
                        "reply",
                        "the reply does not answer the call that was made",
                    ),
                ),
            ),
        }
    }
}

} // verus!
