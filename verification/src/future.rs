//! Waiting on events without blocking: what each poll decides.

use crate::error::{Error, OpResult};
use vstd::prelude::*;

verus! {

/// What a poll of an event answers.
pub enum EventPoll {
    Ready(OpResult<()>),
    Pending,
}

/// What a poll does after its first look at the event.
#[derive(Clone, Copy, Debug, PartialEq, Eq, Structural)]
pub enum PollStart {
    /// The event has finished: the poll is over.
    Done,
    /// Keep the waker, register the completion callback where `register` says
    /// so, and look again.
    Watch { register: bool },
}

/// An event that is awaited.
pub struct EventFuture {
    event: u64,
    registered: bool,
}

impl EventFuture {
    /// The event.
    pub closed spec fn event_spec(&self) -> u64 {
        self.event
    }

    /// Whether the completion callback was registered.
    pub closed spec fn is_registered(&self) -> bool {
        self.registered
    }

    /// Await `event`.
    pub fn new(event: u64) -> (r: EventFuture)
        ensures
            r.event_spec() == event,
            !r.is_registered(),
    {
        EventFuture { event, registered: false }
    }

    /// The event.
    pub fn event(&self) -> (r: u64)
        ensures
            r == self.event_spec(),
    {
        self.event
    }

    /// The first half of a poll: `done` is whether the event has finished.
    pub fn poll_start(&self, done: bool) -> (r: PollStart)
        ensures
            r == (if done {
                PollStart::Done
            } else {
                PollStart::Watch { register: !self.is_registered() }
            }),
    {
        if done {
            PollStart::Done
        } else {
            PollStart::Watch { register: !self.registered }
        }
    }

    /// The second half of a poll: what registering the callback answered, where
    /// it was asked for, and whether the event has finished by now.
    pub fn poll_watch(&mut self, registration: Option<core::result::Result<(), i32>>, done: bool) -> (r: EventPoll)
        ensures
            final(self).event_spec() == old(self).event_spec(),
            match registration {
                Some(Err(c)) => r == EventPoll::Ready(Err(Error::OpenCl(c))) && final(self).is_registered()
                    == old(self).is_registered(),
                _ => {
                    &&& final(self).is_registered() == (old(self).is_registered() || registration is Some)
                    &&& r == (if done {
                        EventPoll::Ready(Ok(()))
                    } else {
                        EventPoll::Pending
                    })
                },
            },
    {
        match registration {
            Some(Err(c)) => {
                return EventPoll::Ready(Err(Error::OpenCl(c)));
            },
            Some(Ok(_)) => {
                self.registered = true;
            },
            None => {},
        }
        if done {
            EventPoll::Ready(Ok(()))
        } else {
            EventPoll::Pending
        }
    }
}

/// What turns into an awaited event.
pub trait EventFutureExt: Sized {
    /// The event.
    spec fn awaited(self) -> u64;

    fn into_future(self) -> (r: EventFuture)
        ensures
            r.event_spec() == self.awaited(),
            !r.is_registered(),
    ;
}

impl EventFutureExt for u64 {
    open spec fn awaited(self) -> u64 {
        self
    }

    fn into_future(self) -> (r: EventFuture) {
        EventFuture::new(self)
    }
}

/// A kernel launch that is awaited.
pub enum LaunchFuture {
    /// The launch failed; the error is handed out once.
    Errored(Option<Error>),
    /// The launch's event is awaited.
    Running(EventFuture),
}

impl LaunchFuture {
    /// Await a launch: `event` is what the launch gave, `flush` what flushing the
    /// queue answered.
    pub fn start(event: OpResult<u64>, flush: core::result::Result<(), i32>) -> (r: LaunchFuture)
        ensures
            match event {
                Err(e) => r == LaunchFuture::Errored(Some(e)),
                Ok(ev) => match flush {
                    Err(c) => r == LaunchFuture::Errored(Some(Error::OpenCl(c))),
                    Ok(_) => r matches LaunchFuture::Running(f) && f.event_spec() == ev && !f.is_registered(),
                },
            },
    {
        match event {
            Err(e) => LaunchFuture::Errored(Some(e)),
            Ok(ev) => match flush {
                Err(c) => LaunchFuture::Errored(Some(Error::OpenCl(c))),
                Ok(_) => LaunchFuture::Running(EventFuture::new(ev)),
            },
        }
    }

    /// The error of a launch that failed.
    pub fn take_error(&mut self) -> (r: Option<Error>)
        ensures
            match *old(self) {
                LaunchFuture::Errored(e) => r == e && *final(self) == LaunchFuture::Errored(None),
                LaunchFuture::Running(_) => r is None && *final(self) == *old(self),
            },
    {
        match self {
            LaunchFuture::Errored(slot) => slot.take(),
            LaunchFuture::Running(_) => None,
        }
    }
}

} // verus!
