//! What the dispatcher asks of its owner, and what its owner answers.
use std::task::Poll;

use either::Either;
use vstd::prelude::*;

use crate::item::{DispatcherItem, Protocol};
use crate::moment::Moment;

verus! {

/// The type `std::task::Poll`, with its two variants.
#[verifier::external_type_specification]
#[verifier::reject_recursive_types(T)]
pub struct ExPoll<T>(std::task::Poll<T>);

/// What the service answers a call with.
pub type CallResult<P> = Result<<P as Protocol>::Response, <P as Protocol>::ServiceError>;

/// The outcome of writing the result of a call to the transport.
pub type WriteOutcome<P> = Result<
    (),
    Either<<P as Protocol>::ServiceError, <P as Protocol>::EncoderError>,
>;

/// Outside work that is done without a reply.
pub enum Effect<P: Protocol> {
    /// Start the tasks that read from and write to the transport.
    StartIo,
    /// Call off the keep-alive deadline `prev` and set the deadline `expire`.
    RegisterTimer {
        /// The new deadline.
        expire: Moment,
        /// The deadline that it replaces.
        prev: Moment,
    },
    /// Call off the keep-alive deadline.
    UnregisterTimer(Moment),
    /// Set the time, in milliseconds, within which the transport has to disconnect.
    SetDisconnectTimeout(u16),
    /// The service is ready: wake the task that reads, if it is paused.
    RestartRead,
    /// The service is not ready: pause the task that reads, and wake the dispatcher
    /// when there is news.
    ServiceNotReady,
    /// More data is needed to decode a frame: wake the dispatcher when there is some.
    ReadMoreData,
    /// Wake the dispatcher when there is news.
    RegisterTask,
    /// Wake the dispatcher now.
    WakeTask,
    /// Mark the transport as one whose dispatcher has stopped.
    MarkStopped,
    /// Shut the tasks down that read and write.
    ShutdownIo,
    /// Call the service with `item`, in a task of its own that hands the result back
    /// with `response_idx`.
    Spawn {
        /// What the service is called with.
        item: DispatcherItem<P>,
        /// The index of the call.
        response_idx: usize,
    },
    /// Write the result of a call to the transport.
    Write(CallResult<P>),
}

/// Outside work that is answered with an [`Event`], or the end of a poll.
pub enum Request<P: Protocol> {
    /// Poll the call that the dispatcher holds: [`Event::Response`].
    PollResponse,
    /// Ask how the writes among the effects went: [`Event::Written`].
    WriteOutcomes,
    /// Ask whether the service is ready: [`Event::Readiness`].
    PollReady,
    /// Ask for the state of the transport: [`Event::Flags`].
    ReadFlags,
    /// Take the error of the transport: [`Event::IoError`].
    TakeIoError,
    /// Decode a frame: [`Event::Decoded`].
    Decode,
    /// Ask for the time: [`Event::Now`].
    Now,
    /// Call the service, hold the call and poll it once: [`Event::Called`].
    Call(DispatcherItem<P>),
    /// Shut the service down, and tell it whether there was an error:
    /// [`Event::ServiceShutdown`].
    PollShutdown(bool),
    /// The poll is over, with this outcome.
    Return(Poll<Result<(), P::ServiceError>>),
}

/// The reply to a [`Request`].
pub enum Event<P: Protocol> {
    /// What the call that is held returned. Once it is ready, it is held no more.
    Response(Poll<CallResult<P>>),
    /// The outcomes of the writes, in order.
    Written(Vec<WriteOutcome<P>>),
    /// Whether the service is ready.
    Readiness(Poll<Result<(), P::ServiceError>>),
    /// The state of the transport.
    Flags {
        /// The dispatcher is told to stop.
        stopped: bool,
        /// The keep-alive deadline has passed.
        keepalive_err: bool,
        /// There is data to decode.
        read_ready: bool,
    },
    /// The error of the transport, if there is one.
    IoError(Option<P::IoError>),
    /// The next frame, or nothing where data is missing.
    Decoded(Result<Option<P::Item>, P::DecoderError>),
    /// The time.
    Now(Moment),
    /// What the new call returned. Once it is ready, it is held no more.
    Called(Poll<CallResult<P>>),
    /// Whether the service has shut down.
    ServiceShutdown(Poll<()>),
}

} // verus!
