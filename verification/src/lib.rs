//! A dispatcher for framed transports, written as a state machine that performs no
//! input or output of its own.
//!
//! Frames are decoded from a transport, handed to a service, and the responses of
//! the service are written back in the order in which the service was called. The
//! machine decides what happens next; its owner does the outside work:
//!
//! * [`dispatcher::Dispatcher::poll`] starts one poll and answers with a
//!   [`action::Request`];
//! * the owner performs the [`action::Effect`]s that were collected, in order, then
//!   the request, and hands the reply to [`dispatcher::Dispatcher::resume`] as an
//!   [`action::Event`];
//! * this goes on until the request is [`action::Request::Return`].
//!
//! What each reply leads to is stated in [`replies`], and what holds of every run of the
//! machine in [`calls`], [`delivery`], [`ordering`], [`keepalive`] and [`lifecycle`].
pub mod action;
pub mod calls;
pub mod delivery;
pub mod dispatcher;
pub mod error;
pub mod inner;
pub mod item;
pub mod keepalive;
pub mod lifecycle;
pub mod machine;
pub mod moment;
pub mod ordering;
pub mod replies;
pub mod run;
pub mod service_result;
