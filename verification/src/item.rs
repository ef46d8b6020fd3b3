//! What a protocol exchanges, and what the service is called with.
use vstd::prelude::*;

verus! {

/// The types that a framed protocol and its service work with.
pub trait Protocol: Sized {
    /// A decoded frame.
    type Item;

    /// What the service answers a call with.
    type Response;

    /// The error of the service.
    type ServiceError;

    /// The error of the decoder.
    type DecoderError;

    /// The error of the encoder.
    type EncoderError;

    /// The error of the transport.
    type IoError;
}

/// What the service is called with.
pub enum DispatcherItem<P: Protocol> {
    /// A decoded frame.
    Item(P::Item),
    /// The peer has sent nothing within the keep-alive timeout.
    KeepAliveTimeout,
    /// The bytes received are no frame.
    DecoderError(P::DecoderError),
    /// A response could not be encoded.
    EncoderError(P::EncoderError),
    /// The transport failed.
    IoError(P::IoError),
}

} // verus!
