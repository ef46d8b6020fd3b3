//! The errors that the dispatcher keeps between polls.
use either::Either;
use vstd::prelude::*;
use vstd::std_specs::convert::FromSpecImpl;

use crate::item::{DispatcherItem, Protocol};

verus! {

/// The sum type `either::Either`, with its two variants.
///
/// Writing a result to the transport fails with it: on the left the error that the
/// service answered with, on the right the error of the encoder.
#[verifier::external_type_specification]
#[verifier::reject_recursive_types(L)]
#[verifier::reject_recursive_types(R)]
pub struct ExEither<L, R>(either::Either<L, R>);

/// An error that the dispatcher has met.
pub enum IoDispatcherError<S, U> {
    /// The error has been handed to the service.
    Handled,
    /// The keep-alive timeout ran out.
    KeepAlive,
    /// A response could not be encoded.
    Encoder(U),
    /// The service failed.
    Service(S),
}

impl<S, U> From<Either<S, U>> for IoDispatcherError<S, U> {
    fn from(err: Either<S, U>) -> (ret: Self) {
        match err {
            Either::Left(err) => IoDispatcherError::Service(err),
            Either::Right(err) => IoDispatcherError::Encoder(err),
        }
    }
}

impl<S, U> FromSpecImpl<Either<S, U>> for IoDispatcherError<S, U> {
    open spec fn obeys_from_spec() -> bool {
        true
    }

    open spec fn from_spec(err: Either<S, U>) -> Self {
        match err {
            Either::Left(err) => IoDispatcherError::Service(err),
            Either::Right(err) => IoDispatcherError::Encoder(err),
        }
    }
}

impl<S, U> IoDispatcherError<S, U> {
    /// The item that tells the service of this error.
    ///
    /// An error of the service itself is not told to it.
    pub open spec fn item<P: Protocol<EncoderError = U>>(self) -> Option<DispatcherItem<P>> {
        match self {
            IoDispatcherError::KeepAlive => Some(DispatcherItem::KeepAliveTimeout),
            IoDispatcherError::Encoder(err) => Some(DispatcherItem::EncoderError(err)),
            IoDispatcherError::Handled | IoDispatcherError::Service(_) => None,
        }
    }

    /// What is left of this error once the service has been told of it.
    pub open spec fn taken(self) -> Self {
        match self {
            IoDispatcherError::Service(err) => IoDispatcherError::Service(err),
            _ => IoDispatcherError::Handled,
        }
    }

    /// Takes the item that tells the service of this error.
    pub fn take<P: Protocol<EncoderError = U>>(&mut self) -> (item: Option<DispatcherItem<P>>)
        ensures
            item == old(self).item::<P>(),
            *final(self) == old(self).taken(),
    {
        let mut err = IoDispatcherError::Handled;
        std::mem::swap(self, &mut err);
        match err {
            IoDispatcherError::KeepAlive => Some(DispatcherItem::KeepAliveTimeout),
            IoDispatcherError::Encoder(err) => Some(DispatcherItem::EncoderError(err)),
            IoDispatcherError::Handled => None,
            IoDispatcherError::Service(err) => {
                *self = IoDispatcherError::Service(err);
                None
            },
        }
    }
}

/// The service is told that the deadline has passed, and of an error of the encoder, and
/// then of neither again. It is told neither of its own errors nor of what it has been told
/// of, and those stay as they are.
pub proof fn told_and_kept<P: Protocol>(err: P::EncoderError, own: P::ServiceError)
    ensures
        ({
            let expired = IoDispatcherError::<P::ServiceError, P::EncoderError>::KeepAlive;
            &&& expired.item::<P>() == Some(DispatcherItem::<P>::KeepAliveTimeout)
            &&& expired.taken() is Handled
        }),
        ({
            let failed = IoDispatcherError::<P::ServiceError, P::EncoderError>::Encoder(err);
            &&& failed.item::<P>() == Some(DispatcherItem::<P>::EncoderError(err))
            &&& failed.taken() is Handled
        }),
        ({
            let failed = IoDispatcherError::<P::ServiceError, P::EncoderError>::Service(own);
            failed.item::<P>() is None && failed.taken() == failed
        }),
        ({
            let handled = IoDispatcherError::<P::ServiceError, P::EncoderError>::Handled;
            handled.item::<P>() is None && handled.taken() == handled
        }),
{
}

} // verus!
