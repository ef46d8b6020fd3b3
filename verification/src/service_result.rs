//! The slot that a service call holds in the queue of responses.
use vstd::prelude::*;

verus! {

/// The state of one service call.
pub enum ServiceResult<T> {
    /// The service has not answered yet.
    Pending,
    /// The service has answered, and the answer is not written yet.
    Ready(T),
}

impl<T> ServiceResult<T> {
    /// Takes the answer out of the slot, which is pending afterwards.
    pub fn take(&mut self) -> (result: Option<T>)
        ensures
            *final(self) is Pending,
            result == (match *old(self) {
                ServiceResult::Pending => None,
                ServiceResult::Ready(result) => Some(result),
            }),
    {
        let mut slf = ServiceResult::Pending;
        std::mem::swap(self, &mut slf);
        match slf {
            ServiceResult::Pending => None,
            ServiceResult::Ready(result) => Some(result),
        }
    }

    /// Whether the service has answered.
    pub fn is_ready(&self) -> (ready: bool)
        ensures
            ready == (*self is Ready),
    {
        match self {
            ServiceResult::Pending => false,
            ServiceResult::Ready(_) => true,
        }
    }
}

} // verus!
