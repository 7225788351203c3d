//! Notifications to subscribers.

use crate::err_util::{generic_err, Error};
use vstd::prelude::*;
use vstd::slice::slice_to_vec;

verus! {

/// Sends notifications to a subscriber. `S` is the way by which they travel.
#[derive(Debug, Clone)]
pub struct BluerWriter<S> {
    pub tx: S,
}

impl<S> BluerWriter<S> {
    /// Returns what is to be sent by `tx` for a notification of `value`.
    pub fn write(&mut self, value: &[u8]) -> (r: Vec<u8>)
        ensures
            *final(self) == *old(self),
            r@ == value@,
    {
        slice_to_vec(value)
    }

    /// What the application is told of a notification, once it was sent.
    pub fn written(delivered: bool) -> (res: Result<(), Error>)
        ensures
            match res {
                Ok(()) => delivered,
                Err(e) => !delivered && e.message@ == "unsubscribed"@,
            },
    {
        if delivered {
            Ok(())
        } else {
            Err(generic_err("unsubscribed"))
        }
    }
}

} // verus!
