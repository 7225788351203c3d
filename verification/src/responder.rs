//! How the answer to a request gets back to the client.

use crate::att_error::AttError;
use crate::err_util::{generic_err, Error};
use vstd::prelude::*;
use vstd::slice::slice_to_vec;

verus! {

/// The answer to a read request: the value from `offset` on.
#[derive(Debug, Clone, Copy)]
pub struct Response<'a> {
    pub offset: u8,
    pub value: &'a [u8],
}

/// An answer on its way to the request that waits for it.
pub type Reply = Result<(u8, Vec<u8>), AttError>;

/// An answer, with a sequence in place of the vector.
pub type ReplyView = Result<(u8, Seq<u8>), AttError>;

/// The answer that `reply` holds.
pub open spec fn reply_view(reply: Reply) -> ReplyView {
    match reply {
        Ok((offset, value)) => Ok((offset, value@)),
        Err(e) => Err(e),
    }
}

/// The answer that an application gave.
pub open spec fn response_view(response: Result<Response<'_>, AttError>) -> ReplyView {
    match response {
        Ok(r) => Ok((r.offset, r.value@)),
        Err(e) => Err(e),
    }
}

/// The answer to a request to which the application gave none.
pub open spec fn missing_reply() -> Reply {
    Err(AttError::AttributeNotFound)
}

/// Takes the answer to a request, once. `S` is the way by which the answer travels.
#[derive(Debug)]
pub struct BluerResponder<S> {
    pub tx: Option<S>,
}

impl<S> BluerResponder<S> {
    /// A request waits for its answer at the other end of `tx`.
    pub fn new(tx: S) -> (r: Self)
        ensures
            r.tx == Some(tx),
    {
        Self { tx: Some(tx) }
    }

    /// Takes the answer of the application. Returns what is to be sent and which way, which
    /// works only for the first answer.
    pub fn respond(&mut self, response: Result<Response<'_>, AttError>) -> (res: Result<
        (S, Reply),
        Error,
    >)
        ensures
            final(self).tx is None,
            match res {
                Ok((tx, reply)) => old(self).tx == Some(tx) && reply_view(reply) == response_view(
                    response,
                ),
                Err(e) => old(self).tx is None && e.message@ == "Already sent response!"@,
            },
    {
        let mapped: Reply = match response {
            Ok(r) => Ok((r.offset, slice_to_vec(r.value))),
            Err(e) => Err(e),
        };
        match self.tx.take() {
            Some(tx) => Ok((tx, mapped)),
            None => Err(generic_err("Already sent response!")),
        }
    }

    /// What the application is told of its answer, once it was sent.
    pub fn sent(delivered: bool) -> (res: Result<(), Error>)
        ensures
            match res {
                Ok(()) => delivered,
                Err(e) => !delivered && e.message@ == "Server shutdown"@,
            },
    {
        if delivered {
            Ok(())
        } else {
            Err(generic_err("Server shutdown"))
        }
    }

    /// Closes the responder. Returns the answer that is to be sent in place of one that the
    /// application did not give, and which way.
    pub fn close(&mut self) -> (res: Option<(S, Reply)>)
        ensures
            final(self).tx is None,
            res == (match old(self).tx {
                Some(tx) => Some((tx, missing_reply())),
                None => None,
            }),
    {
        match self.tx.take() {
            Some(tx) => Some((tx, Err(AttError::AttributeNotFound))),
            None => None,
        }
    }
}

} // verus!
