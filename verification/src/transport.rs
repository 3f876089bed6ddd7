//! The way requests reach the agent: a function that the caller supplies,
//! together with the record of every request handed to it, so that what a
//! client sends can be stated and checked.
use vstd::prelude::*;

use crate::protocol::{RequestCommand, ResponseData};

verus! {

/// Sends requests through `send`, and records each one.
pub struct Transport<F> {
    send: F,
    log: Ghost<Seq<RequestCommand>>,
}

impl<F: FnMut(RequestCommand) -> Result<ResponseData, String>> Transport<F> {
    /// The function that answers requests.
    pub closed spec fn sender(&self) -> F {
        self.send
    }

    /// Every request sent so far, in order.
    pub closed spec fn sent(&self) -> Seq<RequestCommand> {
        self.log@
    }

    /// A transport over `send` that has sent nothing yet.
    pub fn new(send: F) -> (r: Self)
        ensures
            r.sender() == send,
            r.sent() == Seq::<RequestCommand>::empty(),
    {
        Transport { send, log: Ghost(Seq::empty()) }
    }

    /// Sends `command` and hands back the answer.
    pub fn send(&mut self, command: RequestCommand) -> (r: Result<ResponseData, String>)
        requires
            old(self).sender().requires((command,)),
        ensures
            final(self).sender() == old(self).sender(),
            final(self).sent() == old(self).sent().push(command),
            call_ensures(old(self).sender(), (command,), r),
    {
        let ghost sent = command;
        let r = (self.send)(command);
        self.log = Ghost(self.log@.push(sent));
        r
    }
}

} // verus!
