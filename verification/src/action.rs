//! A unit of cross-thread work injected into the reactor through the
//! bounded action queue.
use vstd::prelude::*;
use crate::client::SessionId;
use crate::message::Message;

verus! {

/// What a [`crate::client::ClientHandle`] may ask the reactor to do.
#[derive(Debug)]
pub enum Action {
    /// Do nothing.
    Nothing,
    /// Send this message on the addressed session, with the same queueing
    /// and backpressure treatment as a handler-produced send.
    RawMsg { session: SessionId, message: Message },
}

} // verus!
