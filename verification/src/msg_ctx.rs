//! The immutable context handed to the message handler alongside each
//! inbound event, so a reply can be addressed to the originating session.
use vstd::prelude::*;
use crate::client::SessionId;

verus! {

/// Identifies the session an inbound event came from.
#[derive(Clone, Debug)]
pub struct MessageContext {
    pub session_id: SessionId,
}

} // verus!
