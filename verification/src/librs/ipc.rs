//! User-side IPC: the message a client builds and the builder that
//! assembles it.  Sending and receiving are environment calls and live with
//! the embedder; these values are what travels.

use crate::ipc::MessageData;
use vstd::prelude::*;

verus! {

/// A message as a user process addresses it: the server to reach, the
/// request identifier, and the payload.
#[derive(Clone, Copy, PartialEq, Eq, Debug)]
pub struct Message {
    pub server_id: u64,
    pub identifier: u64,
    pub data: MessageData,
}

impl Message {
    /// A message from its three parts.
    pub fn new(server_id: u64, identifier: u64, data: MessageData) -> (r: Message)
        ensures
            r == (Message { server_id, identifier, data }),
    {
        Message { server_id, identifier, data }
    }
}

/// A step-by-step builder for a message to one server.
#[derive(Clone, Copy, PartialEq, Eq, Debug)]
pub struct MessageBuilder {
    pub server_id: u64,
    pub identifier: u64,
    pub data: MessageData,
}

impl MessageBuilder {
    /// Start a message to the given server, identifier 0 and an empty
    /// payload.
    pub fn new(server_id: u64) -> (r: MessageBuilder)
        ensures
            r.server_id == server_id,
            r.identifier == 0,
            forall|i: int| 0 <= i < 5 ==> r.data.data@[i] == 0u64,
    {
        MessageBuilder { server_id, identifier: 0, data: MessageData::empty() }
    }

    /// The same message under another identifier.
    pub fn with_identifier(self, identifier: u64) -> (r: MessageBuilder)
        ensures
            r == (MessageBuilder { identifier, ..self }),
    {
        MessageBuilder { identifier, ..self }
    }

    /// The same message with another payload.
    pub fn with_data(self, data: MessageData) -> (r: MessageBuilder)
        ensures
            r == (MessageBuilder { data, ..self }),
    {
        MessageBuilder { data, ..self }
    }

    /// The finished message.
    pub fn build(self) -> (r: Message)
        ensures
            r.server_id == self.server_id,
            r.identifier == self.identifier,
            r.data == self.data,
    {
        Message { server_id: self.server_id, identifier: self.identifier, data: self.data }
    }
}

} // verus!
