//! The log server's wire protocol and its input ring buffer: requests and
//! replies as messages, and the fixed-size queue the interrupt handler
//! feeds console bytes through.

use crate::ipc::MessageData;
use crate::librs::ipc::{Message, MessageBuilder};
use vstd::prelude::*;

verus! {

/// The log server's well-known identity: the bytes "log" padded with NULs.
pub const LOG_SERVER_ID: u64 = 0x0000_0000_0067_6f6c;

/// A request to the log server.
#[derive(Clone, Copy, PartialEq, Eq, Debug)]
pub enum Request {
    /// Hand over one buffered console byte.
    Read,
    /// Write the payload to the console.
    Write { data: MessageData },
    /// Anything else.
    Unknown { id: u64 },
}

impl Request {
    /// The identifier each request travels under.
    pub open spec fn spec_identifier(self) -> u64 {
        match self {
            Request::Read => 2,
            Request::Write { .. } => 1,
            Request::Unknown { id } => id,
        }
    }

    /// Encode the request as a message for the log server.
    pub fn to_message(self) -> (r: Message)
        ensures
            r.server_id == LOG_SERVER_ID,
            r.identifier == self.spec_identifier(),
            self matches Request::Write { data } ==> r.data == data,
            !(self is Write) ==> (forall|i: int| 0 <= i < 5 ==> r.data.data@[i] == 0u64),
    {
        let msg = MessageBuilder::new(LOG_SERVER_ID);
        match self {
            Request::Read => msg.with_identifier(2),
            Request::Write { data } => msg.with_identifier(1).with_data(data),
            Request::Unknown { id } => msg.with_identifier(id),
        }.build()
    }

    /// Decode a received message into a request.
    pub fn from_message(msg: Message) -> (r: Request)
        ensures
            msg.identifier == 2 ==> r is Read,
            msg.identifier == 1 ==> r == (Request::Write { data: msg.data }),
            msg.identifier != 1 && msg.identifier != 2 ==> r == (Request::Unknown {
                id: msg.identifier,
            }),
    {
        if msg.identifier == 2 {
            Request::Read
        } else if msg.identifier == 1 {
            Request::Write { data: msg.data }
        } else {
            Request::Unknown { id: msg.identifier }
        }
    }
}

/// A reply from the log server.
#[derive(Clone, Copy, PartialEq, Eq, Debug)]
pub enum Reply {
    /// No byte is buffered.
    DataNotReady,
    /// A byte is ready; the payload carries it.
    DataReady { data: MessageData },
    /// The request was not understood.
    RequestUnknown,
}

impl Reply {
    /// The identifier each reply travels under.
    pub fn to_identifier(self) -> (r: u64)
        ensures
            self is DataNotReady ==> r == 0,
            self is DataReady ==> r == 1,
            self is RequestUnknown ==> r == 2,
    {
        match self {
            Reply::DataNotReady => 0,
            Reply::DataReady { .. } => 1,
            Reply::RequestUnknown => 2,
        }
    }

    /// Decode a received message into a reply.
    pub fn from_message(msg: Message) -> (r: Reply)
        ensures
            msg.identifier == 0 ==> r is DataNotReady,
            msg.identifier == 1 ==> r == (Reply::DataReady { data: msg.data }),
            msg.identifier != 0 && msg.identifier != 1 ==> r is RequestUnknown,
    {
        if msg.identifier == 0 {
            Reply::DataNotReady
        } else if msg.identifier == 1 {
            Reply::DataReady { data: msg.data }
        } else {
            Reply::RequestUnknown
        }
    }
}

/// Capacity of the console input queue.
pub const QUEUE_CAPACITY: usize = 32;

/// A fixed-size circular byte queue, as the interrupt handler fills and the
/// server drains: writes go to the write index, reads chase it, and both
/// wrap at the capacity.  A full queue overwrites the oldest byte.
pub struct AtomicQueue {
    pub read_index: usize,
    pub write_index: usize,
    pub buffer: Vec<u8>,
}

impl AtomicQueue {
    /// The buffer has the fixed capacity and the indices stay inside it.
    pub open spec fn wf(self) -> bool {
        &&& self.buffer@.len() == QUEUE_CAPACITY
        &&& self.read_index < QUEUE_CAPACITY
        &&& self.write_index < QUEUE_CAPACITY
    }

    /// An empty queue.
    pub fn new() -> (r: AtomicQueue)
        ensures
            r.wf(),
            r.read_index == 0,
            r.write_index == 0,
    {
        let mut buffer: Vec<u8> = Vec::new();
        let mut i: usize = 0;
        while i < QUEUE_CAPACITY
            invariant
                i <= QUEUE_CAPACITY,
                buffer@.len() == i,
            decreases QUEUE_CAPACITY - i,
        {
            buffer.push(0xff);
            i = i + 1;
        }
        AtomicQueue { read_index: 0, write_index: 0, buffer }
    }

    /// Store a byte at the write position and advance it.
    pub fn push(&mut self, data: u8)
        requires
            old(self).wf(),
        ensures
            final(self).wf(),
            final(self).buffer@ == old(self).buffer@.update(old(self).write_index as int, data),
            final(self).write_index as int == (old(self).write_index + 1) % (QUEUE_CAPACITY as int),
            final(self).read_index == old(self).read_index,
    {
        let w = self.write_index;
        self.buffer.set(w, data);
        self.write_index = (w + 1) % QUEUE_CAPACITY;
    }

    /// Take the byte at the read position, unless the queue is empty (the
    /// read position has caught up with the write position).
    pub fn pop(&mut self) -> (r: Option<u8>)
        requires
            old(self).wf(),
        ensures
            final(self).wf(),
            final(self).buffer@ == old(self).buffer@,
            old(self).read_index == old(self).write_index ==> r is None && *final(self) == *old(self),
            old(self).read_index != old(self).write_index ==> r == Some(
                old(self).buffer@[old(self).read_index as int],
            ) && final(self).read_index as int == (old(self).read_index + 1) % (QUEUE_CAPACITY as int) && final(self).write_index == old(self).write_index,
    {
        if self.read_index == self.write_index {
            None
        } else {
            let r = self.read_index;
            let value = self.buffer[r];
            self.read_index = (r + 1) % QUEUE_CAPACITY;
            Some(value)
        }
    }
}

} // verus!
