//! The virtio block-device driver's data structures and wire protocol: the
//! virtqueue rings, the block request, the feature and descriptor flag
//! bits, and the messages the driver exchanges with its clients.  The
//! device registers themselves are memory mapped and belong to the
//! embedder.

use crate::ipc::MessageData;
use crate::librs::ipc::{Message, MessageBuilder};
use vstd::prelude::*;

verus! {

/// The driver's well-known server identity.
pub const VIRTIO_SERVER_ID: u64 = 123;

/// Entries in each virtqueue ring.
pub const QUEUE_LEN: usize = 16;

/// Bytes per disk sector.
pub const BLOCK_SIZE: usize = 512;

/// A request a client sends the driver.
#[derive(Clone, Copy, PartialEq, Eq, Structural, Debug)]
pub enum Request {
    ReadDisk,
    DiskSize,
    UnknownRequest,
}

impl Request {
    /// The identifier each request travels under.
    pub open spec fn spec_identifier(self) -> u64 {
        match self {
            Request::ReadDisk => 1,
            Request::DiskSize => 2,
            Request::UnknownRequest => 0xff,
        }
    }

    /// The identifier each request travels under.
    pub fn raw_value(&self) -> (r: u64)
        ensures
            r == self.spec_identifier(),
    {
        match self {
            Request::ReadDisk => 1,
            Request::DiskSize => 2,
            Request::UnknownRequest => 0xff,
        }
    }

    /// Encode the request, with its payload, as a message to the driver.
    pub fn to_message(&self, data: MessageData) -> (r: Message)
        ensures
            r.server_id == VIRTIO_SERVER_ID,
            r.identifier == self.spec_identifier(),
            r.data == data,
    {
        MessageBuilder::new(VIRTIO_SERVER_ID).with_identifier(self.raw_value()).with_data(
            data,
        ).build()
    }

    /// Decode a received message; anything unrecognised is the unknown
    /// request.
    pub fn from_message(msg: &Message) -> (r: Request)
        ensures
            msg.identifier == 1 ==> r is ReadDisk,
            msg.identifier == 2 ==> r is DiskSize,
            msg.identifier != 1 && msg.identifier != 2 ==> r is UnknownRequest,
    {
        if msg.identifier == 1 {
            Request::ReadDisk
        } else if msg.identifier == 2 {
            Request::DiskSize
        } else {
            Request::UnknownRequest
        }
    }
}

/// A reply the driver sends back.
#[derive(Clone, Copy, PartialEq, Eq, Structural, Debug)]
pub enum Reply {
    DataReady,
    DiskSize,
    UnknownRequest,
}

impl Reply {
    /// The identifier each reply travels under.
    pub open spec fn spec_identifier(self) -> u64 {
        match self {
            Reply::DataReady => 1,
            Reply::DiskSize => 2,
            Reply::UnknownRequest => 0xff,
        }
    }

    /// The identifier each reply travels under.
    pub fn raw_value(&self) -> (r: u64)
        ensures
            r == self.spec_identifier(),
    {
        match self {
            Reply::DataReady => 1,
            Reply::DiskSize => 2,
            Reply::UnknownRequest => 0xff,
        }
    }

    /// Decode a received message's identifier, if it names a reply.
    pub fn from_message(msg: &Message) -> (r: Option<Reply>)
        ensures
            msg.identifier == 1 ==> r == Some(Reply::DataReady),
            msg.identifier == 2 ==> r == Some(Reply::DiskSize),
            msg.identifier != 1 && msg.identifier != 2 && msg.identifier != 0xff ==> r is None,
    {
        if msg.identifier == 1 {
            Some(Reply::DataReady)
        } else if msg.identifier == 2 {
            Some(Reply::DiskSize)
        } else if msg.identifier == 0xff {
            Some(Reply::UnknownRequest)
        } else {
            None
        }
    }

    /// Encode the reply, with its payload, as a message to a client.
    pub fn to_message(&self, server_id: u64, data: MessageData) -> (r: Message)
        ensures
            r.server_id == server_id,
            r.identifier == self.spec_identifier(),
            r.data == data,
    {
        Message { identifier: self.raw_value(), server_id, data }
    }
}

/// One descriptor of the ring: where the buffer is, how long, its chaining
/// flags, and the next descriptor of the chain.
#[derive(Clone, Copy, PartialEq, Eq, Structural, Debug)]
pub struct Descriptor {
    pub addr: u64,
    pub len: u32,
    pub flags: u16,
    pub next: u16,
}

impl Descriptor {
    /// Clear the descriptor for reuse.
    pub fn free(&mut self)
        ensures
            *final(self) == (Descriptor { addr: 0, len: 0, flags: 0, next: 0 }),
    {
        self.addr = 0;
        self.len = 0;
        self.flags = 0;
        self.next = 0;
    }
}

/// The flag bits of a descriptor: bit 0 chains to the next descriptor, bit
/// 1 marks a device-writable buffer, bit 2 an indirect table.
#[derive(Clone, Copy, PartialEq, Eq, Structural, Debug)]
pub struct DescriptorFlags {
    pub raw: u16,
}

impl DescriptorFlags {
    /// Whether the descriptor chains on.
    pub fn next(&self) -> (r: bool)
        ensures
            r == (self.raw & 1 == 1),
    {
        proof {
            let v = self.raw;
            assert((v & 1 == 1) == !(v & 1 == 0)) by (bit_vector);
        }
        self.raw & 1 != 0
    }

    /// Whether the device writes the buffer.
    pub fn write(&self) -> (r: bool)
        ensures
            r == (self.raw & 2 == 2),
    {
        proof {
            let v = self.raw;
            assert((v & 2 == 2) == !(v & 2 == 0)) by (bit_vector);
        }
        self.raw & 2 != 0
    }

    /// Whether the buffer is an indirect descriptor table.
    pub fn indirect(&self) -> (r: bool)
        ensures
            r == (self.raw & 4 == 4),
    {
        proof {
            let v = self.raw;
            assert((v & 4 == 4) == !(v & 4 == 0)) by (bit_vector);
        }
        self.raw & 4 != 0
    }
}

/// The ring of descriptor indices the driver offers to the device.
#[derive(Clone, PartialEq, Eq, Debug)]
pub struct Available {
    pub flags: u16,
    pub index: u16,
    pub ring: Vec<u16>,
    pub used_event: u16,
}

/// One completion: which descriptor chain finished and how many bytes the
/// device wrote.
#[derive(Clone, Copy, PartialEq, Eq, Structural, Debug)]
pub struct UsedElement {
    pub id: u32,
    pub len: u32,
}

/// The ring of completions the device hands back.
#[derive(Clone, PartialEq, Eq, Debug)]
pub struct Used {
    pub flags: u16,
    pub index: u16,
    pub ring: Vec<UsedElement>,
    pub available_event: u16,
}

/// A whole virtqueue: the descriptors and the two rings.
pub struct Queue {
    pub descriptors: Vec<Descriptor>,
    pub available: Available,
    pub used: Used,
}

impl Queue {
    /// All three parts have the ring length.
    pub open spec fn wf(self) -> bool {
        &&& self.descriptors@.len() == QUEUE_LEN
        &&& self.available.ring@.len() == QUEUE_LEN
        &&& self.used.ring@.len() == QUEUE_LEN
    }

    /// An empty virtqueue.
    pub fn new() -> (r: Queue)
        ensures
            r.wf(),
            forall|i: int|
                0 <= i < QUEUE_LEN ==> #[trigger] r.descriptors@[i] == (Descriptor {
                    addr: 0,
                    len: 0,
                    flags: 0,
                    next: 0,
                }),
    {
        let mut descriptors: Vec<Descriptor> = Vec::new();
        let mut avail_ring: Vec<u16> = Vec::new();
        let mut used_ring: Vec<UsedElement> = Vec::new();
        let mut i: usize = 0;
        while i < QUEUE_LEN
            invariant
                i <= QUEUE_LEN,
                descriptors@.len() == i,
                avail_ring@.len() == i,
                used_ring@.len() == i,
                forall|j: int|
                    0 <= j < i ==> #[trigger] descriptors@[j] == (Descriptor {
                        addr: 0,
                        len: 0,
                        flags: 0,
                        next: 0,
                    }),
            decreases QUEUE_LEN - i,
        {
            descriptors.push(Descriptor { addr: 0, len: 0, flags: 0, next: 0 });
            avail_ring.push(0);
            used_ring.push(UsedElement { id: 0, len: 0 });
            i = i + 1;
        }
        Queue {
            descriptors,
            available: Available { flags: 0, index: 0, ring: avail_ring, used_event: 0 },
            used: Used { flags: 0, index: 0, ring: used_ring, available_event: 0 },
        }
    }
}

/// The type of a block request.
#[derive(Clone, Copy, PartialEq, Eq, Structural, Debug)]
pub enum RequestType {
    Read,
    Write,
    Flush,
    Discard,
    WriteZeroes,
}

impl RequestType {
    /// The wire value of this request type.
    pub fn raw_value(&self) -> (r: u32)
        ensures
            *self is Read ==> r == 0,
            *self is Write ==> r == 1,
            *self is Flush ==> r == 4,
            *self is Discard ==> r == 11,
            *self is WriteZeroes ==> r == 13,
    {
        match self {
            RequestType::Read => 0,
            RequestType::Write => 1,
            RequestType::Flush => 4,
            RequestType::Discard => 11,
            RequestType::WriteZeroes => 13,
        }
    }
}

/// One block request as it sits in memory for the device.
pub struct BlockRequest {
    pub request_type: u32,
    pub reserved: u32,
    pub sector: u64,
    pub data: Vec<u8>,
    pub status: u8,
}

impl BlockRequest {
    /// A zeroed request of one sector.
    pub fn new() -> (r: BlockRequest)
        ensures
            r.request_type == 0,
            r.sector == 0,
            r.status == 0,
            r.data@.len() == BLOCK_SIZE,
    {
        let mut data: Vec<u8> = Vec::new();
        let mut i: usize = 0;
        while i < BLOCK_SIZE
            invariant
                i <= BLOCK_SIZE,
                data@.len() == i,
            decreases BLOCK_SIZE - i,
        {
            data.push(0);
            i = i + 1;
        }
        BlockRequest { request_type: 0, reserved: 0, sector: 0, data, status: 0 }
    }
}

/// The device geometry the configuration space reports.
#[derive(Clone, Copy, PartialEq, Eq, Structural, Debug)]
pub struct Geometry {
    pub cylinders: u16,
    pub heads: u8,
    pub sectors: u8,
}

/// The device's preferred transfer shape.
#[derive(Clone, Copy, PartialEq, Eq, Structural, Debug)]
pub struct Topology {
    pub physical_block_exp: u8,
    pub alignment_offset: u8,
    pub minimum_io_size: u16,
    pub optimal_io_size: u32,
}

/// The block device's configuration space, as plain values.
#[derive(Clone, Copy, PartialEq, Eq, Structural, Debug)]
pub struct Config {
    pub capacity: u64,
    pub size_max: u32,
    pub segment_max: u32,
    pub geometry: Geometry,
    pub block_size: u32,
    pub topology: Topology,
    pub writeback: u8,
}

/// The feature bits of the block device that the driver inspects.
#[derive(Clone, Copy, PartialEq, Eq, Structural, Debug)]
pub struct FeatureFlags {
    pub raw: u32,
}

impl FeatureFlags {
    /// Whether the device is read-only (bit 5).
    pub fn read_only(&self) -> (r: bool)
        ensures
            r == (self.raw & 32 == 32),
    {
        proof {
            let v = self.raw;
            assert((v & 32 == 32) == !(v & 32 == 0)) by (bit_vector);
        }
        self.raw & 32 != 0
    }

    /// Whether the device offers the flush command (bit 9).
    pub fn flush_command(&self) -> (r: bool)
        ensures
            r == (self.raw & 512 == 512),
    {
        proof {
            let v = self.raw;
            assert((v & 512 == 512) == !(v & 512 == 0)) by (bit_vector);
        }
        self.raw & 512 != 0
    }

    /// The flags with every bit the driver does not negotiate cleared:
    /// what it writes back as the accepted feature set.
    pub fn accepted(&self) -> (r: FeatureFlags)
        ensures
            r.raw == 0,
    {
        FeatureFlags { raw: 0 }
    }
}

/// A driver-side descriptor pool: which ring slots are free.
pub struct DescriptorPool {
    pub free: Vec<bool>,
}

impl DescriptorPool {
    /// One slot per ring entry.
    pub open spec fn wf(self) -> bool {
        self.free@.len() == QUEUE_LEN
    }

    /// A pool with every slot free.
    pub fn new() -> (r: DescriptorPool)
        ensures
            r.wf(),
            forall|i: int| 0 <= i < QUEUE_LEN ==> #[trigger] r.free@[i],
    {
        let mut free: Vec<bool> = Vec::new();
        let mut i: usize = 0;
        while i < QUEUE_LEN
            invariant
                i <= QUEUE_LEN,
                free@.len() == i,
                forall|j: int| 0 <= j < i ==> #[trigger] free@[j],
            decreases QUEUE_LEN - i,
        {
            free.push(true);
            i = i + 1;
        }
        DescriptorPool { free }
    }

    /// Claim the first free slot, if any: exactly when none is free does
    /// this fail.
    pub fn allocate_descriptor(&mut self) -> (r: Option<usize>)
        requires
            old(self).wf(),
        ensures
            final(self).wf(),
            r is None ==> *final(self) == *old(self) && (forall|i: int|
                0 <= i < QUEUE_LEN ==> !(#[trigger] old(self).free@[i])),
            r matches Some(i) ==> i < QUEUE_LEN && old(self).free@[i as int] && final(self).free@
                == old(self).free@.update(i as int, false),
    {
        let mut i: usize = 0;
        while i < QUEUE_LEN
            invariant
                i <= QUEUE_LEN,
                *self == *old(self),
                old(self).wf(),
                forall|j: int| 0 <= j < i ==> !(#[trigger] self.free@[j]),
            decreases QUEUE_LEN - i,
        {
            if self.free[i] {
                self.free.set(i, false);
                return Some(i);
            }
            i = i + 1;
        }
        None
    }

    /// Return a claimed slot to the pool.
    pub fn free_descriptor(&mut self, index: usize)
        requires
            old(self).wf(),
            index < QUEUE_LEN,
            !old(self).free@[index as int],
        ensures
            final(self).wf(),
            final(self).free@ == old(self).free@.update(index as int, true),
    {
        self.free.set(index, true);
    }
}

} // verus!
