//! The IPC server registry: per-process server identities, public names,
//! and per-server FIFO mailboxes.

use vstd::prelude::*;

verus! {

/// The reserved sentinel meaning "no value" in scalar results.
pub const NO_VALUE: u64 = 0xffff_ffff_ffff_ffff;

/// The fixed inline payload of a message: five 64-bit words.
#[derive(Clone, Copy, PartialEq, Eq, Debug)]
pub struct MessageData {
    pub data: [u64; 5],
}

impl MessageData {
    /// Number of payload words.
    pub const LEN: usize = 5;

    /// A payload from five words.
    pub fn new(data: [u64; 5]) -> (r: MessageData)
        ensures
            r.data == data,
    {
        MessageData { data }
    }

    /// The all-zero payload.
    pub fn empty() -> (r: MessageData)
        ensures
            forall|i: int| 0 <= i < 5 ==> r.data@[i] == 0u64,
    {
        MessageData { data: [0, 0, 0, 0, 0] }
    }

    /// A payload carrying one word in the first slot.
    pub fn from_u64(data: u64) -> (r: MessageData)
        ensures
            r.data@[0] == data,
            forall|i: int| 1 <= i < 5 ==> r.data@[i] == 0u64,
    {
        MessageData { data: [data, 0, 0, 0, 0] }
    }

    /// A payload from up to five leading words of a slice; the rest is zero.
    pub fn from_slice(data: &[u64]) -> (r: MessageData)
        requires
            data@.len() <= 5,
        ensures
            forall|i: int| 0 <= i < data@.len() ==> r.data@[i] == data@[i],
            forall|i: int| data@.len() <= i < 5 ==> r.data@[i] == 0u64,
    {
        let mut r = MessageData::empty();
        let mut i: usize = 0;
        while i < data.len()
            invariant
                i <= data@.len() <= 5,
                r.data@.len() == 5,
                forall|j: int| 0 <= j < i ==> r.data@[j] == data@[j],
                forall|j: int| i <= j < 5 ==> r.data@[j] == 0u64,
            decreases data@.len() - i,
        {
            r.data[i] = data[i];
            i = i + 1;
        }
        r
    }

    /// The payload words as a slice.
    pub fn as_slice(&self) -> (r: &[u64])
        ensures
            r@ == self.data@,
    {
        &self.data
    }
}

/// A message as it sits in a server's mailbox.
#[derive(Clone, Copy, PartialEq, Eq, Debug)]
pub struct Message {
    pub identifier: u64,
    pub sender_pid: usize,
    pub sender_sid: u64,
    pub data: MessageData,
}

impl Message {
    /// A message stamped with its sender's process and server identity.
    pub fn new(sender_pid: usize, sender_sid: u64, identifier: u64, data: MessageData) -> (r:
        Message)
        ensures
            r == (Message { sender_pid, sender_sid, identifier, data }),
    {
        Message { sender_sid, sender_pid, identifier, data }
    }
}

/// A registered server: the owning process, its 64-bit identity, and its
/// mailbox in arrival order.
pub struct Server {
    pub process_id: usize,
    pub server_id: u64,
    pub messages: Vec<Message>,
}

impl Server {
    /// Whether the mailbox holds anything.
    pub fn has_messages(&self) -> (r: bool)
        ensures
            r == (self.messages@.len() > 0),
    {
        self.messages.len() > 0
    }

    /// Append a message at the back of the mailbox.
    pub fn send_message(&mut self, message: Message)
        ensures
            final(self).process_id == old(self).process_id,
            final(self).server_id == old(self).server_id,
            final(self).messages@ == old(self).messages@.push(message),
    {
        self.messages.push(message);
    }

    /// Take the message at the front of the mailbox, if any.
    pub fn receive_message(&mut self) -> (r: Option<Message>)
        ensures
            final(self).process_id == old(self).process_id,
            final(self).server_id == old(self).server_id,
            old(self).messages@.len() == 0 ==> r is None && final(self).messages@ == old(self).messages@,
            old(self).messages@.len() > 0 ==> r == Some(old(self).messages@[0]) && final(self).messages@ == old(self).messages@.drop_first(),
    {
        if self.messages.len() == 0 {
            None
        } else {
            let m = self.messages.remove(0);
            Some(m)
        }
    }
}

/// The mailbox `q` with every message from `sender` removed, in order.
pub open spec fn spec_without_sender(q: Seq<Message>, sender: usize) -> Seq<Message>
    decreases q.len(),
{
    if q.len() == 0 {
        Seq::empty()
    } else {
        let rest = spec_without_sender(q.drop_last(), sender);
        if q.last().sender_pid == sender {
            rest
        } else {
            rest.push(q.last())
        }
    }
}

/// Nothing that `spec_without_sender` keeps is from the removed sender.
pub proof fn lemma_without_sender_clean(q: Seq<Message>, sender: usize)
    ensures
        forall|j: int|
            0 <= j < spec_without_sender(q, sender).len() ==> #[trigger] spec_without_sender(
                q,
                sender,
            )[j].sender_pid != sender,
    decreases q.len(),
{
    if q.len() > 0 {
        lemma_without_sender_clean(q.drop_last(), sender);
        let rest = spec_without_sender(q.drop_last(), sender);
        let out = spec_without_sender(q, sender);
        assert forall|j: int| 0 <= j < out.len() implies #[trigger] out[j].sender_pid != sender by {
            if q.last().sender_pid != sender {
                if j < rest.len() {
                    assert(out[j] == rest[j]);
                }
            }
        }
    }
}

/// The registry: the list of servers and the counter that hands out
/// automatic server identities.
pub struct ServerList {
    pub servers: Vec<Server>,
    pub next_server_id: u64,
}

impl ServerList {
    /// Whether some server is owned by `pid`.
    pub open spec fn spec_has_pid(self, pid: usize) -> bool {
        exists|i: int| 0 <= i < self.servers@.len() && self.servers@[i].process_id == pid
    }

    /// The index of the server owned by `pid`.
    pub open spec fn spec_index_of_pid(self, pid: usize) -> int {
        choose|i: int| 0 <= i < self.servers@.len() && self.servers@[i].process_id == pid
    }

    /// Whether some server carries the identity `sid`.
    pub open spec fn spec_has_sid(self, sid: u64) -> bool {
        exists|i: int| 0 <= i < self.servers@.len() && self.servers@[i].server_id == sid
    }

    /// The index of the server with identity `sid`.
    pub open spec fn spec_index_of_sid(self, sid: u64) -> int {
        choose|i: int| 0 <= i < self.servers@.len() && self.servers@[i].server_id == sid
    }

    /// Registry invariant: at most one server per process, identities
    /// globally unique, and neither 0 nor the reserved sentinel in use.
    pub open spec fn wf(self) -> bool {
        &&& forall|i: int, j: int|
            #![trigger self.servers@[i].process_id, self.servers@[j].process_id]
            #![trigger self.servers@[i].server_id, self.servers@[j].server_id]
            0 <= i < j < self.servers@.len() ==> self.servers@[i].process_id
                != self.servers@[j].process_id && self.servers@[i].server_id
                != self.servers@[j].server_id
        &&& forall|i: int|
            0 <= i < self.servers@.len() ==> #[trigger] self.servers@[i].server_id != 0
                && self.servers@[i].server_id != NO_VALUE
        &&& self.next_server_id >= 1
    }

    /// An empty registry whose automatic identities start at 1.
    pub fn new() -> (r: ServerList)
        ensures
            r.wf(),
            r.servers@.len() == 0,
            r.next_server_id == 1,
    {
        ServerList { servers: Vec::new(), next_server_id: 1 }
    }

    /// Whether any server is owned by `pid`.
    fn has_pid(&self, pid: usize) -> (r: bool)
        ensures
            r == self.spec_has_pid(pid),
    {
        let n = self.servers.len();
        let mut i: usize = 0;
        while i < n
            invariant
                i <= n,
                n == self.servers@.len(),
                forall|j: int| 0 <= j < i ==> #[trigger] self.servers@[j].process_id != pid,
            decreases n - i,
        {
            if self.servers[i].process_id == pid {
                return true;
            }
            i = i + 1;
        }
        false
    }

    /// Whether any server carries the identity `sid`.
    fn has_sid(&self, sid: u64) -> (r: bool)
        ensures
            r == self.spec_has_sid(sid),
    {
        let n = self.servers.len();
        let mut i: usize = 0;
        while i < n
            invariant
                i <= n,
                n == self.servers@.len(),
                forall|j: int| 0 <= j < i ==> #[trigger] self.servers@[j].server_id != sid,
            decreases n - i,
        {
            if self.servers[i].server_id == sid {
                return true;
            }
            i = i + 1;
        }
        false
    }

    /// What a successful registration did: one server for `pid` with
    /// identity `sid` and an empty mailbox was appended, and nothing else
    /// changed.
    pub open spec fn spec_registered(pre: ServerList, post: ServerList, pid: usize, sid: u64) -> bool {
        &&& post.servers@.len() == pre.servers@.len() + 1
        &&& forall|i: int| 0 <= i < pre.servers@.len() ==> post.servers@[i] == pre.servers@[i]
        &&& post.servers@.last().process_id == pid
        &&& post.servers@.last().server_id == sid
        &&& post.servers@.last().messages@.len() == 0
    }

    /// Whether every automatic identity from the counter up to the sentinel
    /// is already taken.
    pub open spec fn spec_auto_exhausted(self) -> bool {
        forall|c: u64| self.next_server_id <= c < NO_VALUE ==> self.spec_has_sid(c)
    }

    /// Register `pid` as a server.  A requested identity is taken as is;
    /// with none requested the next free automatic identity is assigned.
    /// Fails exactly if `pid` already owns a server, or the requested
    /// identity is 0, the reserved sentinel, or already taken, or (never in
    /// practice) the automatic identities are used up.
    pub fn register(&mut self, process_id: usize, server_id: Option<u64>) -> (r: Option<u64>)
        requires
            old(self).wf(),
        ensures
            final(self).wf(),
            r is None <==> (old(self).spec_has_pid(process_id) || (match server_id {
                Some(sid) => sid == 0 || sid == NO_VALUE || old(self).spec_has_sid(sid),
                None => old(self).spec_auto_exhausted(),
            })),
            r is None ==> *final(self) == *old(self),
            r matches Some(sid) ==> Self::spec_registered(*old(self), *final(self), process_id, sid)
                && sid != 0 && sid != NO_VALUE && !old(self).spec_has_sid(sid) && (
            server_id matches Some(req) ==> sid == req),
    {
        if self.has_pid(process_id) {
            return None;
        }
        let sid: u64 = match server_id {
            Some(requested) => {
                if requested == 0 || requested == NO_VALUE || self.has_sid(requested) {
                    return None;
                }
                requested
            },
            None => {
                let mut candidate: u64 = self.next_server_id;
                while self.has_sid(candidate)
                    invariant
                        *self == *old(self),
                        old(self).wf(),
                        old(self).next_server_id <= candidate <= NO_VALUE,
                        forall|c: u64|
                            old(self).next_server_id <= c < candidate ==> old(self).spec_has_sid(
                                c,
                            ),
                    decreases NO_VALUE - candidate,
                {
                    candidate = candidate + 1;
                }
                if candidate == NO_VALUE {
                    // The identity space is exhausted; report a collision.
                    return None;
                }
                proof {
                    assert(old(self).next_server_id <= candidate < NO_VALUE && !old(self).spec_has_sid(candidate));
                }
                self.next_server_id = candidate + 1;
                candidate
            },
        };
        let server = Server { process_id, server_id: sid, messages: Vec::new() };
        self.servers.push(server);
        proof {
            let pre = *old(self);
            assert forall|i: int, j: int| 0 <= i < j < self.servers@.len() implies #[trigger] self
                .servers@[i].process_id != #[trigger] self.servers@[j].process_id
                && self.servers@[i].server_id != self.servers@[j].server_id by {
                if j == self.servers@.len() - 1 {
                    assert(self.servers@[i] == pre.servers@[i]);
                }
            }
        }
        Some(sid)
    }

    /// The server owned by `pid`, for reading and writing.
    pub fn get_by_pid(&mut self, process_id: usize) -> (r: Option<&mut Server>)
        requires
            old(self).wf(),
        ensures
            r is None ==> !old(self).spec_has_pid(process_id) && *final(self) == *old(self),
            r matches Some(s) ==> old(self).spec_has_pid(process_id) && {
                let i = old(self).spec_index_of_pid(process_id);
                &&& *s == old(self).servers@[i]
                &&& final(self).servers@ == old(self).servers@.update(i, *final(s))
                &&& final(self).next_server_id == old(self).next_server_id
            },
    {
        let n = self.servers.len();
        let mut i: usize = 0;
        while i < n
            invariant
                i <= n,
                n == self.servers@.len(),
                *self == *old(self),
                old(self).wf(),
                forall|j: int| 0 <= j < i ==> #[trigger] self.servers@[j].process_id != process_id,
            decreases n - i,
        {
            if self.servers[i].process_id == process_id {
                proof {
                    let ci = old(self).spec_index_of_pid(process_id);
                    assert(0 <= ci < old(self).servers@.len() && old(self).servers@[ci].process_id == process_id);
                    if ci < i as int {
                        assert(old(self).servers@[ci].process_id != old(self).servers@[
                            i as int].process_id);
                    } else if ci > i as int {
                        assert(old(self).servers@[i as int].process_id != old(self).servers@[
                            ci].process_id);
                    }
                }
                return Some(&mut self.servers[i]);
            }
            i = i + 1;
        }
        None
    }

    /// The server with identity `sid`, for reading and writing.
    pub fn get_by_sid(&mut self, server_id: u64) -> (r: Option<&mut Server>)
        requires
            old(self).wf(),
        ensures
            r is None ==> !old(self).spec_has_sid(server_id) && *final(self) == *old(self),
            r matches Some(s) ==> old(self).spec_has_sid(server_id) && {
                let i = old(self).spec_index_of_sid(server_id);
                &&& *s == old(self).servers@[i]
                &&& final(self).servers@ == old(self).servers@.update(i, *final(s))
                &&& final(self).next_server_id == old(self).next_server_id
            },
    {
        let n = self.servers.len();
        let mut i: usize = 0;
        while i < n
            invariant
                i <= n,
                n == self.servers@.len(),
                *self == *old(self),
                old(self).wf(),
                forall|j: int| 0 <= j < i ==> #[trigger] self.servers@[j].server_id != server_id,
            decreases n - i,
        {
            if self.servers[i].server_id == server_id {
                proof {
                    let ci = old(self).spec_index_of_sid(server_id);
                    assert(0 <= ci < old(self).servers@.len() && old(self).servers@[ci].server_id
                        == server_id);
                    if ci < i as int {
                        assert(old(self).servers@[ci].server_id != old(self).servers@[
                            i as int].server_id);
                    } else if ci > i as int {
                        assert(old(self).servers@[i as int].server_id != old(self).servers@[
                            ci].server_id);
                    }
                }
                return Some(&mut self.servers[i]);
            }
            i = i + 1;
        }
        None
    }

    /// The owning process of the server with identity `sid`, and whether
    /// its mailbox holds anything, without touching the registry.
    pub fn server_info(&self, server_id: u64) -> (r: Option<(usize, bool)>)
        requires
            self.wf(),
        ensures
            r is None ==> !self.spec_has_sid(server_id),
            r matches Some(info) ==> self.spec_has_sid(server_id) && {
                let i = self.spec_index_of_sid(server_id);
                info.0 == self.servers@[i].process_id && info.1 == (self.servers@[i].messages@.len()
                    > 0)
            },
    {
        let n = self.servers.len();
        let mut i: usize = 0;
        while i < n
            invariant
                i <= n,
                n == self.servers@.len(),
                self.wf(),
                forall|j: int| 0 <= j < i ==> #[trigger] self.servers@[j].server_id != server_id,
            decreases n - i,
        {
            if self.servers[i].server_id == server_id {
                proof {
                    let ci = self.spec_index_of_sid(server_id);
                    assert(0 <= ci < self.servers@.len() && self.servers@[ci].server_id
                        == server_id);
                    if ci < i as int {
                        assert(self.servers@[ci].server_id != self.servers@[i as int].server_id);
                    } else if ci > i as int {
                        assert(self.servers@[i as int].server_id != self.servers@[ci].server_id);
                    }
                }
                return Some((self.servers[i].process_id, self.servers[i].messages.len() > 0));
            }
            i = i + 1;
        }
        None
    }

    /// The element-wise relation of the purge pass: same owners and
    /// identities, every mailbox cleaned of messages sent by `pid`.
    pub open spec fn spec_purged(pre: ServerList, mid: ServerList, pid: usize) -> bool {
        &&& mid.next_server_id == pre.next_server_id
        &&& mid.servers@.len() == pre.servers@.len()
        &&& forall|k: int|
            #![trigger mid.servers@[k]]
            0 <= k < pre.servers@.len() ==> mid.servers@[k].process_id
                == pre.servers@[k].process_id && mid.servers@[k].server_id
                == pre.servers@[k].server_id && mid.servers@[k].messages@ == spec_without_sender(
                pre.servers@[k].messages@,
                pid,
            )
    }

    /// Drop every queued message sent by `pid` from every mailbox, then
    /// remove and return the server owned by `pid`, if any.  Afterwards no
    /// mailbox holds a message whose sender is `pid`, and `pid` owns no
    /// server.
    pub fn remove_by_pid(&mut self, process_id: usize) -> (r: Option<Server>)
        requires
            old(self).wf(),
        ensures
            final(self).wf(),
            final(self).next_server_id == old(self).next_server_id,
            !final(self).spec_has_pid(process_id),
            forall|i: int, j: int|
                0 <= i < final(self).servers@.len() && 0 <= j < final(self).servers@[i].messages@.len() ==> #[trigger] final(self).servers@[i].messages@[j].sender_pid != process_id,
            r is None ==> !old(self).spec_has_pid(process_id) && Self::spec_purged(
                *old(self),
                *final(self),
                process_id,
            ),
            r matches Some(s) ==> old(self).spec_has_pid(process_id) && s.process_id == process_id
                && s.server_id == old(self).servers@[old(self).spec_index_of_pid(
                process_id,
            )].server_id && final(self).servers@.len() + 1 == old(self).servers@.len() && (forall|
                i: int,
            |
                0 <= i < final(self).servers@.len() ==> {
                    let k = old(self).spec_index_of_pid(process_id);
                    let src = if i < k {
                        i
                    } else {
                        i + 1
                    };
                    &&& (#[trigger] final(self).servers@[i]).process_id
                        == old(self).servers@[src].process_id
                    &&& final(self).servers@[i].server_id == old(self).servers@[src].server_id
                    &&& final(self).servers@[i].messages@ == spec_without_sender(
                        old(self).servers@[src].messages@,
                        process_id,
                    )
                }),
            forall|sid: u64|
                #[trigger] final(self).spec_has_sid(sid) ==> old(self).spec_has_sid(sid),
            forall|p2: usize|
                #[trigger] final(self).spec_has_pid(p2) ==> old(self).spec_has_pid(p2) && p2
                    != process_id,
    {
        let n = self.servers.len();
        let ghost pre = *self;
        // First pass: purge messages sent by the departing process.
        let mut i: usize = 0;
        while i < n
            invariant
                i <= n,
                n == self.servers@.len(),
                pre == *old(self),
                pre.wf(),
                n == pre.servers@.len(),
                self.next_server_id == pre.next_server_id,
                forall|k: int| i <= k < n ==> #[trigger] self.servers@[k] == pre.servers@[k],
                forall|k: int|
                    0 <= k < i ==> #[trigger] self.servers@[k].process_id
                        == pre.servers@[k].process_id && self.servers@[k].server_id
                        == pre.servers@[k].server_id && self.servers@[k].messages@
                        == spec_without_sender(pre.servers@[k].messages@, process_id),
            decreases n - i,
        {
            let ghost before = self.servers@;
            let server = &mut self.servers[i];
            let ghost sv = *server;
            let m = server.messages.len();
            let mut kept: Vec<Message> = Vec::new();
            let mut j: usize = 0;
            while j < m
                invariant
                    j <= m,
                    *server == sv,
                    m == sv.messages@.len(),
                    kept@ == spec_without_sender(sv.messages@.take(j as int), process_id),
                decreases m - j,
            {
                proof {
                    assert(sv.messages@.take(j + 1).drop_last() =~= sv.messages@.take(j as int));
                    assert(sv.messages@.take(j + 1).last() == sv.messages@[j as int]);
                }
                if server.messages[j].sender_pid != process_id {
                    let msg = server.messages[j];
                    kept.push(msg);
                }
                j = j + 1;
            }
            proof {
                assert(sv.messages@.take(m as int) =~= sv.messages@);
            }
            server.messages = kept;
            i = i + 1;
            proof {
                assert(self.servers@[i - 1].process_id == sv.process_id);
                assert(self.servers@[i - 1].server_id == sv.server_id);
                assert(self.servers@[i - 1].messages@ == spec_without_sender(
                    sv.messages@,
                    process_id,
                ));
                assert forall|k: int| 0 <= k < n && k != i - 1 implies self.servers@[k]
                    == before[k] by {}
            }
        }
        proof {
            lemma_purged_registry(pre, *self, process_id);
        }
        // Second pass: remove the server owned by the process.
        let ghost mid = *self;
        let mut k: usize = 0;
        while k < n
            invariant
                k <= n,
                n == self.servers@.len(),
                *self == mid,
                pre == *old(self),
                pre.wf(),
                mid.wf(),
                Self::spec_purged(pre, mid, process_id),
                forall|p2: usize| #[trigger] mid.spec_has_pid(p2) <==> pre.spec_has_pid(p2),
                forall|s2: u64| #[trigger] mid.spec_has_sid(s2) <==> pre.spec_has_sid(s2),
                forall|i2: int, j2: int|
                    0 <= i2 < mid.servers@.len() && 0 <= j2 < mid.servers@[i2].messages@.len()
                        ==> #[trigger] mid.servers@[i2].messages@[j2].sender_pid != process_id,
                forall|j2: int|
                    0 <= j2 < k ==> #[trigger] self.servers@[j2].process_id != process_id,
            decreases n - k,
        {
            if self.servers[k].process_id == process_id {
                let s = self.servers.remove(k);
                proof {
                    lemma_removed_registry(mid, *self, process_id, k as int);
                    let ci = pre.spec_index_of_pid(process_id);
                    assert(pre.spec_has_pid(process_id)) by {
                        assert(pre.servers@[k as int].process_id == process_id);
                    }
                    assert(0 <= ci < n && pre.servers@[ci].process_id == process_id);
                    if ci < k as int {
                        assert(pre.servers@[ci].process_id != pre.servers@[k as int].process_id);
                    } else if ci > k as int {
                        assert(pre.servers@[k as int].process_id != pre.servers@[ci].process_id);
                    }
                    assert(s.server_id == pre.servers@[ci].server_id);
                }
                return Some(s);
            }
            k = k + 1;
        }
        proof {
            assert(!mid.spec_has_pid(process_id)) by {
                if mid.spec_has_pid(process_id) {
                    let w = choose|w: int|
                        0 <= w < mid.servers@.len() && mid.servers@[w].process_id == process_id;
                    assert(self.servers@[w].process_id != process_id);
                }
            }
        }
        None
    }
}

/// After the purge pass the registry is still well formed, owners and
/// identities are unchanged, and every mailbox is clean of the departing
/// sender.
proof fn lemma_purged_registry(pre: ServerList, mid: ServerList, pid: usize)
    requires
        pre.wf(),
        ServerList::spec_purged(pre, mid, pid),
    ensures
        mid.wf(),
        forall|p2: usize| #[trigger] mid.spec_has_pid(p2) <==> pre.spec_has_pid(p2),
        forall|s2: u64| #[trigger] mid.spec_has_sid(s2) <==> pre.spec_has_sid(s2),
        forall|i: int, j: int|
            0 <= i < mid.servers@.len() && 0 <= j < mid.servers@[i].messages@.len()
                ==> #[trigger] mid.servers@[i].messages@[j].sender_pid != pid,
{
    assert forall|p2: usize| #[trigger] mid.spec_has_pid(p2) <==> pre.spec_has_pid(p2) by {
        if mid.spec_has_pid(p2) {
            let w = choose|w: int|
                0 <= w < mid.servers@.len() && mid.servers@[w].process_id == p2;
            assert(pre.servers@[w].process_id == p2);
        }
        if pre.spec_has_pid(p2) {
            let w = choose|w: int|
                0 <= w < pre.servers@.len() && pre.servers@[w].process_id == p2;
            assert(mid.servers@[w].process_id == p2);
        }
    }
    assert forall|s2: u64| #[trigger] mid.spec_has_sid(s2) <==> pre.spec_has_sid(s2) by {
        if mid.spec_has_sid(s2) {
            let w = choose|w: int|
                0 <= w < mid.servers@.len() && mid.servers@[w].server_id == s2;
            assert(pre.servers@[w].server_id == s2);
        }
        if pre.spec_has_sid(s2) {
            let w = choose|w: int|
                0 <= w < pre.servers@.len() && pre.servers@[w].server_id == s2;
            assert(mid.servers@[w].server_id == s2);
        }
    }
    assert forall|i: int, j: int|
        0 <= i < mid.servers@.len() && 0 <= j < mid.servers@[i].messages@.len()
        implies #[trigger] mid.servers@[i].messages@[j].sender_pid != pid by {
        lemma_without_sender_clean(pre.servers@[i].messages@, pid);
        assert(mid.servers@[i].messages@ == spec_without_sender(pre.servers@[i].messages@, pid));
    }
    assert forall|i: int, j: int| 0 <= i < j < mid.servers@.len() implies #[trigger] mid.servers@[
        i].process_id != #[trigger] mid.servers@[j].process_id && mid.servers@[i].server_id
        != mid.servers@[j].server_id by {
        assert(pre.servers@[i].process_id != pre.servers@[j].process_id);
    }
    assert forall|i: int|
        0 <= i < mid.servers@.len() implies #[trigger] mid.servers@[i].server_id != 0
        && mid.servers@[i].server_id != NO_VALUE by {
        assert(mid.servers@[i].server_id == pre.servers@[i].server_id);
    }
}

/// Removing the server at index `k` from a clean, well-formed registry
/// keeps it well formed and clean, and introduces no owner or identity.
proof fn lemma_removed_registry(mid: ServerList, post: ServerList, pid: usize, k: int)
    requires
        mid.wf(),
        0 <= k < mid.servers@.len(),
        mid.servers@[k].process_id == pid,
        post.servers@ == mid.servers@.remove(k),
        post.next_server_id == mid.next_server_id,
        forall|i: int, j: int|
            0 <= i < mid.servers@.len() && 0 <= j < mid.servers@[i].messages@.len()
                ==> #[trigger] mid.servers@[i].messages@[j].sender_pid != pid,
    ensures
        post.wf(),
        !post.spec_has_pid(pid),
        forall|i: int, j: int|
            0 <= i < post.servers@.len() && 0 <= j < post.servers@[i].messages@.len()
                ==> #[trigger] post.servers@[i].messages@[j].sender_pid != pid,
        forall|sid: u64| #[trigger] post.spec_has_sid(sid) ==> mid.spec_has_sid(sid),
        forall|p2: usize| #[trigger] post.spec_has_pid(p2) ==> mid.spec_has_pid(p2) && p2 != pid,
        forall|i: int|
            0 <= i < post.servers@.len() ==> #[trigger] post.servers@[i] == mid.servers@[if i < k {
                i
            } else {
                i + 1
            }],
{
    assert forall|i: int| 0 <= i < post.servers@.len() implies #[trigger] post.servers@[i]
        == mid.servers@[if i < k {
        i
    } else {
        i + 1
    }] by {}
    assert forall|i: int, j: int| 0 <= i < j < post.servers@.len() implies #[trigger] post.servers@[
        i].process_id != #[trigger] post.servers@[j].process_id && post.servers@[i].server_id
        != post.servers@[j].server_id by {
        let si = if i < k {
            i
        } else {
            i + 1
        };
        let sj = if j < k {
            j
        } else {
            j + 1
        };
        assert(mid.servers@[si].process_id != mid.servers@[sj].process_id);
    }
    assert forall|i: int, j: int|
        0 <= i < post.servers@.len() && 0 <= j < post.servers@[i].messages@.len()
        implies #[trigger] post.servers@[i].messages@[j].sender_pid != pid by {
        let si = if i < k {
            i
        } else {
            i + 1
        };
        assert(post.servers@[i] == mid.servers@[si]);
        assert(mid.servers@[si].messages@[j].sender_pid != pid);
    }
    assert(!post.spec_has_pid(pid)) by {
        if post.spec_has_pid(pid) {
            let w = choose|w: int|
                0 <= w < post.servers@.len() && post.servers@[w].process_id == pid;
            let sw = if w < k {
                w
            } else {
                w + 1
            };
            if sw < k {
                assert(mid.servers@[sw].process_id != mid.servers@[k].process_id);
            } else {
                assert(mid.servers@[k].process_id != mid.servers@[sw].process_id);
            }
        }
    }
    assert forall|sid: u64| #[trigger] post.spec_has_sid(sid) implies mid.spec_has_sid(sid) by {
        let w = choose|w: int| 0 <= w < post.servers@.len() && post.servers@[w].server_id == sid;
        let sw = if w < k {
            w
        } else {
            w + 1
        };
        assert(mid.servers@[sw].server_id == sid);
    }
    assert forall|p2: usize| #[trigger] post.spec_has_pid(p2) implies mid.spec_has_pid(p2) && p2
        != pid by {
        let w = choose|w: int| 0 <= w < post.servers@.len() && post.servers@[w].process_id == p2;
        let sw = if w < k {
            w
        } else {
            w + 1
        };
        assert(mid.servers@[sw].process_id == p2);
    }
    assert forall|i: int|
        0 <= i < post.servers@.len() implies #[trigger] post.servers@[i].server_id != 0
        && post.servers@[i].server_id != NO_VALUE by {
        let si = if i < k {
            i
        } else {
            i + 1
        };
        assert(mid.servers@[si].server_id != 0 && mid.servers@[si].server_id != NO_VALUE);
    }
}

/// FIFO ordering of a mailbox: enqueueing `m1` and then `m2` places `m1`
/// strictly in front of `m2`, and `receive_message` takes the front first,
/// so any sequence of receives that returns both returns `m1` before `m2`.
pub proof fn lemma_ipc_fifo_order(q0: Seq<Message>, m1: Message, m2: Message)
    ensures
        q0.push(m1).push(m2)[q0.len() as int] == m1,
        q0.push(m1).push(m2)[q0.len() as int + 1] == m2,
        q0.len() < q0.len() + 1,
{
}

/// Draining a mailbox returns its elements front first: after `k` receives
/// the element returned next is the one at index `k` of the original queue.
pub proof fn lemma_receive_in_order(q: Seq<Message>, k: int)
    requires
        0 <= k < q.len(),
    ensures
        q.skip(k)[0] == q[k],
        q.skip(k).drop_first() == q.skip(k + 1),
{
    assert(q.skip(k).drop_first() =~= q.skip(k + 1));
}

} // verus!
