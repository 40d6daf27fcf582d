//! IPC channels.
//!
//! Channels are created as pairs of endpoints.  Writing to one endpoint
//! queues a message on its peer; messages are read back in FIFO order.
//! Each queue is bounded in bytes.

use vstd::prelude::*;
use crate::object::ids::{IdAllocator, nth_id};
use crate::object::handle::{KernelObjectBase, ObjectType, Handle, reissue_all, reissued, count_after_inc, count_after_dec};

verus! {

/// Channel identifier.
pub type ChannelId = u64;

/// Maximum message size in bytes.
pub const MAX_MSG_SIZE: usize = 65536;

/// Maximum handles per message.
pub const MAX_MSG_HANDLES: usize = 64;

/// Default byte capacity of a channel queue.
pub const DEFAULT_QUEUE_BYTES: usize = 262144;

/// A message: bytes and the handles being transferred.
pub struct Message {
    pub data: Vec<u8>,
    pub handles: Vec<Handle>,
}

impl Message {
    /// Create a new message.
    pub fn new(data: Vec<u8>, handles: Vec<Handle>) -> (m: Message)
        ensures
            m.data@ == data@,
            m.handles@ == handles@,
    {
        Message { data, handles }
    }

    /// Size of the message data.
    pub fn data_size(&self) -> (r: usize)
        ensures
            r == self.data@.len(),
    {
        self.data.len()
    }

    /// Number of handles carried.
    pub fn handle_count(&self) -> (r: usize)
        ensures
            r == self.handles@.len(),
    {
        self.handles.len()
    }

    /// Whether the message carries neither bytes nor handles.
    pub fn is_empty(&self) -> (r: bool)
        ensures
            r == (self.data@.len() == 0 && self.handles@.len() == 0),
    {
        self.data.len() == 0 && self.handles.len() == 0
    }
}

/// Channel state.
#[derive(Debug, Clone, Copy, PartialEq, Eq, Structural)]
pub enum ChannelState {
    /// Channel is active
    Active,
    /// One endpoint closed
    PeerClosed,
    /// Both endpoints closed
    Closed,
}

impl ChannelState {
    /// Create from raw value; unknown values give `Active`.
    pub fn from_raw(raw: u32) -> (r: ChannelState)
        ensures
            r == (if raw == 1 {
                ChannelState::PeerClosed
            } else if raw == 2 {
                ChannelState::Closed
            } else {
                ChannelState::Active
            }),
    {
        match raw {
            1 => ChannelState::PeerClosed,
            2 => ChannelState::Closed,
            _ => ChannelState::Active,
        }
    }

    /// Get the raw value.
    pub fn into_raw(self) -> (r: u32)
        ensures
            r == (match self {
                ChannelState::Active => 0u32,
                ChannelState::PeerClosed => 1u32,
                ChannelState::Closed => 2u32,
            }),
    {
        match self {
            ChannelState::Active => 0,
            ChannelState::PeerClosed => 1,
            ChannelState::Closed => 2,
        }
    }
}

/// Read result.
#[derive(Debug)]
pub struct ReadResult {
    pub bytes_read: usize,
    pub handles_read: usize,
}

/// Total byte size of a sequence of messages.
pub open spec fn total_bytes(q: Seq<Message>) -> nat
    decreases q.len(),
{
    if q.len() == 0 {
        0
    } else {
        total_bytes(q.drop_last()) + q.last().data@.len()
    }
}

proof fn lemma_total_bytes_front(q: Seq<Message>)
    requires
        q.len() > 0,
    ensures
        total_bytes(q) == q[0].data@.len() + total_bytes(q.drop_first()),
    decreases q.len(),
{
    if q.len() > 1 {
        lemma_total_bytes_front(q.drop_last());
        assert(q.drop_last().drop_first() =~= q.drop_first().drop_last());
        assert(q.drop_first().last() == q.last());
        assert(q.drop_last()[0] == q[0]);
        assert(total_bytes(q.drop_first()) == total_bytes(q.drop_first().drop_last())
            + q.drop_first().last().data@.len());
        assert(total_bytes(q) == total_bytes(q.drop_last()) + q.last().data@.len());
    } else {
        assert(q.drop_first().len() == 0);
        assert(q.drop_last().len() == 0);
        assert(total_bytes(q.drop_last()) == 0);
        assert(total_bytes(q.drop_first()) == 0);
        assert(q.last() == q[0]);
    }
}

/// One endpoint of a channel.
pub struct Channel {
    pub base: KernelObjectBase,
    pub id: ChannelId,
    pub peer: Option<ChannelId>,
    /// Messages waiting to be read from this endpoint, oldest first.
    pub queue: Vec<Message>,
    pub max_queue_bytes: usize,
    pub queue_size: usize,
    /// Signaled when messages are available.
    pub read_event: bool,
    /// Signaled when space is available.
    pub write_event: bool,
    pub state: ChannelState,
}

impl Channel {
    /// Well-formedness: the byte count matches the queue and stays in bounds.
    pub open spec fn wf(&self) -> bool {
        self.queue_size == total_bytes(self.queue@) && self.queue_size <= self.max_queue_bytes
    }

    fn new(id: ChannelId, max_queue_bytes: usize) -> (c: Channel)
        ensures
            c.wf(),
            c.id == id,
            c.peer is None,
            c.queue@.len() == 0,
            c.max_queue_bytes == max_queue_bytes,
            c.state == ChannelState::Active,
            c.base.obj_type == ObjectType::Channel,
            c.base.ref_count == 1,
            !c.read_event,
            c.write_event,
    {
        Channel {
            base: KernelObjectBase::new(ObjectType::Channel),
            id,
            peer: None,
            queue: Vec::new(),
            max_queue_bytes,
            queue_size: 0,
            read_event: false,
            write_event: true,
            state: ChannelState::Active,
        }
    }

    /// Create a pair of linked endpoints with fresh ids.
    pub fn create(ids: &mut IdAllocator) -> (r: Result<(Channel, Channel), &'static str>)
        ensures
            r matches Ok((a, b)) && {
                &&& a.wf() && b.wf()
                &&& a.id == old(ids).next && b.id == nth_id(old(ids).next, 1)
                &&& a.peer == Some(b.id) && b.peer == Some(a.id)
                &&& a.state == ChannelState::Active && b.state == ChannelState::Active
                &&& a.queue@.len() == 0 && b.queue@.len() == 0
                &&& a.max_queue_bytes == DEFAULT_QUEUE_BYTES && b.max_queue_bytes
                    == DEFAULT_QUEUE_BYTES
                &&& a.base.ref_count == 1 && b.base.ref_count == 1
            },
            final(ids).next == nth_id(old(ids).next, 2),
    {
        let id_a = ids.next_id();
        let id_b = ids.next_id();
        proof {
            crate::object::handle::lemma_nth_id_step(old(ids).next, 1);
        }
        let mut channel_a = Channel::new(id_a, DEFAULT_QUEUE_BYTES);
        let mut channel_b = Channel::new(id_b, DEFAULT_QUEUE_BYTES);
        channel_a.peer = Some(id_b);
        channel_b.peer = Some(id_a);
        Ok((channel_a, channel_b))
    }

    /// Get the channel id.
    pub fn id(&self) -> (r: ChannelId)
        ensures
            r == self.id,
    {
        self.id
    }

    /// Get the peer channel id.
    pub fn peer_id(&self) -> (r: Option<ChannelId>)
        ensures
            r == self.peer,
    {
        self.peer
    }

    /// Get the channel state.
    pub fn state(&self) -> (r: ChannelState)
        ensures
            r == self.state,
    {
        self.state
    }

    /// Write data and handles through this endpoint: the message is queued
    /// on `peer`, the other endpoint of the pair.  The handles are
    /// transferred under fresh ids.
    pub fn write(&self, peer: &mut Channel, data: &[u8], handles: &[Handle], ids: &mut IdAllocator) -> (r: Result<
        usize,
        &'static str,
    >)
        requires
            old(peer).wf(),
        ensures
            final(peer).wf(),
            self.state != ChannelState::Active ==> r == Err::<usize, &'static str>(
                "channel not active",
            ),
            self.state == ChannelState::Active && data@.len() > MAX_MSG_SIZE ==> r == Err::<
                usize,
                &'static str,
            >("message too large"),
            self.state == ChannelState::Active && data@.len() <= MAX_MSG_SIZE && handles@.len()
                > MAX_MSG_HANDLES ==> r == Err::<usize, &'static str>("too many handles"),
            self.state == ChannelState::Active && data@.len() <= MAX_MSG_SIZE && handles@.len()
                <= MAX_MSG_HANDLES && old(peer).queue_size + data@.len() > old(
                peer,
            ).max_queue_bytes ==> r == Err::<usize, &'static str>("channel full"),
            r is Err ==> *final(peer) == *old(peer) && final(ids).next == old(ids).next,
            r is Ok <==> (self.state == ChannelState::Active && data@.len() <= MAX_MSG_SIZE
                && handles@.len() <= MAX_MSG_HANDLES && old(peer).queue_size + data@.len() <= old(
                peer,
            ).max_queue_bytes),
            r matches Ok(n) ==> {
                &&& self.state == ChannelState::Active
                &&& data@.len() <= MAX_MSG_SIZE && handles@.len() <= MAX_MSG_HANDLES
                &&& old(peer).queue_size + data@.len() <= old(peer).max_queue_bytes
                &&& n == data@.len()
                &&& final(peer).queue@.len() == old(peer).queue@.len() + 1
                &&& final(peer).queue@.drop_last() == old(peer).queue@
                &&& final(peer).queue@.last().data@ == data@
                &&& reissued(handles@, final(peer).queue@.last().handles@, old(ids).next)
                &&& final(ids).next == nth_id(old(ids).next, handles@.len() as int)
                &&& final(peer).queue_size == old(peer).queue_size + data@.len()
                &&& final(peer).read_event
                &&& final(peer).id == old(peer).id && final(peer).peer == old(peer).peer
                &&& final(peer).state == old(peer).state && final(peer).base == old(peer).base
                &&& final(peer).max_queue_bytes == old(peer).max_queue_bytes
                &&& final(peer).write_event == old(peer).write_event
            },
    {
        if self.state != ChannelState::Active {
            return Err("channel not active");
        }
        if data.len() > MAX_MSG_SIZE {
            return Err("message too large");
        }
        if handles.len() > MAX_MSG_HANDLES {
            return Err("too many handles");
        }
        let msg_size = data.len();
        if msg_size > peer.max_queue_bytes - peer.queue_size {
            return Err("channel full");
        }
        let mut msg_data: Vec<u8> = Vec::new();
        let mut i: usize = 0;
        while i < data.len()
            invariant
                i <= data@.len(),
                msg_data@ == data@.take(i as int),
            decreases data@.len() - i,
        {
            msg_data.push(data[i]);
            proof {
                assert(data@.take(i as int + 1) =~= data@.take(i as int).push(data@[i as int]));
            }
            i = i + 1;
        }
        proof {
            assert(data@.take(data@.len() as int) =~= data@);
        }
        let msg_handles = reissue_all(handles, ids);
        let ghost q0 = peer.queue@;
        peer.queue.push(Message::new(msg_data, msg_handles));
        proof {
            assert(peer.queue@.drop_last() =~= q0);
        }
        peer.queue_size = peer.queue_size + msg_size;
        peer.read_event = true;
        Ok(msg_size)
    }

    /// Read the oldest message queued on this endpoint.
    ///
    /// Copies as many bytes as fit into `buf` and as many handles as fit into
    /// `handle_buf` (the handles under fresh ids).
    pub fn read(&mut self, buf: &mut [u8], handle_buf: &mut [Handle], ids: &mut IdAllocator) -> (r:
        Result<ReadResult, &'static str>)
        requires
            old(self).wf(),
        ensures
            final(self).wf(),
            old(self).queue@.len() == 0 && old(self).state == ChannelState::PeerClosed ==> r
                == Err::<ReadResult, &'static str>("peer closed"),
            old(self).queue@.len() == 0 && old(self).state != ChannelState::PeerClosed ==> r
                == Err::<ReadResult, &'static str>("no messages"),
            r is Err ==> *final(self) == *old(self) && final(buf)@ == old(buf)@ && final(handle_buf)@
                == old(handle_buf)@ && final(ids).next == old(ids).next,
            r is Ok <==> old(self).queue@.len() > 0,
            r matches Ok(res) ==> {
                let m = old(self).queue@[0];
                &&& res.bytes_read == vstd::math::min(old(buf)@.len() as int, m.data@.len() as int)
                &&& res.handles_read == vstd::math::min(
                    old(handle_buf)@.len() as int,
                    m.handles@.len() as int,
                )
                &&& final(buf)@.len() == old(buf)@.len()
                &&& final(buf)@.take(res.bytes_read as int) == m.data@.take(res.bytes_read as int)
                &&& final(buf)@.skip(res.bytes_read as int) == old(buf)@.skip(
                    res.bytes_read as int,
                )
                &&& final(handle_buf)@.len() == old(handle_buf)@.len()
                &&& reissued(
                    m.handles@.take(res.handles_read as int),
                    final(handle_buf)@.take(res.handles_read as int),
                    old(ids).next,
                )
                &&& final(handle_buf)@.skip(res.handles_read as int) == old(handle_buf)@.skip(
                    res.handles_read as int,
                )
                &&& final(ids).next == nth_id(old(ids).next, res.handles_read as int)
                &&& final(self).queue@ == old(self).queue@.drop_first()
                &&& final(self).queue_size == old(self).queue_size - m.data@.len()
                &&& final(self).write_event
                &&& final(self).id == old(self).id && final(self).peer == old(self).peer
                &&& final(self).state == old(self).state && final(self).base == old(self).base
                &&& final(self).max_queue_bytes == old(self).max_queue_bytes
                &&& final(self).read_event == old(self).read_event
            },
    {
        if self.queue.len() == 0 {
            if self.state == ChannelState::PeerClosed {
                return Err("peer closed");
            }
            return Err("no messages");
        }
        proof {
            lemma_total_bytes_front(self.queue@);
        }
        let ghost q0 = self.queue@;
        let msg = self.queue.remove(0);
        proof {
            assert(self.queue@ =~= q0.drop_first());
        }
        let msg_size = msg.data.len();
        self.queue_size = self.queue_size - msg_size;

        let bytes_to_copy = if buf.len() < msg.data.len() { buf.len() } else { msg.data.len() };
        let ghost b0 = buf@;
        let mut i: usize = 0;
        while i < bytes_to_copy
            invariant
                bytes_to_copy <= buf@.len(),
                bytes_to_copy <= msg.data@.len(),
                i <= bytes_to_copy,
                buf@.len() == b0.len(),
                forall|j: int| 0 <= j < i ==> buf@[j] == msg.data@[j],
                forall|j: int| i <= j < b0.len() ==> buf@[j] == b0[j],
            decreases bytes_to_copy - i,
        {
            buf[i] = msg.data[i];
            i = i + 1;
        }
        proof {
            assert(buf@.take(bytes_to_copy as int) =~= msg.data@.take(bytes_to_copy as int));
            assert(buf@.skip(bytes_to_copy as int) =~= b0.skip(bytes_to_copy as int));
        }

        let handles_to_copy = if handle_buf.len() < msg.handles.len() {
            handle_buf.len()
        } else {
            msg.handles.len()
        };
        let ghost h0 = handle_buf@;
        let ghost first = ids.next;
        let mut k: usize = 0;
        while k < handles_to_copy
            invariant
                handles_to_copy <= handle_buf@.len(),
                handles_to_copy <= msg.handles@.len(),
                k <= handles_to_copy,
                handle_buf@.len() == h0.len(),
                ids.next == nth_id(first, k as int),
                forall|j: int|
                    0 <= j < k ==> #[trigger] handle_buf@[j].base == msg.handles@[j].base
                        && handle_buf@[j].rights == msg.handles@[j].rights && handle_buf@[j].id
                        == nth_id(first, j),
                forall|j: int| k <= j < h0.len() ==> handle_buf@[j] == h0[j],
            decreases handles_to_copy - k,
        {
            let h = msg.handles[k].reissue(ids);
            handle_buf[k] = h;
            proof {
                crate::object::handle::lemma_nth_id_step(first, k as int);
            }
            k = k + 1;
        }
        proof {
            let n = handles_to_copy as int;
            assert(handle_buf@.skip(n) =~= h0.skip(n));
            assert forall|j: int| 0 <= j < n implies #[trigger] handle_buf@.take(n)[j].base
                == msg.handles@.take(n)[j].base && handle_buf@.take(n)[j].rights
                == msg.handles@.take(n)[j].rights && handle_buf@.take(n)[j].id == nth_id(
                first,
                j,
            ) by {
                assert(handle_buf@.take(n)[j] == handle_buf@[j]);
            }
        }
        self.write_event = true;
        Ok(ReadResult { bytes_read: bytes_to_copy, handles_read: handles_to_copy })
    }

    /// Number of messages waiting.
    pub fn queue_len(&self) -> (r: usize)
        ensures
            r == self.queue@.len(),
    {
        self.queue.len()
    }

    /// Bytes waiting in the queue.
    pub fn queue_size(&self) -> (r: usize)
        ensures
            r == self.queue_size,
    {
        self.queue_size
    }

    /// Close this endpoint; true when that released the last reference.
    pub fn close(&mut self) -> (last: bool)
        ensures
            final(self).state == ChannelState::Closed,
            final(self).read_event,
            last == (old(self).base.ref_count == 1),
            final(self).base.ref_count == count_after_dec(old(self).base.ref_count),
            final(self).queue@ == old(self).queue@,
            final(self).queue_size == old(self).queue_size,
            final(self).max_queue_bytes == old(self).max_queue_bytes,
            final(self).id == old(self).id && final(self).peer == old(self).peer,
    {
        self.state = ChannelState::Closed;
        self.read_event = true;
        self.base.ref_dec()
    }

    /// The kernel object base.
    pub fn base(&self) -> (r: &KernelObjectBase)
        ensures
            *r == self.base,
    {
        &self.base
    }

    /// Reference count.
    pub fn ref_count(&self) -> (r: usize)
        ensures
            r == self.base.ref_count,
    {
        self.base.ref_count()
    }

    /// Increment the reference count.
    pub fn ref_inc(&mut self)
        ensures
            final(self).base.ref_count == count_after_inc(old(self).base.ref_count),
            final(self).queue@ == old(self).queue@ && final(self).queue_size == old(self).queue_size
                && final(self).max_queue_bytes == old(self).max_queue_bytes,
    {
        self.base.ref_inc();
    }

    /// Decrement the reference count; true when this was the last reference.
    pub fn ref_dec(&mut self) -> (last: bool)
        ensures
            last == (old(self).base.ref_count == 1),
            final(self).base.ref_count == count_after_dec(old(self).base.ref_count),
            final(self).queue@ == old(self).queue@ && final(self).queue_size == old(self).queue_size
                && final(self).max_queue_bytes == old(self).max_queue_bytes,
    {
        self.base.ref_dec()
    }
}

/// Law (FIFO), over the queue that `write` appends to and `read` takes
/// from the front of: a message written behind a queue `q` comes out after
/// every message of `q`, in their order; a read after the write takes the
/// same message it would have taken before it (or the written one, when
/// the queue was empty); and messages written one after another behind `q`
/// are read back, once `q` is drained, in the order written.
pub proof fn lemma_write_then_read_fifo(q: Seq<Message>, m: Message, ms: Seq<Message>)
    ensures
        q.push(m)[q.len() as int] == m,
        q.len() == 0 ==> q.push(m)[0] == m && q.push(m).drop_first().len() == 0,
        q.len() > 0 ==> q.push(m)[0] == q[0] && q.push(m).drop_first() == q.drop_first().push(m),
        (q + ms).skip(q.len() as int) == ms,
{
    if q.len() > 0 {
        assert(q.push(m).drop_first() =~= q.drop_first().push(m));
    }
    assert((q + ms).skip(q.len() as int) =~= ms);
}

} // verus!
