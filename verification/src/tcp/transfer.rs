//! The server side of an upload: which requests start a transfer, and how
//! the received bytes are cut into buffer-sized chunks.

use vstd::prelude::*;
use crate::layout::{ceil_div, lemma_ceil_div};
use crate::tcp::message::{Message, MessageType};
use crate::text::{decimal, u64_to_decimal};
use vstd::string::StringSliceAdditionalSpecFns;
use vstd::utf8::encode_utf8;

verus! {

/// What the server does with a received request.
#[derive(Debug, Clone, Copy, PartialEq, Eq, Structural)]
pub enum Request {
    /// A new object: receive its bytes.
    Upload,
    /// An interrupted object: receive the rest of its bytes.
    Resume,
    /// The client gave the object up.
    Close,
    /// Any other message is left unanswered.
    Ignore,
}

/// The request a message type stands for.
pub fn classify(t: MessageType) -> (r: Request)
    ensures
        t == MessageType::New ==> r == Request::Upload,
        t == MessageType::Resume ==> r == Request::Resume,
        t == MessageType::Close ==> r == Request::Close,
        !t.is_request() ==> r == Request::Ignore,
{
    match t {
        MessageType::New => Request::Upload,
        MessageType::Resume => Request::Resume,
        MessageType::Close => Request::Close,
        _ => Request::Ignore,
    }
}

/// Objects below one billion bytes go to the fast queue.
pub fn prefers_fast_queue(total_size: u64) -> (b: bool)
    ensures
        b == (total_size < 1_000_000_000),
{
    total_size < 1_000_000_000
}

/// The reply that tells a resuming client how many bytes the server holds.
pub fn resume_ack(bytes_received: u64) -> (m: Message)
    ensures
        m.message_type == MessageType::Stream,
        m.data@ == encode_utf8(decimal(bytes_received as nat)),
{
    let text = u64_to_decimal(bytes_received);
    Message::stream(text.as_str())
}

/// The number of transfer buffers the server allocates: one per client and
/// per queued chunk, and twenty to spare.
pub fn pool_size(max_concurrent_clients: u64, queue_size: u64) -> (n: u64)
    requires
        max_concurrent_clients + queue_size + 20 <= u64::MAX,
    ensures
        n == max_concurrent_clients + queue_size + 20,
{
    max_concurrent_clients + queue_size + 20
}

/// What receiving a run of bytes completed.
#[derive(Debug, Clone, Copy, PartialEq, Eq, Structural)]
pub enum ChunkEvent {
    /// The buffer is full: hand it on as this chunk and take a fresh one.
    Full { chunk_index: u64, filled: usize },
    /// The object is complete; this last chunk holds `filled` bytes.
    Last { chunk_index: u64, filled: usize },
}

/// The progress of one object's transfer.
pub struct Transfer {
    pub total_size: u64,
    pub bytes_received: u64,
    pub filled: usize,
    pub chunk_index: u64,
}

impl Transfer {
    /// A new object: nothing received, first chunk.
    pub fn start(total_size: u64) -> (t: Self)
        ensures
            t.total_size == total_size,
            t.bytes_received == 0,
            t.filled == 0,
            t.chunk_index == 0,
    {
        Transfer { total_size, bytes_received: 0, filled: 0, chunk_index: 0 }
    }

    /// A resumed object, from what the server already holds.
    pub fn resume(chunk_index: u64, bytes_received: u64, total_size: u64) -> (t: Self)
        ensures
            t.total_size == total_size,
            t.bytes_received == bytes_received,
            t.filled == 0,
            t.chunk_index == chunk_index,
    {
        Transfer { total_size, bytes_received, filled: 0, chunk_index }
    }

    /// Whether every byte has arrived.
    pub fn is_complete(&self) -> (b: bool)
        ensures
            b == (self.bytes_received >= self.total_size),
    {
        self.bytes_received >= self.total_size
    }

    pub open spec fn spec_read_len(&self, buf_len: nat) -> nat {
        let remaining = (self.total_size - self.bytes_received) as nat;
        let room = (buf_len - self.filled) as nat;
        if remaining < room { remaining } else { room }
    }

    /// How many bytes to read next: what is missing, at most what the
    /// buffer has room for.
    pub fn read_len(&self, buf_len: usize) -> (n: usize)
        requires
            self.bytes_received < self.total_size,
            self.filled < buf_len,
        ensures
            n == self.spec_read_len(buf_len as nat),
            n > 0,
    {
        let remaining = self.total_size - self.bytes_received;
        let room = buf_len - self.filled;
        if remaining < room as u64 {
            remaining as usize
        } else {
            room
        }
    }

    /// Records that `n` bytes arrived into the buffer, as `read_len` asked.
    pub fn record(&mut self, n: usize, buf_len: usize) -> (e: ChunkEvent)
        requires
            old(self).bytes_received < old(self).total_size,
            old(self).filled < buf_len,
            n == old(self).spec_read_len(buf_len as nat),
            old(self).chunk_index < u64::MAX,
        ensures
            final(self).total_size == old(self).total_size,
            final(self).bytes_received == old(self).bytes_received + n,
            final(self).bytes_received <= final(self).total_size,
            final(self).bytes_received == final(self).total_size ==> e == (ChunkEvent::Last {
                chunk_index: old(self).chunk_index,
                filled: (old(self).filled + n) as usize,
            }) && final(self).filled == old(self).filled + n && final(self).chunk_index
                == old(self).chunk_index,
            final(self).bytes_received < final(self).total_size ==> e == (ChunkEvent::Full {
                chunk_index: old(self).chunk_index,
                filled: buf_len,
            }) && final(self).filled == 0 && final(self).chunk_index == old(self).chunk_index + 1,
    {
        self.filled = self.filled + n;
        self.bytes_received = self.bytes_received + n as u64;
        if self.bytes_received == self.total_size {
            ChunkEvent::Last { chunk_index: self.chunk_index, filled: self.filled }
        } else {
            let e = ChunkEvent::Full { chunk_index: self.chunk_index, filled: self.filled };
            self.chunk_index = self.chunk_index + 1;
            self.filled = 0;
            e
        }
    }
}

/// The fill of each chunk an object of `remaining` bytes is cut into, with
/// buffers of `buf_len` bytes.
pub open spec fn chunk_fills(remaining: nat, buf_len: nat) -> Seq<nat>
    decreases remaining,
{
    if remaining == 0 || buf_len == 0 {
        Seq::empty()
    } else if remaining <= buf_len {
        seq![remaining]
    } else {
        seq![buf_len] + chunk_fills((remaining - buf_len) as nat, buf_len)
    }
}

pub open spec fn total(s: Seq<nat>) -> nat
    decreases s.len(),
{
    if s.len() == 0 { 0 } else { s[0] + total(s.drop_first()) }
}

/// An object is cut into as many chunks as the buffer size goes into its
/// size, rounded up; every chunk but the last is a full buffer, the last is
/// not empty, and the chunks hold the whole object.
pub proof fn lemma_chunk_fills(remaining: nat, buf_len: nat)
    requires
        buf_len > 0,
    ensures
        chunk_fills(remaining, buf_len).len() == ceil_div(remaining, buf_len),
        total(chunk_fills(remaining, buf_len)) == remaining,
        forall|i: int| 0 <= i < chunk_fills(remaining, buf_len).len() - 1
            ==> #[trigger] chunk_fills(remaining, buf_len)[i] == buf_len,
        remaining > 0 ==> 0 < chunk_fills(remaining, buf_len).last() <= buf_len,
    decreases remaining,
{
    let s = chunk_fills(remaining, buf_len);
    lemma_ceil_div(remaining, buf_len);
    if remaining == 0 {
    } else if remaining <= buf_len {
        assert(s.drop_first() =~= Seq::<nat>::empty());
        assert(total(Seq::<nat>::empty()) == 0);
        assert(ceil_div(remaining, buf_len) == 1) by (nonlinear_arith)
            requires
                0 < remaining <= buf_len,
                ceil_div(remaining, buf_len) * buf_len >= remaining,
                ceil_div(remaining, buf_len) * buf_len < remaining + buf_len,
        ;
    } else {
        let rest = (remaining - buf_len) as nat;
        lemma_chunk_fills(rest, buf_len);
        lemma_ceil_div(rest, buf_len);
        assert(s.drop_first() =~= chunk_fills(rest, buf_len));
        assert(ceil_div(remaining, buf_len) == ceil_div(rest, buf_len) + 1) by (nonlinear_arith)
            requires
                remaining == rest + buf_len,
                rest > 0,
                buf_len > 0,
                ceil_div(remaining, buf_len) * buf_len >= remaining,
                ceil_div(remaining, buf_len) * buf_len < remaining + buf_len,
                ceil_div(rest, buf_len) * buf_len >= rest,
                ceil_div(rest, buf_len) * buf_len < rest + buf_len,
        ;
        assert forall|i: int| 0 <= i < s.len() - 1 implies #[trigger] s[i] == buf_len by {
            if i > 0 {
                assert(s[i] == chunk_fills(rest, buf_len)[i - 1]);
            }
        }
    }
}

/// Each step of a transfer that starts with an empty buffer reads the next
/// chunk of the cut of what is missing, and what is missing afterwards is
/// cut into the remaining chunks.
pub proof fn lemma_step_follows_cut(t: Transfer, buf_len: nat)
    requires
        buf_len > 0,
        t.filled == 0,
        t.bytes_received < t.total_size,
    ensures
        chunk_fills((t.total_size - t.bytes_received) as nat, buf_len)[0] == t.spec_read_len(buf_len),
        chunk_fills((t.total_size - t.bytes_received) as nat, buf_len).drop_first() == chunk_fills(
            (t.total_size - t.bytes_received - t.spec_read_len(buf_len)) as nat,
            buf_len,
        ),
{
    let remaining = (t.total_size - t.bytes_received) as nat;
    if remaining > buf_len {
        assert(chunk_fills(remaining, buf_len).drop_first() =~= chunk_fills(
            (remaining - buf_len) as nat,
            buf_len,
        ));
    } else {
        assert(chunk_fills(remaining, buf_len).drop_first() =~= Seq::<nat>::empty());
    }
}

} // verus!
