//! One client connection of the upload server, as a state machine: each
//! step takes what the last action brought about and gives the next action.
//! The server performs the actions (hooks, the buffer pool, the socket) and
//! feeds back what happened.

use vstd::prelude::*;
use vstd::utf8::{valid_utf8, decode_utf8, encode_utf8};
use crate::tcp::message::{Message, MessageType};
use crate::tcp::transfer::{resume_ack, ChunkEvent, Transfer};
use crate::text::decimal;

verus! {

/// A reply the server sends.
pub enum Reply {
    /// The upload may begin; the data is the object's identifier.
    Stream(String),
    /// The resumed upload may go on; the data is how many bytes the server holds.
    Progress(u64),
    /// No transfer buffer became free in time.
    NoBuffer,
    /// The request was carried out.
    Success,
}

/// The message that sends a reply.
pub fn reply_message(r: &Reply) -> (m: Message)
    ensures
        r matches Reply::Stream(uuid) ==> m.message_type == MessageType::Stream && m.data@ == encode_utf8(uuid@),
        r matches Reply::Progress(n) ==> m.message_type == MessageType::Stream && m.data@ == encode_utf8(
            decimal(n as nat),
        ),
        r is NoBuffer ==> m.message_type == MessageType::Error && m.data@ == encode_utf8(
            "not enough PooledBuffer"@,
        ),
        r is Success ==> m.message_type == MessageType::Success && m.data@ == Seq::<u8>::empty(),
{
    match r {
        Reply::Stream(uuid) => Message::stream(uuid.as_str()),
        Reply::Progress(n) => resume_ack(*n),
        Reply::NoBuffer => Message::error("not enough PooledBuffer"),
        Reply::Success => Message::success(),
    }
}

/// Where a connection stands.
pub enum Session {
    /// Waiting for the client's request.
    Opening,
    /// The hook for a new object was called.
    Creating,
    /// The hook for a resumed object was called, for `uuid`.
    Resuming { uuid: String },
    /// The hook for a given-up object was called.
    Closing,
    /// A first transfer buffer was asked for; `ack` goes out once it is there.
    FirstBuffer { uuid: String, transfer: Transfer, ack: Reply },
    /// The go-ahead was sent; the buffer holds `buf_len` bytes.
    Announcing { uuid: String, transfer: Transfer, buf_len: usize },
    /// `len` bytes are being read into the buffer, at the transfer's fill.
    Reading { uuid: String, transfer: Transfer, buf_len: usize, len: usize },
    /// A chunk is being handed on; `last` when it completes the object.
    Delivering { uuid: String, transfer: Transfer, last: bool },
    /// A fresh buffer was asked for, after a full chunk.
    NextBuffer { uuid: String, transfer: Transfer },
    /// The completion hook was called.
    Completing,
    /// The reply that no buffer is free was sent.
    Refusing,
    /// The success reply was sent.
    Succeeding,
    /// Nothing more happens on the connection.
    Done,
}

/// What the server reports back.
pub enum Event {
    /// The client's request arrived.
    Request(Message),
    /// The hook registered a new object.
    Created { uuid: String, total_size: u64 },
    /// The hook found how far a resumed object got.
    Resumed { chunk_index: u64, bytes_received: u64, total_size: u64 },
    /// A buffer of `len` bytes was taken from the pool.
    BufferReady { len: usize },
    /// No buffer became free in time.
    NoBuffer,
    /// A reply went out.
    Sent,
    /// The bytes asked for were read into the buffer.
    DataRead,
    /// The hook that was called returned.
    HookDone,
}

/// What the server does next.
pub enum Action {
    /// Call the new-object hook with the request's description.
    CallOnNew(Vec<u8>),
    /// Call the resume hook for the object.
    CallOnResume(String),
    /// Call the give-up hook for the object.
    CallOnClose(String),
    /// Call the completion hook for the object.
    CallOnComplete(String),
    /// Take a buffer from the pool.
    AcquireBuffer,
    /// Send a reply.
    Send(Reply),
    /// Read `len` bytes from the client into the buffer at `start`.
    Read { start: usize, len: usize },
    /// Hand on the first `filled` bytes of the buffer as chunk `chunk_index`
    /// of the object.
    Deliver { uuid: String, chunk_index: u64, filled: usize },
    /// End the connection normally.
    Finish,
    /// End the connection with this error.
    Fail(String),
}

/// The connection ends with the error that an event came out of turn.
pub open spec fn out_of_turn(s2: Session, a: Action) -> bool {
    s2 is Done && (a matches Action::Fail(m) && m@ == "unexpected event"@)
}

/// The transfer after `n` more bytes arrived into a buffer of `buf_len`
/// bytes, and the chunk event that makes.
pub open spec fn recorded(t: Transfer, n: nat, buf_len: nat) -> (Transfer, ChunkEvent) {
    if t.bytes_received + n == t.total_size {
        (
            Transfer {
                total_size: t.total_size,
                bytes_received: (t.bytes_received + n) as u64,
                filled: (t.filled + n) as usize,
                chunk_index: t.chunk_index,
            },
            ChunkEvent::Last { chunk_index: t.chunk_index, filled: (t.filled + n) as usize },
        )
    } else {
        (
            Transfer {
                total_size: t.total_size,
                bytes_received: (t.bytes_received + n) as u64,
                filled: 0,
                chunk_index: (t.chunk_index + 1) as u64,
            },
            ChunkEvent::Full { chunk_index: t.chunk_index, filled: buf_len as usize },
        )
    }
}

/// Whether a read of `len` bytes is the one the transfer asks for.
pub open spec fn read_in_step(t: Transfer, buf_len: usize, len: usize) -> bool {
    &&& t.bytes_received < t.total_size
    &&& t.filled < buf_len
    &&& len == t.spec_read_len(buf_len as nat)
    &&& t.chunk_index < u64::MAX
}

/// With a buffer of `buf_len` bytes: complete the object when every byte is
/// there, else read what the transfer asks for next, unless the buffer or
/// the chunk numbers are used up.
pub open spec fn advanced(uuid: Seq<char>, t: Transfer, buf_len: usize, s2: Session, a: Action) -> bool {
    if t.bytes_received >= t.total_size {
        s2 is Completing && (a matches Action::CallOnComplete(u) && u@ == uuid)
    } else if t.filled >= buf_len || t.chunk_index == u64::MAX {
        s2 is Done && (a matches Action::Fail(m) && m@ == "transfer buffer exhausted"@)
    } else {
        &&& s2 matches Session::Reading { uuid: u, transfer: t2, buf_len: b, len } && u@ == uuid && t2 == t
            && b == buf_len && len == t.spec_read_len(buf_len as nat)
        &&& a matches Action::Read { start, len } && start == t.filled && len == t.spec_read_len(
            buf_len as nat,
        )
    }
}

/// The text of a request's data, when it is valid UTF-8.
pub open spec fn request_text(m: Message) -> Seq<char> {
    decode_utf8(m.data@)
}

/// One step of a connection: the state it comes to and the action it takes.
pub open spec fn step_spec(s: Session, e: Event, s2: Session, a: Action) -> bool {
    match s {
        Session::Opening => match e {
            Event::Request(m) => if m.message_type == MessageType::New {
                s2 is Creating && (a matches Action::CallOnNew(d) && d@ == m.data@)
            } else if m.message_type == MessageType::Resume || m.message_type == MessageType::Close {
                if !valid_utf8(m.data@) {
                    s2 is Done && a is Fail
                } else if m.message_type == MessageType::Resume {
                    &&& s2 matches Session::Resuming { uuid } && uuid@ == request_text(m)
                    &&& a matches Action::CallOnResume(u) && u@ == request_text(m)
                } else {
                    s2 is Closing && (a matches Action::CallOnClose(u) && u@ == request_text(m))
                }
            } else {
                s2 is Done && a is Finish
            },
            _ => out_of_turn(s2, a),
        },
        Session::Creating => match e {
            Event::Created { uuid, total_size } => {
                &&& s2 matches Session::FirstBuffer { uuid: u, transfer, ack } && u@ == uuid@ && transfer
                    == (Transfer { total_size, bytes_received: 0, filled: 0, chunk_index: 0 }) && (
                ack matches Reply::Stream(x) && x@ == uuid@)
                &&& a is AcquireBuffer
            },
            _ => out_of_turn(s2, a),
        },
        Session::Resuming { uuid } => match e {
            Event::Resumed { chunk_index, bytes_received, total_size } => {
                &&& s2 matches Session::FirstBuffer { uuid: u, transfer, ack } && u@ == uuid@ && transfer
                    == (Transfer { total_size, bytes_received, filled: 0, chunk_index }) && ack
                    == Reply::Progress(bytes_received)
                &&& a is AcquireBuffer
            },
            _ => out_of_turn(s2, a),
        },
        Session::Closing => match e {
            Event::HookDone => s2 is Succeeding && (a matches Action::Send(r) && r is Success),
            _ => out_of_turn(s2, a),
        },
        Session::FirstBuffer { uuid, transfer, ack } => match e {
            Event::BufferReady { len } => {
                &&& s2 matches Session::Announcing { uuid: u, transfer: t, buf_len } && u@ == uuid@ && t
                    == transfer && buf_len == len
                &&& a == Action::Send(ack)
            },
            Event::NoBuffer => s2 is Refusing && (a matches Action::Send(r) && r is NoBuffer),
            _ => out_of_turn(s2, a),
        },
        Session::Announcing { uuid, transfer, buf_len } => match e {
            Event::Sent => advanced(uuid@, transfer, buf_len, s2, a),
            _ => out_of_turn(s2, a),
        },
        Session::Reading { uuid, transfer, buf_len, len } => match e {
            Event::DataRead => if read_in_step(transfer, buf_len, len) {
                let (t2, ev) = recorded(transfer, len as nat, buf_len as nat);
                &&& s2 matches Session::Delivering { uuid: u, transfer: t, last } && u@ == uuid@ && t == t2
                    && last == (ev is Last)
                &&& a matches Action::Deliver { uuid: u, chunk_index, filled } && u@ == uuid@ && match ev {
                    ChunkEvent::Last { chunk_index: c, filled: f } => chunk_index == c && filled == f,
                    ChunkEvent::Full { chunk_index: c, filled: f } => chunk_index == c && filled == f,
                }
            } else {
                s2 is Done && (a matches Action::Fail(m) && m@ == "transfer out of step"@)
            },
            _ => out_of_turn(s2, a),
        },
        Session::Delivering { uuid, transfer, last } => match e {
            Event::HookDone => if last {
                s2 is Completing && (a matches Action::CallOnComplete(u) && u@ == uuid@)
            } else {
                &&& s2 matches Session::NextBuffer { uuid: u, transfer: t } && u@ == uuid@ && t == transfer
                &&& a is AcquireBuffer
            },
            _ => out_of_turn(s2, a),
        },
        Session::NextBuffer { uuid, transfer } => match e {
            Event::BufferReady { len } => advanced(uuid@, transfer, len, s2, a),
            Event::NoBuffer => s2 is Refusing && (a matches Action::Send(r) && r is NoBuffer),
            _ => out_of_turn(s2, a),
        },
        Session::Completing => match e {
            Event::HookDone => s2 is Succeeding && (a matches Action::Send(r) && r is Success),
            _ => out_of_turn(s2, a),
        },
        Session::Refusing => match e {
            Event::Sent => s2 is Done && a is Finish,
            _ => out_of_turn(s2, a),
        },
        Session::Succeeding => match e {
            Event::Sent => s2 is Done && a is Finish,
            _ => out_of_turn(s2, a),
        },
        Session::Done => out_of_turn(s2, a),
    }
}

fn out_of_turn_step() -> (r: (Session, Action))
    ensures
        out_of_turn(r.0, r.1),
{
    (Session::Done, Action::Fail(String::from_str("unexpected event")))
}

fn advance(uuid: String, transfer: Transfer, buf_len: usize) -> (r: (Session, Action))
    ensures
        advanced(uuid@, transfer, buf_len, r.0, r.1),
{
    if transfer.is_complete() {
        (Session::Completing, Action::CallOnComplete(uuid))
    } else if transfer.filled >= buf_len || transfer.chunk_index == u64::MAX {
        (Session::Done, Action::Fail(String::from_str("transfer buffer exhausted")))
    } else {
        let len = transfer.read_len(buf_len);
        let start = transfer.filled;
        (Session::Reading { uuid, transfer, buf_len, len }, Action::Read { start, len })
    }
}

/// Takes one step of a connection.
pub fn step(s: Session, e: Event) -> (r: (Session, Action))
    ensures
        step_spec(s, e, r.0, r.1),
{
    match s {
        Session::Opening => match e {
            Event::Request(m) => {
                if m.message_type == MessageType::New {
                    return (Session::Creating, Action::CallOnNew(m.data));
                }
                if m.message_type != MessageType::Resume && m.message_type != MessageType::Close {
                    return (Session::Done, Action::Finish);
                }
                let text = match m.get_string() {
                    Ok(t) => t,
                    Err(err) => {
                        return (Session::Done, Action::Fail(err));
                    },
                };
                if m.message_type == MessageType::Resume {
                    let uuid = text.clone();
                    (Session::Resuming { uuid }, Action::CallOnResume(text))
                } else {
                    (Session::Closing, Action::CallOnClose(text))
                }
            },
            _ => out_of_turn_step(),
        },
        Session::Creating => match e {
            Event::Created { uuid, total_size } => {
                let ack = Reply::Stream(uuid.clone());
                (Session::FirstBuffer { uuid, transfer: Transfer::start(total_size), ack }, Action::AcquireBuffer)
            },
            _ => out_of_turn_step(),
        },
        Session::Resuming { uuid } => match e {
            Event::Resumed { chunk_index, bytes_received, total_size } => {
                let transfer = Transfer::resume(chunk_index, bytes_received, total_size);
                (Session::FirstBuffer { uuid, transfer, ack: Reply::Progress(bytes_received) }, Action::AcquireBuffer)
            },
            _ => out_of_turn_step(),
        },
        Session::Closing => match e {
            Event::HookDone => (Session::Succeeding, Action::Send(Reply::Success)),
            _ => out_of_turn_step(),
        },
        Session::FirstBuffer { uuid, transfer, ack } => match e {
            Event::BufferReady { len } => (Session::Announcing { uuid, transfer, buf_len: len }, Action::Send(ack)),
            Event::NoBuffer => (Session::Refusing, Action::Send(Reply::NoBuffer)),
            _ => out_of_turn_step(),
        },
        Session::Announcing { uuid, transfer, buf_len } => match e {
            Event::Sent => advance(uuid, transfer, buf_len),
            _ => out_of_turn_step(),
        },
        Session::Reading { uuid, transfer, buf_len, len } => match e {
            Event::DataRead => {
                if transfer.is_complete() || transfer.filled >= buf_len || transfer.chunk_index == u64::MAX {
                    return (Session::Done, Action::Fail(String::from_str("transfer out of step")));
                }
                if len != transfer.read_len(buf_len) {
                    return (Session::Done, Action::Fail(String::from_str("transfer out of step")));
                }
                let mut t = transfer;
                let ev = t.record(len, buf_len);
                let object = uuid.clone();
                match ev {
                    ChunkEvent::Last { chunk_index, filled } => (
                        Session::Delivering { uuid, transfer: t, last: true },
                        Action::Deliver { uuid: object, chunk_index, filled },
                    ),
                    ChunkEvent::Full { chunk_index, filled } => (
                        Session::Delivering { uuid, transfer: t, last: false },
                        Action::Deliver { uuid: object, chunk_index, filled },
                    ),
                }
            },
            _ => out_of_turn_step(),
        },
        Session::Delivering { uuid, transfer, last } => match e {
            Event::HookDone => {
                if last {
                    (Session::Completing, Action::CallOnComplete(uuid))
                } else {
                    (Session::NextBuffer { uuid, transfer }, Action::AcquireBuffer)
                }
            },
            _ => out_of_turn_step(),
        },
        Session::NextBuffer { uuid, transfer } => match e {
            Event::BufferReady { len } => advance(uuid, transfer, len),
            Event::NoBuffer => (Session::Refusing, Action::Send(Reply::NoBuffer)),
            _ => out_of_turn_step(),
        },
        Session::Completing => match e {
            Event::HookDone => (Session::Succeeding, Action::Send(Reply::Success)),
            _ => out_of_turn_step(),
        },
        Session::Refusing => match e {
            Event::Sent => (Session::Done, Action::Finish),
            _ => out_of_turn_step(),
        },
        Session::Succeeding => match e {
            Event::Sent => (Session::Done, Action::Finish),
            _ => out_of_turn_step(),
        },
        Session::Done => out_of_turn_step(),
    }
}

/// The go-ahead for an upload, new or resumed, is sent only once a buffer
/// for its bytes is held: it answers the first buffer taken from the pool.
pub proof fn lemma_go_ahead_only_with_buffer(s: Session, e: Event, s2: Session, a: Action)
    requires
        step_spec(s, e, s2, a),
        a matches Action::Send(r) && (r is Stream || r is Progress),
    ensures
        s is FirstBuffer,
        e is BufferReady,
{
}

/// A resumed upload carries on from where the resume hook says the object
/// stands: the first read goes into the start of the buffer and takes what
/// is missing, at most a buffer, and the first chunk handed on is numbered
/// with the hook's chunk index and holds what was read.
pub proof fn lemma_resume_continues_numbering(
    uuid: String,
    chunk_index: u64,
    bytes_received: u64,
    total_size: u64,
    len: usize,
    s1: Session,
    a1: Action,
    s2: Session,
    a2: Action,
    s3: Session,
    a3: Action,
    s4: Session,
    a4: Action,
)
    requires
        bytes_received < total_size,
        len > 0,
        chunk_index < u64::MAX,
        step_spec(Session::Resuming { uuid }, Event::Resumed { chunk_index, bytes_received, total_size }, s1, a1),
        step_spec(s1, Event::BufferReady { len }, s2, a2),
        step_spec(s2, Event::Sent, s3, a3),
        step_spec(s3, Event::DataRead, s4, a4),
    ensures
        a2 matches Action::Send(r) && r == Reply::Progress(bytes_received),
        a3 matches Action::Read { start, len: n } && start == 0 && n == (if total_size - bytes_received < len {
            total_size - bytes_received
        } else {
            len as int
        }),
        a4 matches Action::Deliver { uuid: u, chunk_index: c, filled } && u@ == uuid@ && c == chunk_index
            && filled == a3->Read_len,
{
}

/// A new upload numbers its chunks from zero: the first chunk handed on is
/// chunk 0 and holds what the first read brought.
pub proof fn lemma_upload_starts_numbering_at_zero(
    uuid: String,
    total_size: u64,
    len: usize,
    s1: Session,
    a1: Action,
    s2: Session,
    a2: Action,
    s3: Session,
    a3: Action,
    s4: Session,
    a4: Action,
)
    requires
        total_size > 0,
        len > 0,
        step_spec(Session::Creating, Event::Created { uuid, total_size }, s1, a1),
        step_spec(s1, Event::BufferReady { len }, s2, a2),
        step_spec(s2, Event::Sent, s3, a3),
        step_spec(s3, Event::DataRead, s4, a4),
    ensures
        a2 matches Action::Send(r) && r matches Reply::Stream(u) && u@ == uuid@,
        a3 matches Action::Read { start, len: n } && start == 0 && n == (if total_size < len {
            total_size as int
        } else {
            len as int
        }),
        a4 matches Action::Deliver { uuid: u, chunk_index: c, filled } && u@ == uuid@ && c == 0
            && filled == a3->Read_len,
{
}

/// Chunks of one object are numbered one after another: after a full chunk
/// is handed on, the next chunk read into a fresh buffer gets the next
/// number.
pub proof fn lemma_chunks_numbered_in_turn(
    s0: Session,
    s1: Session,
    a1: Action,
    len: usize,
    s2: Session,
    a2: Action,
    s3: Session,
    a3: Action,
    s4: Session,
    a4: Action,
)
    requires
        s0 is Reading,
        step_spec(s0, Event::DataRead, s1, a1),
        s1 matches Session::Delivering { last, .. } && !last,
        step_spec(s1, Event::HookDone, s2, a2),
        step_spec(s2, Event::BufferReady { len }, s3, a3),
        len > 0,
        a3 is Read,
        step_spec(s3, Event::DataRead, s4, a4),
    ensures
        a1 matches Action::Deliver { chunk_index: c1, .. } && a4 matches Action::Deliver { chunk_index: c2, .. }
            && c2 == c1 + 1,
        a3 matches Action::Read { start, .. } && start == 0,
{
}

/// A connection that finds no buffer free sends the error reply and then
/// ends without a success reply.
pub proof fn lemma_no_buffer_ends_with_error(s: Session, s2: Session, a: Action, s3: Session, a2: Action)
    requires
        s is FirstBuffer || s is NextBuffer,
        step_spec(s, Event::NoBuffer, s2, a),
        step_spec(s2, Event::Sent, s3, a2),
    ensures
        a matches Action::Send(r) && r is NoBuffer,
        s3 is Done,
        a2 is Finish,
{
}

} // verus!
