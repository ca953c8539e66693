//! Protocol messages and their framing: one type byte, the data length as a
//! big-endian 32-bit number, then the data.

use vstd::prelude::*;
use vstd::slice::slice_to_vec;
use vstd::string::StringSliceAdditionalSpecFns;
use vstd::utf8::{valid_utf8, decode_utf8};
use crate::text::{decimal, hex, u64_to_decimal, u64_to_hex};

verus! {

/// The kinds of message. `Close`, `New` and `Resume` are sent by clients;
/// the others are sent by the server.
#[derive(Debug, Clone, Copy, PartialEq, Eq, Structural)]
pub enum MessageType {
    Close,
    New,
    Resume,
    Success,
    Info,
    Error,
    Stream,
}

impl MessageType {
    /// The byte a message type is sent as.
    pub open spec fn spec_code(self) -> u8 {
        match self {
            MessageType::Close => 0x00,
            MessageType::New => 0x01,
            MessageType::Resume => 0x02,
            MessageType::Success => 0x14,
            MessageType::Info => 0x15,
            MessageType::Error => 0x16,
            MessageType::Stream => 0x17,
        }
    }

    pub fn code(&self) -> (b: u8)
        ensures
            b == self.spec_code(),
    {
        match self {
            MessageType::Close => 0x00,
            MessageType::New => 0x01,
            MessageType::Resume => 0x02,
            MessageType::Success => 0x14,
            MessageType::Info => 0x15,
            MessageType::Error => 0x16,
            MessageType::Stream => 0x17,
        }
    }

    /// Whether the server accepts this type from a client.
    pub open spec fn is_request(self) -> bool {
        self is Close || self is New || self is Resume
    }

    /// The type of a received message. Only the client request types are
    /// accepted; any other byte is refused with a message that shows it in
    /// hexadecimal.
    pub fn try_from(value: u8) -> (r: Result<MessageType, String>)
        ensures
            value == 0 ==> r == Ok::<MessageType, String>(MessageType::Close),
            value == 1 ==> r == Ok::<MessageType, String>(MessageType::New),
            value == 2 ==> r == Ok::<MessageType, String>(MessageType::Resume),
            value > 2 ==> (r matches Err(m) && m@ == "Unknown message type: 0x"@ + hex(value as nat)),
    {
        match value {
            0x00 => Ok(MessageType::Close),
            0x01 => Ok(MessageType::New),
            0x02 => Ok(MessageType::Resume),
            other => {
                let mut m = String::from_str("Unknown message type: 0x");
                let h = u64_to_hex(other as u64);
                m.append(h.as_str());
                Err(m)
            },
        }
    }
}

/// A protocol message.
pub struct Message {
    pub message_type: MessageType,
    pub data: Vec<u8>,
}

/// The four bytes of `n`, most significant first.
pub open spec fn be32(n: u32) -> Seq<u8> {
    seq![((n >> 24) & 0xff) as u8, ((n >> 16) & 0xff) as u8, ((n >> 8) & 0xff) as u8, (n & 0xff) as u8]
}

/// The number four bytes stand for, most significant first.
pub open spec fn from_be32(b: Seq<u8>) -> u32 {
    ((b[0] as u32) << 24) | ((b[1] as u32) << 16) | ((b[2] as u32) << 8) | (b[3] as u32)
}

/// Reading back the four bytes of a number gives the number.
pub proof fn lemma_be32_roundtrip(n: u32)
    ensures
        from_be32(be32(n)) == n,
        be32(n).len() == 4,
{
    let b0 = ((n >> 24) & 0xff) as u8;
    let b1 = ((n >> 16) & 0xff) as u8;
    let b2 = ((n >> 8) & 0xff) as u8;
    let b3 = (n & 0xff) as u8;
    assert(((b0 as u32) << 24) | ((b1 as u32) << 16) | ((b2 as u32) << 8) | (b3 as u32) == n) by (bit_vector)
        requires
            b0 == ((n >> 24) & 0xff) as u8,
            b1 == ((n >> 16) & 0xff) as u8,
            b2 == ((n >> 8) & 0xff) as u8,
            b3 == (n & 0xff) as u8,
    ;
}

/// A message on the wire: its type byte, the length of its data (kept to
/// 32 bits), and the data.
pub open spec fn frame(m: &Message) -> Seq<u8> {
    seq![m.message_type.spec_code()] + be32(m.data@.len() as u32) + m.data@
}

/// Calls `String::from_utf8` on the bytes: they are taken as the string they
/// encode when they are valid UTF-8, and the error's text is given otherwise.
#[verifier::external_body]
fn string_from_utf8(bytes: Vec<u8>) -> (r: Result<String, String>)
    ensures
        r matches Ok(s) ==> valid_utf8(bytes@) && s@ == decode_utf8(bytes@),
        r is Err ==> !valid_utf8(bytes@),
{
    String::from_utf8(bytes).map_err(|e| e.to_string())
}

fn text_bytes(message: &str) -> (v: Vec<u8>)
    ensures
        v@ == message.spec_bytes(),
{
    slice_to_vec(message.as_bytes())
}

impl Message {
    pub fn stream(message: &str) -> (m: Self)
        ensures
            m.message_type == MessageType::Stream,
            m.data@ == message.spec_bytes(),
    {
        Message { message_type: MessageType::Stream, data: text_bytes(message) }
    }

    pub fn info(message: &str) -> (m: Self)
        ensures
            m.message_type == MessageType::Info,
            m.data@ == message.spec_bytes(),
    {
        Message { message_type: MessageType::Info, data: text_bytes(message) }
    }

    pub fn success() -> (m: Self)
        ensures
            m.message_type == MessageType::Success,
            m.data@ == Seq::<u8>::empty(),
    {
        Message { message_type: MessageType::Success, data: Vec::new() }
    }

    pub fn error(message: &str) -> (m: Self)
        ensures
            m.message_type == MessageType::Error,
            m.data@ == message.spec_bytes(),
    {
        Message { message_type: MessageType::Error, data: text_bytes(message) }
    }

    /// The data read as UTF-8 text, or the text of the decoding error.
    pub fn get_string(&self) -> (r: Result<String, String>)
        ensures
            r matches Ok(s) ==> valid_utf8(self.data@) && s@ == decode_utf8(self.data@),
            r is Err ==> !valid_utf8(self.data@),
    {
        string_from_utf8(self.data.clone())
    }

    /// The bytes that send the message.
    pub fn encode(&self) -> (bytes: Vec<u8>)
        ensures
            bytes@ == frame(self),
            self.data@.len() <= u32::MAX ==> bytes@.len() == 5 + self.data@.len() && bytes@[0]
                == self.message_type.spec_code() && bytes@[1] * 0x100_0000 + bytes@[2] * 0x1_0000 + bytes@[3]
                * 0x100 + bytes@[4] == self.data@.len() && bytes@.subrange(5, bytes@.len() as int)
                == self.data@,
    {
        let len = self.data.len();
        let n: u32 = len as u32;
        let mut out: Vec<u8> = Vec::new();
        out.push(self.message_type.code());
        out.push(((n >> 24) & 0xff) as u8);
        out.push(((n >> 16) & 0xff) as u8);
        out.push(((n >> 8) & 0xff) as u8);
        out.push((n & 0xff) as u8);
        let mut i: usize = 0;
        while i < self.data.len()
            invariant
                0 <= i <= self.data@.len(),
                out@ == seq![self.message_type.spec_code()] + be32(n) + self.data@.subrange(0, i as int),
            decreases self.data@.len() - i,
        {
            out.push(self.data[i]);
            i = i + 1;
            assert(out@ =~= seq![self.message_type.spec_code()] + be32(n) + self.data@.subrange(0, i as int));
        }
        assert(self.data@.subrange(0, self.data@.len() as int) =~= self.data@);
        proof {
            if self.data@.len() <= u32::MAX {
                lemma_frame_layout(self);
            }
        }
        out
    }

    /// Reads the five header bytes of a received message: its type and the
    /// length of the data that follows.
    pub fn parse_header(header: &[u8]) -> (r: Result<(MessageType, usize), String>)
        requires
            header@.len() == 5,
        ensures
            header@[0] <= 2 ==> (r matches Ok((t, len)) && t.spec_code() == header@[0] && len
                == from_be32(header@.subrange(1, 5))),
            header@[0] > 2 ==> (r matches Err(m) && m@ == "Unknown message type: 0x"@ + hex(
                header@[0] as nat,
            )),
    {
        let message_type = MessageType::try_from(header[0])?;
        let len: u32 = ((header[1] as u32) << 24) | ((header[2] as u32) << 16) | ((header[3] as u32) << 8)
            | (header[4] as u32);
        proof {
            assert(header@.subrange(1, 5)[0] == header@[1]);
            assert(header@.subrange(1, 5)[1] == header@[2]);
            assert(header@.subrange(1, 5)[2] == header@[3]);
            assert(header@.subrange(1, 5)[3] == header@[4]);
        }
        Ok((message_type, len as usize))
    }
}

/// A request sent by a client reads back from its frame: the header gives its
/// type and the length of its data, and the data follows. Data of 2^32 bytes
/// or more does not: its length is cut to 32 bits on the wire.
pub proof fn lemma_request_frame_roundtrip(m: &Message)
    requires
        m.message_type.is_request(),
        m.data@.len() <= u32::MAX,
    ensures
        frame(m).subrange(0, 1)[0] == m.message_type.spec_code(),
        m.message_type.spec_code() <= 2,
        from_be32(frame(m).subrange(1, 5)) == m.data@.len(),
        frame(m).subrange(5, frame(m).len() as int) == m.data@,
{
    lemma_be32_roundtrip(m.data@.len() as u32);
    assert(frame(m).subrange(1, 5) =~= be32(m.data@.len() as u32));
    assert(frame(m).subrange(5, frame(m).len() as int) =~= m.data@);
}

/// The wire form of every message, whatever its type: the type byte, then
/// the length of the data as four bytes, most significant first, then the
/// data itself.
pub proof fn lemma_frame_layout(m: &Message)
    requires
        m.data@.len() <= u32::MAX,
    ensures
        frame(m).len() == 5 + m.data@.len(),
        frame(m)[0] == m.message_type.spec_code(),
        frame(m)[1] * 0x100_0000 + frame(m)[2] * 0x1_0000 + frame(m)[3] * 0x100 + frame(m)[4] == m.data@.len(),
        frame(m).subrange(5, frame(m).len() as int) == m.data@,
{
    let n = m.data@.len() as u32;
    let b0 = ((n >> 24) & 0xff) as u8;
    let b1 = ((n >> 16) & 0xff) as u8;
    let b2 = ((n >> 8) & 0xff) as u8;
    let b3 = (n & 0xff) as u8;
    assert(b0 as u64 * 0x100_0000 + b1 as u64 * 0x1_0000 + b2 as u64 * 0x100 + b3 as u64 == n as u64) by (bit_vector)
        requires
            b0 == ((n >> 24) & 0xff) as u8,
            b1 == ((n >> 16) & 0xff) as u8,
            b2 == ((n >> 8) & 0xff) as u8,
            b3 == (n & 0xff) as u8,
    ;
    let f = frame(m);
    assert(f[1] == b0 && f[2] == b1 && f[3] == b2 && f[4] == b3);
    assert(f.subrange(5, f.len() as int) =~= m.data@);
}

} // verus!
