use core_storage::tcp::buffer_pool::SlotPool;
use core_storage::tcp::client::{connect_address, guess_mime, listen_address, pending_file_name, resume_reply, upload_reply, ReplyError};
use core_storage::tcp::message::{Message, MessageType};
use core_storage::tcp::transfer::{classify, pool_size, prefers_fast_queue, resume_ack, ChunkEvent, Request, Transfer};
use core_storage::tcp::session::{reply_message, step, Action, Event, Reply, Session};

#[test]
fn message_constructors() {
    let m = Message::stream("abc");
    assert_eq!(m.message_type, MessageType::Stream);
    assert_eq!(m.data, b"abc".to_vec());
    assert_eq!(Message::info("i").message_type, MessageType::Info);
    assert_eq!(Message::error("e").data, b"e".to_vec());
    let s = Message::success();
    assert_eq!(s.message_type, MessageType::Success);
    assert!(s.data.is_empty());
}

#[test]
fn message_type_codes() {
    assert_eq!(MessageType::Close.code(), 0x00);
    assert_eq!(MessageType::New.code(), 0x01);
    assert_eq!(MessageType::Resume.code(), 0x02);
    assert_eq!(MessageType::Success.code(), 0x14);
    assert_eq!(MessageType::Info.code(), 0x15);
    assert_eq!(MessageType::Error.code(), 0x16);
    assert_eq!(MessageType::Stream.code(), 0x17);
}

#[test]
fn message_type_accepts_only_requests() {
    assert_eq!(MessageType::try_from(0).unwrap(), MessageType::Close);
    assert_eq!(MessageType::try_from(1).unwrap(), MessageType::New);
    assert_eq!(MessageType::try_from(2).unwrap(), MessageType::Resume);
    assert_eq!(MessageType::try_from(0x14).err().unwrap(), "Unknown message type: 0x14");
    assert_eq!(MessageType::try_from(3).err().unwrap(), format!("Unknown message type: {:#x}", 3u8));
}

#[test]
fn frame_encoding() {
    let m = Message { message_type: MessageType::Resume, data: b"uuid-1".to_vec() };
    let f = m.encode();
    assert_eq!(f[0], 0x02);
    assert_eq!(&f[1..5], &(6u32).to_be_bytes());
    assert_eq!(&f[5..], b"uuid-1");
    let (t, len) = Message::parse_header(&f[0..5]).unwrap();
    assert_eq!(t, MessageType::Resume);
    assert_eq!(len, 6);
    assert!(Message::parse_header(&Message::success().encode()).is_err());
}

#[test]
fn message_text() {
    assert_eq!(Message::stream("héllo").get_string().unwrap(), "héllo");
    let bad = Message { message_type: MessageType::Stream, data: vec![0xff, 0xfe] };
    assert!(bad.get_string().is_err());
}

#[test]
fn requests_and_limits() {
    assert_eq!(classify(MessageType::New), Request::Upload);
    assert_eq!(classify(MessageType::Resume), Request::Resume);
    assert_eq!(classify(MessageType::Close), Request::Close);
    assert_eq!(classify(MessageType::Info), Request::Ignore);
    assert!(prefers_fast_queue(999_999_999));
    assert!(!prefers_fast_queue(1_000_000_000));
    assert_eq!(pool_size(120, 50), 190);
    let ack = resume_ack(4096);
    assert_eq!(ack.message_type, MessageType::Stream);
    assert_eq!(ack.data, b"4096".to_vec());
}

#[test]
fn transfer_cuts_into_chunks() {
    let buf_len = 4usize;
    let mut t = Transfer::start(10);
    let mut events = Vec::new();
    while !t.is_complete() {
        let n = t.read_len(buf_len);
        events.push(t.record(n, buf_len));
    }
    assert_eq!(
        events,
        vec![
            ChunkEvent::Full { chunk_index: 0, filled: 4 },
            ChunkEvent::Full { chunk_index: 1, filled: 4 },
            ChunkEvent::Last { chunk_index: 2, filled: 2 },
        ]
    );
    assert_eq!(t.bytes_received, 10);
}

#[test]
fn transfer_exact_multiple_and_resume() {
    let mut t = Transfer::start(8);
    let n = t.read_len(4);
    assert_eq!(t.record(n, 4), ChunkEvent::Full { chunk_index: 0, filled: 4 });
    let n = t.read_len(4);
    assert_eq!(t.record(n, 4), ChunkEvent::Last { chunk_index: 1, filled: 4 });
    let mut r = Transfer::resume(3, 6, 8);
    let n = r.read_len(5);
    assert_eq!(n, 2);
    assert_eq!(r.record(n, 5), ChunkEvent::Last { chunk_index: 3, filled: 2 });
    assert!(Transfer::start(0).is_complete());
    assert!(Transfer::resume(0, 9, 8).is_complete());
}

#[test]
fn buffer_pool_hands_out_zeroed_buffers() {
    let mut pool = SlotPool::new(2, 8);
    assert_eq!(pool.available(), 2);
    let mut a = pool.take().unwrap();
    assert_eq!(a, vec![0u8; 8]);
    a.fill(7);
    a.push(1);
    let _b = pool.take().unwrap();
    assert!(pool.take().is_none());
    pool.give_back(a);
    assert_eq!(pool.available(), 1);
    let c = pool.take().unwrap();
    assert_eq!(c, vec![0u8; 9]);
}

#[test]
fn buffer_pool_counts_free_and_lent_buffers() {
    let mut pool = SlotPool::new(3, 4);
    assert_eq!((pool.available(), pool.lent()), (3, 0));
    let a = pool.take().unwrap();
    let b = pool.take().unwrap();
    assert_eq!((pool.available(), pool.lent()), (1, 2));
    pool.give_back(a);
    assert_eq!((pool.available(), pool.lent()), (2, 1));
    pool.give_back(b);
    assert_eq!((pool.available(), pool.lent()), (3, 0));
}

#[test]
fn client_helpers() {
    assert_eq!(connect_address("127.0.0.1", "7878"), "127.0.0.1:7878");
    assert_eq!(listen_address(7878), "0.0.0.0:7878");
    assert_eq!(pending_file_name("abc"), "abc.tmp");
    assert_eq!(guess_mime(None), None);
    assert_eq!(guess_mime(Some("png")), Some("image/png".to_string()));
    assert_eq!(guess_mime(Some("")), Some("application/octet-stream".to_string()));
}

#[test]
fn client_reads_replies() {
    assert_eq!(upload_reply(&Message::stream("id-7")).ok().unwrap(), "id-7");
    match upload_reply(&Message::error("full")) {
        Err(ReplyError::Other(m)) => assert_eq!(m, "Server error: full"),
        _ => panic!(),
    }
    match upload_reply(&Message::success()) {
        Err(ReplyError::Other(m)) => assert_eq!(m, "Unvalid message '20' from server"),
        _ => panic!(),
    }
    let bad = Message { message_type: MessageType::Stream, data: vec![0xc3] };
    assert!(matches!(upload_reply(&bad), Err(ReplyError::InvalidData(_))));
    match resume_reply(&Message::stream("0")) {
        ReplyError::Other(m) => assert_eq!(m, "Unvalid message '23' from server"),
        _ => panic!(),
    }
}

#[test]
fn session_upload_takes_a_buffer_before_the_go_ahead() {
    let request = Message { message_type: MessageType::New, data: b"desc".to_vec() };
    let (s, a) = step(Session::Opening, Event::Request(request));
    assert!(matches!(a, Action::CallOnNew(ref d) if d == b"desc"));
    let (s, a) = step(s, Event::Created { uuid: "u1".to_string(), total_size: 10 });
    assert!(matches!(a, Action::AcquireBuffer));
    let (s, a) = step(s, Event::BufferReady { len: 4 });
    match &a {
        Action::Send(r) => {
            assert!(matches!(r, Reply::Stream(u) if u == "u1"));
            assert_eq!(reply_message(r).data, b"u1".to_vec());
        }
        _ => panic!(),
    }
    let (s, a) = step(s, Event::Sent);
    assert!(matches!(a, Action::Read { start: 0, len: 4 }));
    let (s, a) = step(s, Event::DataRead);
    assert!(matches!(a, Action::Deliver { ref uuid, chunk_index: 0, filled: 4 } if uuid == "u1"));
    let (s, a) = step(s, Event::HookDone);
    assert!(matches!(a, Action::AcquireBuffer));
    let (s, a) = step(s, Event::BufferReady { len: 4 });
    assert!(matches!(a, Action::Read { start: 0, len: 4 }));
    let (s, _) = step(s, Event::DataRead);
    let (s, _) = step(s, Event::HookDone);
    let (s, a) = step(s, Event::BufferReady { len: 4 });
    assert!(matches!(a, Action::Read { start: 0, len: 2 }));
    let (s, a) = step(s, Event::DataRead);
    assert!(matches!(a, Action::Deliver { chunk_index: 2, filled: 2, .. }));
    let (s, a) = step(s, Event::HookDone);
    assert!(matches!(a, Action::CallOnComplete(ref u) if u == "u1"));
    let (s, a) = step(s, Event::HookDone);
    assert!(matches!(a, Action::Send(Reply::Success)));
    let (s, a) = step(s, Event::Sent);
    assert!(matches!(s, Session::Done) && matches!(a, Action::Finish));
}

#[test]
fn session_without_a_buffer_sends_only_the_error() {
    let request = Message { message_type: MessageType::Resume, data: b"u2".to_vec() };
    let (s, a) = step(Session::Opening, Event::Request(request));
    assert!(matches!(a, Action::CallOnResume(ref u) if u == "u2"));
    let (s, _) = step(s, Event::Resumed { chunk_index: 3, bytes_received: 12, total_size: 20 });
    let (s, a) = step(s, Event::NoBuffer);
    match &a {
        Action::Send(r) => {
            assert!(matches!(r, Reply::NoBuffer));
            let m = reply_message(r);
            assert_eq!(m.message_type, MessageType::Error);
            assert_eq!(m.data, b"not enough PooledBuffer".to_vec());
        }
        _ => panic!(),
    }
    let (s, a) = step(s, Event::Sent);
    assert!(matches!(s, Session::Done) && matches!(a, Action::Finish));
    assert_eq!(reply_message(&Reply::Progress(12)).data, b"12".to_vec());
}

#[test]
fn session_ignores_other_requests_and_refuses_bad_text() {
    let (_, a) = step(Session::Opening, Event::Request(Message::success()));
    assert!(matches!(a, Action::Finish));
    let bad = Message { message_type: MessageType::Close, data: vec![0xff] };
    let (_, a) = step(Session::Opening, Event::Request(bad));
    assert!(matches!(a, Action::Fail(_)));
    let (_, a) = step(Session::Opening, Event::Sent);
    assert!(matches!(a, Action::Fail(ref m) if m == "unexpected event"));
}
