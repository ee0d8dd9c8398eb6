//! Messages between the daemon and an attached client.
//!
//! A message is a length (four bytes, low byte first), a type byte, and a
//! payload of one byte less than the length.

use vstd::prelude::*;
use vstd::slice::slice_subrange;

use crate::bytes;
use crate::text;

verus! {

pub const MSG_INPUT: u8 = 0x01;

pub const MSG_RESIZE: u8 = 0x02;

pub const MSG_DETACH: u8 = 0x03;

pub const MSG_STOP: u8 = 0x04;

pub const MSG_STATUS: u8 = 0x05;

pub const MSG_OUTPUT: u8 = 0x81;

pub const MSG_EXITED: u8 = 0x82;

pub const MSG_STATUS_RESP: u8 = 0x83;

pub const MSG_WELCOME: u8 = 0x84;

/// The largest length that a reader accepts: 4 MiB.
pub const MAX_MESSAGE_LEN: u32 = 0x40_0000;

/// One message.
#[derive(Debug, Clone)]
pub enum Message {
    Input(Vec<u8>),
    Resize { rows: u16, cols: u16 },
    Detach,
    Stop,
    Status,
    Output(Vec<u8>),
    Exited(i32),
    StatusResp(String),
    Welcome { rows: u16, cols: u16 },
}

/// The mathematical value of a [`Message`].
#[verifier::ext_equal]
pub enum MessageView {
    Input(Seq<u8>),
    Resize { rows: u16, cols: u16 },
    Detach,
    Stop,
    Status,
    Output(Seq<u8>),
    Exited(i32),
    StatusResp(Seq<char>),
    Welcome { rows: u16, cols: u16 },
}

impl View for Message {
    type V = MessageView;

    open spec fn view(&self) -> MessageView {
        match self {
            Message::Input(d) => MessageView::Input(d@),
            Message::Resize { rows, cols } => MessageView::Resize { rows: *rows, cols: *cols },
            Message::Detach => MessageView::Detach,
            Message::Stop => MessageView::Stop,
            Message::Status => MessageView::Status,
            Message::Output(d) => MessageView::Output(d@),
            Message::Exited(code) => MessageView::Exited(*code),
            Message::StatusResp(s) => MessageView::StatusResp(s@),
            Message::Welcome { rows, cols } => MessageView::Welcome { rows: *rows, cols: *cols },
        }
    }
}

/// Why no message could be read.
#[derive(Debug, Clone, Copy, PartialEq, Eq, Structural)]
pub enum ReadError {
    /// The input ends before the message does.
    Incomplete,
    Empty,
    TooLarge,
    BadResize,
    BadExited,
    BadUtf8,
    BadWelcome,
    UnknownType(u8),
}

/// The type byte of a message.
pub open spec fn tag_of(m: MessageView) -> u8 {
    match m {
        MessageView::Input(_) => MSG_INPUT,
        MessageView::Resize { rows, cols } => MSG_RESIZE,
        MessageView::Detach => MSG_DETACH,
        MessageView::Stop => MSG_STOP,
        MessageView::Status => MSG_STATUS,
        MessageView::Output(_) => MSG_OUTPUT,
        MessageView::Exited(_) => MSG_EXITED,
        MessageView::StatusResp(_) => MSG_STATUS_RESP,
        MessageView::Welcome { rows, cols } => MSG_WELCOME,
    }
}

/// The payload of a message.
pub open spec fn payload_of(m: MessageView) -> Seq<u8> {
    match m {
        MessageView::Input(d) => d,
        MessageView::Output(d) => d,
        MessageView::Resize { rows, cols } => bytes::le16(rows) + bytes::le16(cols),
        MessageView::Welcome { rows, cols } => bytes::le16(rows) + bytes::le16(cols),
        MessageView::Exited(code) => bytes::le32(code as u32),
        MessageView::StatusResp(s) => vstd::utf8::encode_utf8(s),
        MessageView::Detach => Seq::empty(),
        MessageView::Stop => Seq::empty(),
        MessageView::Status => Seq::empty(),
    }
}

/// The bytes of a message. The length field holds the low 32 bits of the length.
pub open spec fn encoded(m: MessageView) -> Seq<u8> {
    bytes::le32(((1 + payload_of(m).len()) % 0x1_0000_0000) as u32) + seq![tag_of(m)] + payload_of(
        m,
    )
}

/// What a type byte and a payload mean.
pub open spec fn decoded_body(tag: u8, p: Seq<u8>) -> Result<MessageView, ReadError> {
    if tag == MSG_INPUT {
        Ok(MessageView::Input(p))
    } else if tag == MSG_RESIZE {
        if p.len() != 4 {
            Err(ReadError::BadResize)
        } else {
            Ok(
                MessageView::Resize {
                    rows: bytes::from_le16(p.subrange(0, 2)),
                    cols: bytes::from_le16(p.subrange(2, 4)),
                },
            )
        }
    } else if tag == MSG_DETACH {
        Ok(MessageView::Detach)
    } else if tag == MSG_STOP {
        Ok(MessageView::Stop)
    } else if tag == MSG_STATUS {
        Ok(MessageView::Status)
    } else if tag == MSG_OUTPUT {
        Ok(MessageView::Output(p))
    } else if tag == MSG_EXITED {
        if p.len() != 4 {
            Err(ReadError::BadExited)
        } else {
            Ok(MessageView::Exited(bytes::from_le32(p.subrange(0, 4)) as i32))
        }
    } else if tag == MSG_STATUS_RESP {
        if vstd::utf8::valid_utf8(p) {
            Ok(MessageView::StatusResp(vstd::utf8::decode_utf8(p)))
        } else {
            Err(ReadError::BadUtf8)
        }
    } else if tag == MSG_WELCOME {
        if p.len() != 4 {
            Err(ReadError::BadWelcome)
        } else {
            Ok(
                MessageView::Welcome {
                    rows: bytes::from_le16(p.subrange(0, 2)),
                    cols: bytes::from_le16(p.subrange(2, 4)),
                },
            )
        }
    } else {
        Err(ReadError::UnknownType(tag))
    }
}

/// Whether a length field is refused, and why.
pub open spec fn length_error(len: u32) -> Option<ReadError> {
    if len == 0 {
        Some(ReadError::Empty)
    } else if len > MAX_MESSAGE_LEN {
        Some(ReadError::TooLarge)
    } else {
        None
    }
}

/// The message that `input` begins with, and how many bytes it takes.
pub open spec fn decoded(input: Seq<u8>) -> Result<(MessageView, int), ReadError> {
    if input.len() < 4 {
        Err(ReadError::Incomplete)
    } else {
        let len = bytes::from_le32(input.subrange(0, 4));
        match length_error(len) {
            Some(e) => Err(e),
            None => if input.len() < 4 + len {
                Err(ReadError::Incomplete)
            } else {
                match decoded_body(input[4], input.subrange(5, 4 + len)) {
                    Ok(m) => Ok((m, 4 + len)),
                    Err(e) => Err(e),
                }
            },
        }
    }
}

/// The messages that `input` consists of, as far as it can be read.
pub open spec fn decoded_stream(input: Seq<u8>) -> Seq<MessageView>
    decreases input.len(),
{
    match decoded(input) {
        Ok((m, n)) => if 0 < n <= input.len() {
            seq![m] + decoded_stream(input.skip(n))
        } else {
            seq![m]
        },
        Err(_) => Seq::empty(),
    }
}

/// The bytes of several messages, one after the other.
pub open spec fn encoded_stream(ms: Seq<MessageView>) -> Seq<u8>
    decreases ms.len(),
{
    if ms.len() == 0 {
        Seq::empty()
    } else {
        encoded(ms[0]) + encoded_stream(ms.skip(1))
    }
}

/// Whether a reader accepts the length of the message.
pub open spec fn sendable(m: MessageView) -> bool {
    1 + payload_of(m).len() <= MAX_MESSAGE_LEN
}

/// The message that `encode` wrote is the message that is read, whatever follows
/// it, as long as its length is one that a reader accepts.
pub proof fn law_round_trip(m: MessageView, rest: Seq<u8>)
    requires
        sendable(m),
    ensures
        decoded(encoded(m) + rest) == Ok::<(MessageView, int), ReadError>(
            (m, encoded(m).len() as int),
        ),
{
    let p = payload_of(m);
    let len: u32 = (1 + p.len()) as u32;
    let input = encoded(m) + rest;
    bytes::law_le_round_trip(0, len);
    assert(input.subrange(0, 4) =~= bytes::le32(len));
    assert(input[4] == tag_of(m));
    assert(input.subrange(5, 4 + len) =~= p);
    match m {
        MessageView::Resize { rows, cols } => {
            bytes::law_le_round_trip(rows, 0);
            bytes::law_le_round_trip(cols, 0);
            assert(p.subrange(0, 2) =~= bytes::le16(rows));
            assert(p.subrange(2, 4) =~= bytes::le16(cols));
        },
        MessageView::Welcome { rows, cols } => {
            bytes::law_le_round_trip(rows, 0);
            bytes::law_le_round_trip(cols, 0);
            assert(p.subrange(0, 2) =~= bytes::le16(rows));
            assert(p.subrange(2, 4) =~= bytes::le16(cols));
        },
        MessageView::Exited(code) => {
            bytes::law_le_round_trip(0, code as u32);
            assert(p.subrange(0, 4) =~= bytes::le32(code as u32));
            assert((code as u32) as i32 == code) by (bit_vector);
        },
        MessageView::StatusResp(s) => {
            vstd::utf8::encode_utf8_valid_utf8(s);
            vstd::utf8::encode_utf8_decode_utf8(s);
        },
        _ => {},
    }
}

/// Messages written one after the other are read back in the same order, with
/// nothing left over.
pub proof fn law_stream_round_trip(ms: Seq<MessageView>)
    requires
        forall|i: int| 0 <= i < ms.len() ==> sendable(#[trigger] ms[i]),
    ensures
        decoded_stream(encoded_stream(ms)) == ms,
    decreases ms.len(),
{
    if ms.len() == 0 {
        assert(decoded_stream(encoded_stream(ms)) =~= ms);
    } else {
        let rest = encoded_stream(ms.skip(1));
        let input = encoded(ms[0]) + rest;
        law_round_trip(ms[0], rest);
        assert(encoded_stream(ms) == input);
        assert(input.skip(encoded(ms[0]).len() as int) =~= rest);
        assert forall|i: int| 0 <= i < ms.skip(1).len() implies sendable(
            #[trigger] ms.skip(1)[i],
        ) by {
            assert(ms.skip(1)[i] == ms[i + 1]);
        }
        law_stream_round_trip(ms.skip(1));
        assert(seq![ms[0]] + ms.skip(1) =~= ms);
    }
}

/// The type byte and the payload of a message.
fn body(m: &Message) -> (r: (u8, Vec<u8>))
    ensures
        r.0 == tag_of(m@),
        r.1@ == payload_of(m@),
{
    match m {
        Message::Input(d) => (MSG_INPUT, bytes::copy_bytes(d.as_slice())),
        Message::Output(d) => (MSG_OUTPUT, bytes::copy_bytes(d.as_slice())),
        Message::Resize { rows, cols } => {
            let mut p: Vec<u8> = Vec::new();
            bytes::push_le16(&mut p, *rows);
            bytes::push_le16(&mut p, *cols);
            assert(p@ =~= bytes::le16(*rows) + bytes::le16(*cols));
            (MSG_RESIZE, p)
        },
        Message::Welcome { rows, cols } => {
            let mut p: Vec<u8> = Vec::new();
            bytes::push_le16(&mut p, *rows);
            bytes::push_le16(&mut p, *cols);
            assert(p@ =~= bytes::le16(*rows) + bytes::le16(*cols));
            (MSG_WELCOME, p)
        },
        Message::Exited(code) => {
            let mut p: Vec<u8> = Vec::new();
            bytes::push_le32(&mut p, *code as u32);
            assert(p@ =~= bytes::le32(*code as u32));
            (MSG_EXITED, p)
        },
        Message::StatusResp(s) => (MSG_STATUS_RESP, bytes::bytes_of(s.as_str())),
        Message::Detach => (MSG_DETACH, Vec::new()),
        Message::Stop => (MSG_STOP, Vec::new()),
        Message::Status => (MSG_STATUS, Vec::new()),
    }
}

/// The bytes that carry a message.
pub fn write_message(m: &Message) -> (out: Vec<u8>)
    ensures
        out@ == encoded(m@),
{
    let (tag, payload) = body(m);
    let n: u64 = payload.len() as u64;
    let len: u32 = ((n % 0x1_0000_0000 + 1) % 0x1_0000_0000) as u32;
    let mut out: Vec<u8> = Vec::new();
    bytes::push_le32(&mut out, len);
    out.push(tag);
    out.extend_from_slice(payload.as_slice());
    assert((1 + n) % 0x1_0000_0000 == (n % 0x1_0000_0000 + 1) % 0x1_0000_0000);
    assert(out@ =~= encoded(m@));
    out
}

/// The length field of a message, unless a reader refuses it.
pub fn read_length(header: &[u8]) -> (r: Result<u32, ReadError>)
    requires
        header@.len() == 4,
    ensures
        match length_error(bytes::from_le32(header@)) {
            Some(e) => r == Err::<u32, ReadError>(e),
            None => r == Ok::<u32, ReadError>(bytes::from_le32(header@)),
        },
{
    let len: u32 = bytes::read_le32(header, 0);
    assert(header@.subrange(0, 4) =~= header@);
    if len == 0 {
        Err(ReadError::Empty)
    } else if len > MAX_MESSAGE_LEN {
        Err(ReadError::TooLarge)
    } else {
        Ok(len)
    }
}

/// What a type byte and a payload mean.
pub fn read_body(tag: u8, payload: Vec<u8>) -> (r: Result<Message, ReadError>)
    ensures
        match r {
            Ok(m) => decoded_body(tag, payload@) == Ok::<MessageView, ReadError>(m@),
            Err(e) => decoded_body(tag, payload@) == Err::<MessageView, ReadError>(e),
        },
{
    if tag == MSG_INPUT {
        Ok(Message::Input(payload))
    } else if tag == MSG_RESIZE {
        if payload.len() != 4 {
            return Err(ReadError::BadResize);
        }
        let rows: u16 = bytes::read_le16(payload.as_slice(), 0);
        let cols: u16 = bytes::read_le16(payload.as_slice(), 2);
        Ok(Message::Resize { rows, cols })
    } else if tag == MSG_DETACH {
        Ok(Message::Detach)
    } else if tag == MSG_STOP {
        Ok(Message::Stop)
    } else if tag == MSG_STATUS {
        Ok(Message::Status)
    } else if tag == MSG_OUTPUT {
        Ok(Message::Output(payload))
    } else if tag == MSG_EXITED {
        if payload.len() != 4 {
            return Err(ReadError::BadExited);
        }
        let code: u32 = bytes::read_le32(payload.as_slice(), 0);
        Ok(Message::Exited(code as i32))
    } else if tag == MSG_STATUS_RESP {
        match bytes::utf8_text(payload) {
            Ok(s) => Ok(Message::StatusResp(s)),
            Err(_) => Err(ReadError::BadUtf8),
        }
    } else if tag == MSG_WELCOME {
        if payload.len() != 4 {
            return Err(ReadError::BadWelcome);
        }
        let rows: u16 = bytes::read_le16(payload.as_slice(), 0);
        let cols: u16 = bytes::read_le16(payload.as_slice(), 2);
        Ok(Message::Welcome { rows, cols })
    } else {
        Err(ReadError::UnknownType(tag))
    }
}

/// The message that `input` begins with, and how many bytes it takes.
pub fn read_message(input: &[u8]) -> (r: Result<(Message, usize), ReadError>)
    ensures
        match r {
            Ok((m, n)) => decoded(input@) == Ok::<(MessageView, int), ReadError>((m@, n as int))
                && n <= input@.len(),
            Err(e) => decoded(input@) == Err::<(MessageView, int), ReadError>(e),
        },
{
    if input.len() < 4 {
        return Err(ReadError::Incomplete);
    }
    let header = slice_subrange(input, 0, 4);
    let len: usize = match read_length(header) {
        Ok(n) => n as usize,
        Err(e) => {
            return Err(e);
        },
    };
    if input.len() - 4 < len {
        return Err(ReadError::Incomplete);
    }
    let payload = bytes::copy_bytes(slice_subrange(input, 5, 4 + len));
    match read_body(input[4], payload) {
        Ok(m) => Ok((m, 4 + len)),
        Err(e) => Err(e),
    }
}

impl ReadError {
    /// The text of the error.
    pub open spec fn text(self) -> Seq<char> {
        match self {
            ReadError::Incomplete => "unexpected end of file"@,
            ReadError::Empty => "empty message"@,
            ReadError::TooLarge => "message too large"@,
            ReadError::BadResize => "bad resize"@,
            ReadError::BadExited => "bad exited"@,
            ReadError::BadUtf8 => "bad utf8"@,
            ReadError::BadWelcome => "bad welcome"@,
            ReadError::UnknownType(tag) => "unknown message type: 0x"@ + text::hex(tag as nat),
        }
    }

    /// The text of the error.
    pub fn message(&self) -> (r: String)
        ensures
            r@ == self.text(),
    {
        match self {
            ReadError::Incomplete => "unexpected end of file".to_owned(),
            ReadError::Empty => "empty message".to_owned(),
            ReadError::TooLarge => "message too large".to_owned(),
            ReadError::BadResize => "bad resize".to_owned(),
            ReadError::BadExited => "bad exited".to_owned(),
            ReadError::BadUtf8 => "bad utf8".to_owned(),
            ReadError::BadWelcome => "bad welcome".to_owned(),
            ReadError::UnknownType(tag) => {
                let mut s: String = "unknown message type: 0x".to_owned();
                let h = text::to_hex(*tag as u64);
                s.append(h.as_str());
                s
            },
        }
    }
}

} // verus!
