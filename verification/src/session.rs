//! The terminal contents that browsers see, and what each of them still misses.

use vstd::prelude::*;
use vstd::slice::slice_subrange;

use crate::bytes;
use crate::crypto;
use crate::events::{AgentEvent, AgentEventView};
use crate::json::{Json, JsonView};

verus! {

/// The most bytes that one message to a browser carries: 256 KiB.
pub const MAX_DELTA_CAP: usize = 262144;

/// The most bytes of the first message on a connection: 64 KiB.
pub const MAX_WS_INIT_BYTES: usize = 65536;

/// The latest terminal output, and how many bytes were ever written.
#[derive(Debug)]
pub struct SessionBuffer {
    pub terminal_data: Vec<u8>,
    pub rows: u16,
    pub cols: u16,
    pub write_offset: u64,
}

/// The mathematical value of a [`SessionBuffer`].
#[verifier::ext_equal]
pub struct SessionBufferView {
    pub terminal_data: Seq<u8>,
    pub rows: u16,
    pub cols: u16,
    pub write_offset: u64,
}

impl View for SessionBuffer {
    type V = SessionBufferView;

    open spec fn view(&self) -> SessionBufferView {
        SessionBufferView {
            terminal_data: self.terminal_data@,
            rows: self.rows,
            cols: self.cols,
            write_offset: self.write_offset,
        }
    }
}

/// The terminal contents of the one agent, once there are any.
#[derive(Debug)]
pub struct SessionStore {
    buffer: Option<SessionBuffer>,
}

impl View for SessionStore {
    type V = Option<SessionBufferView>;

    closed spec fn view(&self) -> Option<SessionBufferView> {
        match self.buffer {
            Some(b) => Some(b@),
            None => None,
        }
    }
}

/// The last `n` bytes, or all of them.
pub open spec fn tail(s: Seq<u8>, n: int) -> Seq<u8> {
    if n >= s.len() {
        s
    } else {
        s.skip(s.len() - n)
    }
}

/// The message for a browser that has seen all but the last `missing` bytes.
pub open spec fn delta_json(b: SessionBufferView, missing: int) -> JsonView {
    if missing <= b.terminal_data.len() {
        let n = if missing <= MAX_DELTA_CAP {
            missing
        } else {
            MAX_DELTA_CAP as int
        };
        JsonView::object().put_text("type"@, "delta"@).put_text(
            "data"@,
            crypto::b64(tail(b.terminal_data, n)),
        )
    } else {
        JsonView::object().put_text("type"@, "full"@).put_text(
            "terminal_data"@,
            crypto::b64(tail(b.terminal_data, MAX_DELTA_CAP as int)),
        ).put_uint("rows"@, b.rows as u64).put_uint("cols"@, b.cols as u64)
    }
}

/// The message for a browser that has seen `prev` bytes, and how many it has seen
/// after it. There is none where nothing new was written.
pub open spec fn delta_of(b: Option<SessionBufferView>, prev: u64) -> Option<(JsonView, u64)> {
    match b {
        None => None,
        Some(b) => if b.write_offset <= prev {
            None
        } else {
            Some((delta_json(b, b.write_offset - prev), b.write_offset))
        },
    }
}

/// The first message on a connection.
pub open spec fn init_json(b: SessionBufferView) -> JsonView {
    JsonView::object().put_text("type"@, "init"@).put_text(
        "terminal_data"@,
        crypto::b64(tail(b.terminal_data, MAX_WS_INIT_BYTES as int)),
    ).put_uint("rows"@, b.rows as u64).put_uint("cols"@, b.cols as u64)
}

/// The last `n` bytes, or all of them.
fn tail_of(v: &[u8], n: usize) -> (r: &[u8])
    ensures
        r@ == tail(v@, n as int),
{
    if n >= v.len() {
        v
    } else {
        let r = slice_subrange(v, v.len() - n, v.len());
        assert(r@ =~= v@.skip(v@.len() - n));
        r
    }
}

impl SessionBuffer {
    /// The message for a browser that has seen `prev` bytes, and how many it has
    /// seen after it.
    pub fn delta_msg(&self, prev: u64) -> (r: Option<(Json, u64)>)
        ensures
            match r {
                Some((j, n)) => delta_of(Some(self@), prev) == Some((j@, n)),
                None => delta_of(Some(self@), prev) is None,
            },
    {
        if self.write_offset <= prev {
            return None;
        }
        let missing: u64 = self.write_offset - prev;
        let msg = if missing <= self.terminal_data.len() as u64 {
            let n: usize = if missing <= MAX_DELTA_CAP as u64 {
                missing as usize
            } else {
                MAX_DELTA_CAP
            };
            let data = crypto::b64_encode(tail_of(self.terminal_data.as_slice(), n));
            Json::object().put_text("type", "delta").put_text("data", data.as_str())
        } else {
            let data = crypto::b64_encode(tail_of(self.terminal_data.as_slice(), MAX_DELTA_CAP));
            Json::object().put_text("type", "full").put_text("terminal_data", data.as_str()).put_uint(
                "rows",
                self.rows as u64,
            ).put_uint("cols", self.cols as u64)
        };
        Some((msg, self.write_offset))
    }

    /// The first message on a connection: at most the last 64 KiB.
    pub fn init_msg(&self) -> (r: Json)
        ensures
            r@ == init_json(self@),
    {
        let data = crypto::b64_encode(tail_of(self.terminal_data.as_slice(), MAX_WS_INIT_BYTES));
        Json::object().put_text("type", "init").put_text("terminal_data", data.as_str()).put_uint(
            "rows",
            self.rows as u64,
        ).put_uint("cols", self.cols as u64)
    }

    /// A copy of the buffer.
    pub fn copy(&self) -> (r: SessionBuffer)
        ensures
            r@ == self@,
    {
        SessionBuffer {
            terminal_data: bytes::copy_bytes(self.terminal_data.as_slice()),
            rows: self.rows,
            cols: self.cols,
            write_offset: self.write_offset,
        }
    }
}

impl SessionStore {
    /// A store without contents.
    pub fn new() -> (r: Self)
        ensures
            r@ is None,
    {
        SessionStore { buffer: None }
    }

    /// Replaces the contents.
    pub fn update(&mut self, raw_bytes: Vec<u8>, rows: u16, cols: u16, write_offset: u64)
        ensures
            final(self)@ == Some(
                (SessionBufferView { terminal_data: raw_bytes@, rows, cols, write_offset }),
            ),
    {
        self.buffer = Some(SessionBuffer { terminal_data: raw_bytes, rows, cols, write_offset });
    }

    /// A copy of the contents.
    pub fn get(&self) -> (r: Option<SessionBuffer>)
        ensures
            match r {
                Some(b) => self@ == Some(b@),
                None => self@ is None,
            },
    {
        match &self.buffer {
            Some(b) => Some(b.copy()),
            None => None,
        }
    }

    /// The message for a browser that has seen `prev` bytes, and how many it has
    /// seen after it. There is none where nothing new was written.
    pub fn delta_msg(&self, prev: u64) -> (r: Option<(Json, u64)>)
        ensures
            match r {
                Some((j, n)) => delta_of(self@, prev) == Some((j@, n)),
                None => delta_of(self@, prev) is None,
            },
    {
        match &self.buffer {
            Some(b) => b.delta_msg(prev),
            None => None,
        }
    }
}

// ── Taking in output ────────────────────────────────────────────────

/// Terminal output as it comes in: the last bytes, and how many there ever were.
#[derive(Debug)]
pub struct Pusher {
    accumulated: Vec<u8>,
    write_offset: u64,
    cap: usize,
}

/// The mathematical value of a [`Pusher`].
#[verifier::ext_equal]
pub struct PusherView {
    pub accumulated: Seq<u8>,
    pub write_offset: u64,
    pub cap: usize,
}

impl View for Pusher {
    type V = PusherView;

    closed spec fn view(&self) -> PusherView {
        PusherView {
            accumulated: self.accumulated@,
            write_offset: self.write_offset,
            cap: self.cap,
        }
    }
}

impl PusherView {
    /// Whether this is what remains of the given output: its length, and its end
    /// with at least the bytes that are kept.
    pub open spec fn follows(self, output: Seq<u8>) -> bool {
        &&& self.write_offset == output.len()
        &&& self.accumulated.len() <= output.len()
        &&& self.accumulated == tail(output, self.accumulated.len() as int)
        &&& self.accumulated.len() < output.len() ==> self.accumulated.len() >= self.cap
    }
}

impl Pusher {
    /// A pusher that keeps the last `cap` bytes.
    pub fn new(cap: usize) -> (r: Self)
        ensures
            r@ == (PusherView { accumulated: Seq::empty(), write_offset: 0, cap }),
            r@.follows(Seq::empty()),
    {
        let r = Pusher { accumulated: Vec::new(), write_offset: 0, cap };
        assert(r@.accumulated =~= Seq::empty());
        r
    }

    /// Takes in output.
    pub fn receive(&mut self, data: &[u8])
        requires
            old(self)@.write_offset + data@.len() <= u64::MAX,
        ensures
            final(self)@.accumulated == old(self)@.accumulated + data@,
            final(self)@.write_offset == old(self)@.write_offset + data@.len(),
            final(self)@.cap == old(self)@.cap,
            forall|output: Seq<u8>| #[trigger]
                old(self)@.follows(output) ==> final(self)@.follows(output + data@),
    {
        self.write_offset = self.write_offset + data.len() as u64;
        self.accumulated.extend_from_slice(data);
        assert(self.accumulated@ =~= old(self).accumulated@ + data@);
        assert forall|output: Seq<u8>| #[trigger] old(self)@.follows(output) implies self@.follows(
            output + data@,
        ) by {
            assert(self@.accumulated =~= tail(output + data@, self@.accumulated.len() as int));
        }
    }

    /// What is to be shown now, and the event that says so; nothing before there
    /// was any output. At most the last `cap` bytes are kept.
    pub fn publish(&mut self, rows: u16, cols: u16) -> (r: Option<(SessionBuffer, AgentEvent)>)
        ensures
            final(self)@.accumulated == tail(old(self)@.accumulated, old(self)@.cap as int),
            final(self)@.write_offset == old(self)@.write_offset,
            final(self)@.cap == old(self)@.cap,
            match r {
                None => old(self)@.accumulated.len() == 0,
                Some((b, e)) => {
                    &&& old(self)@.accumulated.len() > 0
                    &&& b@ == (SessionBufferView {
                        terminal_data: final(self)@.accumulated,
                        rows,
                        cols,
                        write_offset: old(self)@.write_offset,
                    })
                    &&& e@ == (AgentEventView::SessionUpdated {
                        size: final(self)@.accumulated.len() as usize,
                    })
                },
            },
            forall|output: Seq<u8>| #[trigger]
                old(self)@.follows(output) ==> final(self)@.follows(output),
    {
        let n: usize = self.accumulated.len();
        if n == 0 {
            assert(tail(self.accumulated@, self.cap as int) =~= self.accumulated@);
            return None;
        }
        if n > self.cap {
            let kept = bytes::copy_bytes(tail_of(self.accumulated.as_slice(), self.cap));
            self.accumulated = kept;
        }
        let ghost acc = old(self)@.accumulated;
        assert forall|output: Seq<u8>| #[trigger] old(self)@.follows(output) implies self@.follows(
            output,
        ) by {
            assert(acc == tail(output, acc.len() as int));
            assert(self@.accumulated =~= tail(output, self@.accumulated.len() as int));
        }
        let shown = SessionBuffer {
            terminal_data: bytes::copy_bytes(self.accumulated.as_slice()),
            rows,
            cols,
            write_offset: self.write_offset,
        };
        let size: usize = self.accumulated.len();
        Some((shown, AgentEvent::SessionUpdated { size }))
    }
}

// ── Laws ────────────────────────────────────────────────────────────

/// Whether the buffer holds the end of the given output.
pub open spec fn shows(b: SessionBufferView, output: Seq<u8>) -> bool {
    &&& b.write_offset == output.len()
    &&& b.terminal_data.len() <= output.len()
    &&& b.terminal_data == tail(output, b.terminal_data.len() as int)
}

/// A browser that has seen the first `prev` bytes of the output and misses no
/// more than one message carries gets exactly the bytes that it misses.
pub proof fn law_delta_exact(b: SessionBufferView, output: Seq<u8>, prev: u64)
    requires
        shows(b, output),
        prev < b.write_offset,
        b.write_offset - prev <= b.terminal_data.len(),
        b.write_offset - prev <= MAX_DELTA_CAP,
    ensures
        delta_of(Some(b), prev) == Some(
            (
                JsonView::object().put_text("type"@, "delta"@).put_text(
                    "data"@,
                    crypto::b64(output.skip(prev as int)),
                ),
                output.len() as u64,
            ),
        ),
{
    let n = b.write_offset - prev;
    assert(tail(b.terminal_data, n) =~= output.skip(prev as int));
}

/// Whatever it gets, a browser gets the end of the output, and is up to date after it:
/// nothing more is due until something new is written.
pub proof fn law_delta_up_to_date(b: SessionBufferView, output: Seq<u8>, prev: u64, n: int)
    requires
        shows(b, output),
        0 <= n,
    ensures
        delta_of(Some(b), prev) matches Some((_, seen)) ==> seen == output.len() && delta_of(
            Some(b),
            seen,
        ) is None,
        delta_of(Some(b), prev) is None <==> output.len() <= prev,
        n <= b.terminal_data.len() ==> tail(b.terminal_data, n) == tail(output, n),
{
    if n <= b.terminal_data.len() {
        assert(tail(b.terminal_data, n) =~= tail(output, n));
    }
}

/// A browser that connects sees the end of the terminal, with its size.
pub proof fn law_init_told(b: SessionBufferView)
    ensures
        init_json(b).is("type"@, "init"@),
        init_json(b).text("terminal_data"@) == Some(
            crypto::b64(tail(b.terminal_data, MAX_WS_INIT_BYTES as int)),
        ),
        b.terminal_data.len() <= MAX_WS_INIT_BYTES ==> init_json(b).text("terminal_data"@) == Some(
            crypto::b64(b.terminal_data),
        ),
        init_json(b).uint("rows"@) == Some(b.rows as u64),
        init_json(b).uint("cols"@) == Some(b.cols as u64),
{
    broadcast use crate::json::lemma_put_field;
    broadcast use crate::json::lemma_object_field;

    reveal_strlit("type");
    reveal_strlit("terminal_data");
    reveal_strlit("rows");
    reveal_strlit("cols");
    assert("type"@.len() == 4 && "terminal_data"@.len() == 13 && "rows"@.len() == 4 && "cols"@.len() == 4);
    assert("type"@[0] != "rows"@[0]);
    assert("type"@[0] != "cols"@[0]);
    assert("rows"@[0] != "cols"@[0]);
}

/// The end of some bytes is what they end with.
pub proof fn law_tail(a: Seq<u8>, b: Seq<u8>)
    ensures
        tail(a + b, b.len() as int) == b,
        tail(b, b.len() as int) == b,
{
    assert((a + b).skip(a.len() as int) =~= b);
    if a.len() == 0 {
        assert(a + b =~= b);
    }
}

} // verus!
