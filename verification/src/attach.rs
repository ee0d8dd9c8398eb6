//! A terminal that is attached to the daemon.

use vstd::prelude::*;

use crate::protocol::{Message, MessageView};

verus! {

/// Why an attached session ended.
#[derive(Debug, Clone, Copy, PartialEq, Eq, Structural)]
pub enum ExitReason {
    ChildExited,
    Disconnected,
    Detached,
    Stopped,
}

/// What the user asked for with the keys that are not input.
#[derive(Debug, Clone, Copy, PartialEq, Eq, Structural)]
pub enum StdinSignal {
    Detach,
    Stop,
}

/// The byte of Ctrl+B, which introduces such keys.
pub const PREFIX: u8 = 0x02;

/// Why a session cannot be attached, where that is so: no daemon runs, or it cannot
/// be reached.
pub fn refusal(running: bool, reachable: bool) -> (r: Option<&'static str>)
    ensures
        match r {
            Some(m) => !(running && reachable) && m@ == (if !running {
                "No Babel3 daemon running.\nStart one with: b3 start"@
            } else {
                "Daemon PID file exists but IPC endpoint is missing.\nThe daemon may have crashed. Try: b3 stop && b3 start"@
            }),
            None => running && reachable,
        },
{
    if !running {
        Some("No Babel3 daemon running.\nStart one with: b3 start")
    } else if !reachable {
        Some(
            "Daemon PID file exists but IPC endpoint is missing.\nThe daemon may have crashed. Try: b3 stop && b3 start",
        )
    } else {
        None
    }
}

/// What became of bytes that the user typed.
#[derive(Debug)]
pub struct Typed {
    /// What to pass to the terminal.
    pub input: Vec<u8>,
    /// Why the session ends, where it does.
    pub signal: Option<StdinSignal>,
}

/// Whether a byte after Ctrl+B detaches the session.
pub open spec fn detaches(b: u8) -> bool {
    b == 100 || b == 68
}

/// Whether a byte after Ctrl+B stops the daemon.
pub open spec fn stops(b: u8) -> bool {
    b == 113 || b == 81
}

/// What the bytes from `i` on give: the bytes to pass on, whether Ctrl+B waits for its
/// second byte, and why the session ends.
pub open spec fn passed(data: Seq<u8>, prefix: bool, i: int) -> (
    Seq<u8>,
    bool,
    Option<StdinSignal>,
)
    decreases data.len() - i,
{
    if i >= data.len() {
        (Seq::empty(), prefix, None)
    } else if prefix {
        if detaches(data[i]) {
            (Seq::empty(), false, Some(StdinSignal::Detach))
        } else if stops(data[i]) {
            (Seq::empty(), false, Some(StdinSignal::Stop))
        } else {
            let (rest, p, s) = passed(data, false, i + 1);
            (seq![PREFIX, data[i]] + rest, p, s)
        }
    } else if data[i] == PREFIX {
        passed(data, true, i + 1)
    } else {
        let (rest, p, s) = passed(data, false, i + 1);
        (seq![data[i]] + rest, p, s)
    }
}

/// What the user's bytes give. All of them are passed on up to the keys that end the
/// session; a Ctrl+B that came last waits for its second byte.
pub open spec fn typed(data: Seq<u8>, prefix: bool) -> (Seq<u8>, bool, Option<StdinSignal>) {
    passed(data, prefix, 0)
}

/// Takes bytes that the user typed. `prefix` says whether Ctrl+B waits for its second
/// byte.
pub fn type_bytes(prefix: &mut bool, data: &[u8]) -> (r: Typed)
    ensures
        (r.input@, *final(prefix), r.signal) == typed(data@, *old(prefix)),
{
    let ghost all = typed(data@, *prefix);
    let mut input: Vec<u8> = Vec::new();
    let mut i: usize = 0;
    assert(input@ + all.0 =~= all.0);
    while i < data.len()
        invariant
            i <= data@.len(),
            all == typed(data@, *old(prefix)),
            ({
                let (rest, p, s) = passed(data@, *prefix, i as int);
                all == (input@ + rest, p, s)
            }),
        decreases data.len() - i,
    {
        let b: u8 = data[i];
        let ghost before = input@;
        let ghost rest = passed(data@, false, i + 1).0;
        if *prefix {
            if b == 100 || b == 68 {
                *prefix = false;
                assert(before + Seq::empty() =~= before);
                return Typed { input, signal: Some(StdinSignal::Detach) };
            }
            if b == 113 || b == 81 {
                *prefix = false;
                assert(before + Seq::empty() =~= before);
                return Typed { input, signal: Some(StdinSignal::Stop) };
            }
            *prefix = false;
            input.push(PREFIX);
            input.push(b);
            assert(input@ + rest =~= before + (seq![PREFIX, b] + rest));
        } else if b == PREFIX {
            *prefix = true;
        } else {
            input.push(b);
            assert(input@ + rest =~= before + (seq![b] + rest));
        }
        i = i + 1;
    }
    assert(input@ + Seq::empty() =~= input@);
    Typed { input, signal: None }
}

/// The Ctrl+B that waits, where one does.
pub open spec fn held(prefix: bool) -> Seq<u8> {
    if prefix {
        seq![PREFIX]
    } else {
        Seq::empty()
    }
}

/// While the session goes on, every byte is passed on once and in order; only a
/// Ctrl+B that came last is held back.
pub proof fn law_passed_once(data: Seq<u8>, prefix: bool)
    ensures
        ({
            let (out, p, s) = typed(data, prefix);
            s is None ==> out + held(p) == held(prefix) + data
        }),
{
    lemma_passed(data, prefix, 0);
    assert(data.skip(0) =~= data);
}

proof fn lemma_passed(data: Seq<u8>, prefix: bool, i: int)
    requires
        0 <= i <= data.len(),
    ensures
        ({
            let (out, p, s) = passed(data, prefix, i);
            s is None ==> out + held(p) == held(prefix) + data.skip(i)
        }),
    decreases data.len() - i,
{
    let (out, p, s) = passed(data, prefix, i);
    if i >= data.len() {
        assert(out + held(p) =~= held(prefix) + data.skip(i));
    } else {
        let next = !prefix && data[i] == PREFIX;
        let (rest, q, t) = passed(data, next, i + 1);
        lemma_passed(data, next, i + 1);
        assert(data.skip(i) =~= seq![data[i]] + data.skip(i + 1));
        if s is None {
            assert(out + held(p) =~= held(prefix) + data.skip(i));
        }
    }
}

/// It makes no difference how the bytes were split into reads.
pub proof fn law_reads_joined(a: Seq<u8>, b: Seq<u8>, prefix: bool)
    ensures
        ({
            let (out, p, s) = typed(a, prefix);
            let (more, q, t) = typed(b, p);
            typed(a + b, prefix) == (if s is Some {
                (out, p, s)
            } else {
                (out + more, q, t)
            })
        }),
{
    lemma_joined(a, b, prefix, 0);
}

proof fn lemma_joined(a: Seq<u8>, b: Seq<u8>, prefix: bool, i: int)
    requires
        0 <= i <= a.len(),
    ensures
        ({
            let (out, p, s) = passed(a, prefix, i);
            let (more, q, t) = passed(b, p, 0);
            passed(a + b, prefix, i) == (if s is Some {
                (out, p, s)
            } else {
                (out + more, q, t)
            })
        }),
    decreases a.len() - i,
{
    let (out, p, s) = passed(a, prefix, i);
    let more = passed(b, p, 0).0;
    if i >= a.len() {
        lemma_shifted(a, b, prefix, 0);
        assert(Seq::<u8>::empty() + more =~= more);
    } else {
        let next = !prefix && a[i] == PREFIX;
        assert((a + b)[i] == a[i]);
        lemma_joined(a, b, next, i + 1);
        let rest = passed(a, next, i + 1).0;
        assert(seq![PREFIX, a[i]] + (rest + more) =~= (seq![PREFIX, a[i]] + rest) + more);
        assert(seq![a[i]] + (rest + more) =~= (seq![a[i]] + rest) + more);
    }
}

proof fn lemma_shifted(a: Seq<u8>, b: Seq<u8>, prefix: bool, i: int)
    requires
        0 <= i <= b.len(),
    ensures
        passed(a + b, prefix, a.len() + i) == passed(b, prefix, i),
    decreases b.len() - i,
{
    if i < b.len() {
        assert((a + b)[a.len() + i] == b[i]);
        lemma_shifted(a, b, !prefix && b[i] == PREFIX, i + 1);
    }
}

/// Input without Ctrl+B is passed on as it is.
pub proof fn law_plain_input(data: Seq<u8>)
    requires
        forall|i: int| 0 <= i < data.len() ==> #[trigger] data[i] != PREFIX,
    ensures
        typed(data, false) == (data, false, None::<StdinSignal>),
{
    lemma_plain(data, 0);
    law_passed_once(data, false);
    assert(typed(data, false).0 + held(false) =~= typed(data, false).0);
    assert(held(false) + data =~= data);
}

proof fn lemma_plain(data: Seq<u8>, i: int)
    requires
        0 <= i <= data.len(),
        forall|i: int| 0 <= i < data.len() ==> #[trigger] data[i] != PREFIX,
    ensures
        passed(data, false, i).1 == false,
        passed(data, false, i).2 is None,
    decreases data.len() - i,
{
    if i < data.len() {
        lemma_plain(data, i + 1);
    }
}

/// Ctrl+B and then `d` detach the session, also where they come one at a time, and
/// nothing of them reaches the terminal.
pub proof fn law_detach(rest: Seq<u8>)
    ensures
        typed(seq![PREFIX], false) == (Seq::<u8>::empty(), true, None::<StdinSignal>),
        typed(seq![100u8] + rest, true) == (Seq::<u8>::empty(), false, Some(StdinSignal::Detach)),
        typed(seq![PREFIX, 100u8] + rest, false) == (
            Seq::<u8>::empty(),
            false,
            Some(StdinSignal::Detach),
        ),
{
    reveal_with_fuel(passed, 3);
}

/// What to do with what the daemon sent.
#[derive(Debug)]
pub enum OutputStep {
    /// Show it.
    Write(Vec<u8>),
    /// The assistant ended, with the given code.
    Exited(i32),
    Disconnected,
    Ignore,
}

/// The mathematical value of an [`OutputStep`].
#[verifier::ext_equal]
pub enum OutputStepView {
    Write(Seq<u8>),
    Exited(i32),
    Disconnected,
    Ignore,
}

impl View for OutputStep {
    type V = OutputStepView;

    open spec fn view(&self) -> OutputStepView {
        match self {
            OutputStep::Write(a) => OutputStepView::Write(a@),
            OutputStep::Exited(a) => OutputStepView::Exited(*a),
            OutputStep::Disconnected => OutputStepView::Disconnected,
            OutputStep::Ignore => OutputStepView::Ignore,
        }
    }
}

/// What to do with what the daemon sent; nothing came where the connection is gone.
pub fn on_output(m: Option<Message>) -> (r: OutputStep)
    ensures
        r@ == (match m {
            None => OutputStepView::Disconnected,
            Some(x) => match x@ {
                MessageView::Output(b) => OutputStepView::Write(b),
                MessageView::Exited(code) => OutputStepView::Exited(code),
                _ => OutputStepView::Ignore,
            },
        }),
{
    match m {
        None => OutputStep::Disconnected,
        Some(Message::Output(b)) => OutputStep::Write(b),
        Some(Message::Exited(code)) => OutputStep::Exited(code),
        Some(_) => OutputStep::Ignore,
    }
}

/// The size that the daemon greets with, where its first message is a greeting.
pub fn greeting(m: &Message) -> (r: Option<(u16, u16)>)
    ensures
        r == (match m@ {
            MessageView::Welcome { rows, cols } => Some((rows, cols)),
            _ => None,
        }),
{
    match m {
        Message::Welcome { rows, cols } => Some((*rows, *cols)),
        _ => None,
    }
}

/// The message that tells the daemon of a new size, given as columns and rows; none
/// where it did not change.
pub fn resized(last: &mut (u16, u16), size: (u16, u16)) -> (r: Option<Message>)
    ensures
        *final(last) == size,
        match r {
            Some(m) => size != *old(last) && m@ == (MessageView::Resize {
                rows: size.1,
                cols: size.0,
            }),
            None => size == *old(last),
        },
{
    if size.0 == last.0 && size.1 == last.1 {
        None
    } else {
        *last = size;
        Some(Message::Resize { rows: size.1, cols: size.0 })
    }
}

/// Why the session ended, by the keys of the user; without them it ended
/// unexpectedly.
pub fn ended(signal: Option<StdinSignal>) -> (r: ExitReason)
    ensures
        r == (match signal {
            Some(StdinSignal::Detach) => ExitReason::Detached,
            Some(StdinSignal::Stop) => ExitReason::Stopped,
            None => ExitReason::Disconnected,
        }),
{
    match signal {
        Some(StdinSignal::Detach) => ExitReason::Detached,
        Some(StdinSignal::Stop) => ExitReason::Stopped,
        None => ExitReason::Disconnected,
    }
}

} // verus!
