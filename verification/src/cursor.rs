//! Limits how far terminal output may move the cursor up.
//!
//! Programs that redraw more than the visible screen send the cursor into the
//! scrollback, and the terminal jumps to the top. Cursor-up sequences are cut
//! off once a run of them has reached the limit.

use vstd::prelude::*;
use vstd::slice::slice_subrange;

use crate::bytes;
use crate::text;

verus! {

/// The most rows that a run of cursor-up sequences may move.
pub const MAX_CURSOR_UP_ROWS: usize = 100;

/// A part of terminal output.
#[verifier::ext_equal]
pub enum Token {
    /// A cursor-up sequence, the rows that it moves and its bytes.
    Up { rows: nat, raw: Seq<u8> },
    /// Anything else. `ends_run` says whether it ends a run of cursor-up sequences.
    Other { ends_run: bool, raw: Seq<u8> },
}

// ── Reading output ──────────────────────────────────────────────────

pub open spec fn is_digit(b: u8) -> bool {
    48 <= b <= 57
}

/// The first position at or after `i` that holds no digit, or the length.
pub open spec fn digits_end(s: Seq<u8>, i: int) -> int
    decreases s.len() - i,
{
    if i >= s.len() {
        s.len() as int
    } else if is_digit(s[i]) {
        digits_end(s, i + 1)
    } else {
        i
    }
}

/// The number that decimal digits write.
pub open spec fn number(s: Seq<u8>) -> nat
    decreases s.len(),
{
    if s.len() == 0 {
        0
    } else {
        number(s.drop_last()) * 10 + (s.last() - 48) as nat
    }
}

/// The rows that the parameter of a cursor-up sequence asks for, however many: one
/// where it is missing.
pub open spec fn rows_of(digits: Seq<u8>) -> nat {
    if digits.len() == 0 {
        1
    } else {
        number(digits)
    }
}

/// Whether output begins with ESC and `[`.
pub open spec fn starts_sequence(s: Seq<u8>) -> bool {
    s.len() >= 2 && s[0] == 0x1b && s[1] == 0x5b
}

/// The token that output begins with.
pub open spec fn first_token(s: Seq<u8>) -> Token {
    if starts_sequence(s) {
        let e = digits_end(s, 2);
        if e < s.len() && s[e] == 0x41 {
            Token::Up { rows: rows_of(s.subrange(2, e)), raw: s.take(e + 1) }
        } else if e < s.len() {
            Token::Other { ends_run: true, raw: s.take(e + 1) }
        } else {
            Token::Other { ends_run: true, raw: s }
        }
    } else {
        Token::Other {
            ends_run: s[0] >= 0x20 && s[0] != 0x7f,
            raw: s.take(1),
        }
    }
}

/// The bytes of a token.
pub open spec fn raw(t: Token) -> Seq<u8> {
    match t {
        Token::Up { rows, raw } => raw,
        Token::Other { ends_run, raw } => raw,
    }
}

/// The tokens of output.
pub open spec fn tokens(s: Seq<u8>) -> Seq<Token>
    decreases s.len(),
    when s.len() >= 0
    via tokens_decreases
{
    if s.len() == 0 {
        Seq::empty()
    } else {
        seq![first_token(s)] + tokens(s.skip(raw(first_token(s)).len() as int))
    }
}

#[via_fn]
proof fn tokens_decreases(s: Seq<u8>) {
    if s.len() > 0 {
        lemma_first_token(s);
    }
}

/// The bytes of several tokens.
pub open spec fn render(ts: Seq<Token>) -> Seq<u8>
    decreases ts.len(),
{
    if ts.len() == 0 {
        Seq::empty()
    } else {
        raw(ts[0]) + render(ts.skip(1))
    }
}

// ── Limiting it ─────────────────────────────────────────────────────

/// The sequence that moves the cursor up by `rows`.
pub open spec fn up_sequence(rows: nat) -> Seq<u8> {
    seq![0x1bu8, 0x5bu8] + vstd::utf8::encode_utf8(text::decimal(rows)) + seq![0x41u8]
}

/// Tokens with the limit applied, where the current run has asked for `up` rows.
pub open spec fn limited(ts: Seq<Token>, up: nat) -> Seq<Token>
    decreases ts.len(),
{
    if ts.len() == 0 {
        Seq::empty()
    } else {
        match ts[0] {
            Token::Up { rows, raw } => if up + rows <= MAX_CURSOR_UP_ROWS {
                seq![ts[0]] + limited(ts.skip(1), up + rows)
            } else if up < MAX_CURSOR_UP_ROWS {
                let left = (MAX_CURSOR_UP_ROWS - up) as nat;
                seq![Token::Up { rows: left, raw: up_sequence(left) }] + limited(
                    ts.skip(1),
                    up + rows,
                )
            } else {
                limited(ts.skip(1), up + rows)
            },
            Token::Other { ends_run, raw } => seq![ts[0]] + limited(
                ts.skip(1),
                if ends_run {
                    0
                } else {
                    up
                },
            ),
        }
    }
}

/// What terminal output becomes.
pub open spec fn clamped(s: Seq<u8>) -> Seq<u8> {
    render(limited(tokens(s), 0))
}

/// Whether every run of cursor-up sequences stays within the limit, where the
/// current one has moved `up` rows.
pub open spec fn runs_within(ts: Seq<Token>, up: nat) -> bool
    decreases ts.len(),
{
    if ts.len() == 0 {
        true
    } else {
        match ts[0] {
            Token::Up { rows, raw } => up + rows <= MAX_CURSOR_UP_ROWS && runs_within(
                ts.skip(1),
                up + rows,
            ),
            Token::Other { ends_run, raw } => runs_within(
                ts.skip(1),
                if ends_run {
                    0
                } else {
                    up
                },
            ),
        }
    }
}

/// The tokens that are no cursor-up sequences.
pub open spec fn others(ts: Seq<Token>) -> Seq<Token>
    decreases ts.len(),
{
    if ts.len() == 0 {
        Seq::empty()
    } else if ts[0] is Other {
        seq![ts[0]] + others(ts.skip(1))
    } else {
        others(ts.skip(1))
    }
}

// ── Laws ────────────────────────────────────────────────────────────

proof fn lemma_digits_end(s: Seq<u8>, i: int)
    requires
        0 <= i <= s.len(),
    ensures
        i <= digits_end(s, i) <= s.len(),
        forall|j: int| i <= j < digits_end(s, i) ==> is_digit(#[trigger] s[j]),
    decreases s.len() - i,
{
    if i < s.len() && is_digit(s[i]) {
        lemma_digits_end(s, i + 1);
    }
}

proof fn lemma_first_token(s: Seq<u8>)
    requires
        s.len() > 0,
    ensures
        0 < raw(first_token(s)).len() <= s.len(),
        raw(first_token(s)) == s.take(raw(first_token(s)).len() as int),
{
    if starts_sequence(s) {
        lemma_digits_end(s, 2);
        assert(s.take(s.len() as int) =~= s);
    }
}

/// The tokens of output hold all of it, in order.
pub proof fn law_tokens_complete(s: Seq<u8>)
    ensures
        render(tokens(s)) == s,
    decreases s.len(),
{
    if s.len() > 0 {
        lemma_first_token(s);
        let t = first_token(s);
        let n = raw(t).len() as int;
        law_tokens_complete(s.skip(n));
        assert(tokens(s).skip(1) =~= tokens(s.skip(n)));
        assert(s =~= s.take(n) + s.skip(n));
    } else {
        assert(render(tokens(s)) =~= s);
    }
}

/// No run of cursor-up sequences that is let through moves more than the limit.
pub proof fn law_runs_limited(ts: Seq<Token>, up: nat)
    ensures
        runs_within(
            limited(ts, up),
            if up <= MAX_CURSOR_UP_ROWS {
                up
            } else {
                MAX_CURSOR_UP_ROWS as nat
            },
        ),
    decreases ts.len(),
{
    if ts.len() > 0 {
        let rest = ts.skip(1);
        match ts[0] {
            Token::Up { rows, raw } => {
                law_runs_limited(rest, up + rows);
                if up + rows <= MAX_CURSOR_UP_ROWS || up < MAX_CURSOR_UP_ROWS {
                    assert(limited(ts, up).skip(1) =~= limited(rest, up + rows));
                }
            },
            Token::Other { ends_run, raw } => {
                let next: nat = if ends_run {
                    0
                } else {
                    up
                };
                law_runs_limited(rest, next);
                assert(limited(ts, up).skip(1) =~= limited(rest, next));
            },
        }
    }
}

/// Everything but cursor-up sequences is let through, in order.
pub proof fn law_others_kept(ts: Seq<Token>, up: nat)
    ensures
        others(limited(ts, up)) == others(ts),
    decreases ts.len(),
{
    if ts.len() > 0 {
        let rest = ts.skip(1);
        match ts[0] {
            Token::Up { rows, raw } => {
                law_others_kept(rest, up + rows);
                if up + rows <= MAX_CURSOR_UP_ROWS || up < MAX_CURSOR_UP_ROWS {
                    assert(limited(ts, up).skip(1) =~= limited(rest, up + rows));
                }
            },
            Token::Other { ends_run, raw } => {
                let next: nat = if ends_run {
                    0
                } else {
                    up
                };
                law_others_kept(rest, next);
                assert(limited(ts, up).skip(1) =~= limited(rest, next));
            },
        }
    }
}

/// Tokens whose runs stay within the limit are let through as they are.
pub proof fn law_within_unchanged(ts: Seq<Token>, up: nat)
    requires
        runs_within(ts, up),
    ensures
        limited(ts, up) == ts,
    decreases ts.len(),
{
    if ts.len() > 0 {
        let next: nat = match ts[0] {
            Token::Up { rows, raw } => up + rows,
            Token::Other { ends_run, raw } => if ends_run {
                0
            } else {
                up
            },
        };
        law_within_unchanged(ts.skip(1), next);
        assert(ts =~= seq![ts[0]] + ts.skip(1));
    } else {
        assert(limited(ts, up) =~= ts);
    }
}

/// Output without an escape byte holds no cursor-up sequence.
proof fn lemma_no_escape(s: Seq<u8>, up: nat)
    requires
        forall|i: int| 0 <= i < s.len() ==> #[trigger] s[i] != 0x1b,
        up <= MAX_CURSOR_UP_ROWS,
    ensures
        runs_within(tokens(s), up),
    decreases s.len(),
{
    if s.len() > 0 {
        assert(s[0] != 0x1b);
        let next: nat = if s[0] >= 0x20 && s[0] != 0x7f {
            0
        } else {
            up
        };
        assert(tokens(s).skip(1) =~= tokens(s.skip(1)));
        assert forall|i: int| 0 <= i < s.skip(1).len() implies #[trigger] s.skip(1)[i] != 0x1b by {
            assert(s.skip(1)[i] == s[i + 1]);
        }
        lemma_no_escape(s.skip(1), next);
    }
}

// ── Operation ───────────────────────────────────────────────────────

/// The rows that the parameter of a cursor-up sequence asks for, or the largest
/// number where they do not fit.
fn parse_rows(digits: &[u8]) -> (r: usize)
    requires
        forall|i: int| 0 <= i < digits@.len() ==> is_digit(#[trigger] digits@[i]),
    ensures
        r == if rows_of(digits@) <= usize::MAX {
            rows_of(digits@)
        } else {
            usize::MAX as nat
        },
{
    if digits.len() == 0 {
        return 1;
    }
    let mut value: usize = 0;
    let mut over: bool = false;
    let mut i: usize = 0;
    while i < digits.len()
        invariant
            i <= digits.len(),
            forall|k: int| 0 <= k < digits@.len() ==> is_digit(#[trigger] digits@[k]),
            over ==> number(digits@.take(i as int)) > usize::MAX,
            !over ==> number(digits@.take(i as int)) == value,
        decreases digits.len() - i,
    {
        assert(is_digit(digits@[i as int]));
        let d: usize = (digits[i] - 48) as usize;
        assert(digits@.take(i + 1).drop_last() =~= digits@.take(i as int));
        assert(number(digits@.take(i + 1)) == number(digits@.take(i as int)) * 10 + d);
        if !over {
            if value > usize::MAX / 10 || value * 10 > usize::MAX - d {
                over = true;
            } else {
                value = value * 10 + d;
            }
        }
        i = i + 1;
    }
    assert(digits@.take(digits@.len() as int) =~= digits@);
    if over {
        usize::MAX
    } else {
        value
    }
}

/// The sequence that moves the cursor up by `rows`.
fn up_bytes(rows: usize) -> (r: Vec<u8>)
    ensures
        r@ == up_sequence(rows as nat),
{
    let d = text::to_decimal(rows as u64);
    let b = bytes::bytes_of(d.as_str());
    let mut out: Vec<u8> = Vec::new();
    out.push(0x1b);
    out.push(0x5b);
    out.extend_from_slice(b.as_slice());
    out.push(0x41);
    assert(out@ =~= up_sequence(rows as nat));
    out
}

/// Applies the limit to the next token.
proof fn lemma_step(s: Seq<u8>, up: nat)
    requires
        s.len() > 0,
    ensures
        ({
            let t = first_token(s);
            let rest = s.skip(raw(t).len() as int);
            match t {
                Token::Up { rows, raw } => render(limited(tokens(s), up)) == (if up + rows
                    <= MAX_CURSOR_UP_ROWS {
                    raw
                } else if up < MAX_CURSOR_UP_ROWS {
                    up_sequence((MAX_CURSOR_UP_ROWS - up) as nat)
                } else {
                    Seq::empty()
                }) + render(limited(tokens(rest), up + rows)),
                Token::Other { ends_run, raw } => render(limited(tokens(s), up)) == raw + render(
                    limited(
                        tokens(rest),
                        if ends_run {
                            0
                        } else {
                            up
                        },
                    ),
                ),
            }
        }),
{
    lemma_first_token(s);
    let t = first_token(s);
    let rest = s.skip(raw(t).len() as int);
    assert(tokens(s).skip(1) =~= tokens(rest));
    assert(tokens(s)[0] == t);
    match t {
        Token::Up { rows, raw } => {
            let tail = limited(tokens(rest), up + rows);
            if up + rows <= MAX_CURSOR_UP_ROWS || up < MAX_CURSOR_UP_ROWS {
                assert(limited(tokens(s), up).skip(1) =~= tail);
            } else {
                assert(Seq::<u8>::empty() + render(tail) =~= render(tail));
            }
        },
        Token::Other { ends_run, raw } => {
            let tail = limited(
                tokens(rest),
                if ends_run {
                    0
                } else {
                    up
                },
            );
            assert(limited(tokens(s), up).skip(1) =~= tail);
        },
    }
}

/// Digits that end before the output does end in the same place when more follows.
proof fn lemma_digits_end_more(a: Seq<u8>, c: Seq<u8>, i: int)
    requires
        0 <= i <= a.len(),
        digits_end(a, i) < a.len(),
    ensures
        digits_end(a + c, i) == digits_end(a, i),
    decreases a.len() - i,
{
    if i < a.len() {
        assert((a + c)[i] == a[i]);
        if is_digit(a[i]) {
            lemma_digits_end_more(a, c, i + 1);
        }
    }
}

/// Digits up to a position that holds none end there.
proof fn lemma_digits_end_at(s: Seq<u8>, i: int, e: int)
    requires
        0 <= i <= e < s.len(),
        forall|k: int| i <= k < e ==> is_digit(#[trigger] s[k]),
        !is_digit(s[e]),
    ensures
        digits_end(s, i) == e,
    decreases e - i,
{
    if i < e {
        assert(is_digit(s[i]));
        lemma_digits_end_at(s, i + 1, e);
    }
}

/// Whether the last part of output, from an escape byte at `i` on, may go on in what
/// follows: nothing stands behind the escape byte, or `[` and digits alone.
pub open spec fn pending(a: Seq<u8>, i: int) -> bool {
    a[i] == 0x1b && (i + 1 == a.len() || (a[i + 1] == 0x5b && forall|k: int|
        i + 2 <= k < a.len() ==> is_digit(#[trigger] a[k])))
}

/// Whether no part of output may go on in what follows.
pub open spec fn settled(a: Seq<u8>) -> bool {
    forall|i: int| 0 <= i < a.len() ==> !#[trigger] pending(a, i)
}

/// Whether output ends where a token ends, whatever follows.
pub open spec fn whole(a: Seq<u8>) -> bool
    decreases a.len(),
    when a.len() >= 0
    via whole_decreases
{
    a.len() == 0 || (!pending(a, 0) && whole(a.skip(raw(first_token(a)).len() as int)))
}

#[via_fn]
proof fn whole_decreases(a: Seq<u8>) {
    if a.len() > 0 {
        lemma_first_token(a);
    }
}

/// Output of which no part may go on ends where a token ends.
pub proof fn law_settled_whole(a: Seq<u8>)
    requires
        settled(a),
    ensures
        whole(a),
    decreases a.len(),
{
    if a.len() > 0 {
        lemma_first_token(a);
        let n = raw(first_token(a)).len() as int;
        let rest = a.skip(n);
        assert forall|i: int| 0 <= i < rest.len() implies !#[trigger] pending(rest, i) by {
            assert(!pending(a, i + n));
            assert(rest[i] == a[i + n]);
            if pending(rest, i) {
                assert(i + 1 < rest.len() ==> rest[i + 1] == a[i + n + 1]);
                assert forall|k: int| i + n + 2 <= k < a.len() implies is_digit(#[trigger] a[k]) by {
                    assert(is_digit(rest[k - n]));
                }
            }
        }
        law_settled_whole(rest);
        assert(!pending(a, 0));
    }
}

/// The first token does not change when more follows output that ends where it may.
proof fn lemma_first_token_more(a: Seq<u8>, c: Seq<u8>)
    requires
        a.len() > 0,
        !pending(a, 0),
    ensures
        first_token(a + c) == first_token(a),
{
    let s = a + c;
    assert(s[0] == a[0]);
    if starts_sequence(a) {
        lemma_digits_end(a, 2);
        let e = digits_end(a, 2);
        if e == a.len() {
            assert(pending(a, 0));
        }
        assert(s[1] == a[1]);
        lemma_digits_end_more(a, c, 2);
        assert(s[e] == a[e]);
        assert(s.take(e + 1) =~= a.take(e + 1));
        assert(s.subrange(2, e) =~= a.subrange(2, e));
    } else {
        assert(a.len() >= 2 ==> s[1] == a[1]);
        assert(s.take(1) =~= a.take(1));
    }
}

/// How many rows the run has asked for after output, where it had asked for `up` before.
pub open spec fn asked_after(ts: Seq<Token>, up: nat) -> nat
    decreases ts.len(),
{
    if ts.len() == 0 {
        up
    } else {
        asked_after(
            ts.skip(1),
            match ts[0] {
                Token::Up { rows, raw } => up + rows,
                Token::Other { ends_run, raw } => if ends_run {
                    0
                } else {
                    up
                },
            },
        )
    }
}

/// Output in two parts is limited part by part.
proof fn lemma_parts(a: Seq<u8>, c: Seq<u8>, up: nat)
    requires
        whole(a),
    ensures
        render(limited(tokens(a + c), up)) == render(limited(tokens(a), up)) + render(
            limited(tokens(c), asked_after(tokens(a), up)),
        ),
    decreases a.len(),
{
    if a.len() == 0 {
        assert(a + c =~= c);
        assert(Seq::<u8>::empty() + render(limited(tokens(c), up)) =~= render(
            limited(tokens(c), up),
        ));
    } else {
        lemma_first_token(a);
        lemma_first_token_more(a, c);
        let n = raw(first_token(a)).len() as int;
        let rest = a.skip(n);
        assert((a + c).skip(n) =~= rest + c);
        lemma_step(a, up);
        lemma_step(a + c, up);
        assert(tokens(a).skip(1) =~= tokens(rest));
        let next: nat = match first_token(a) {
            Token::Up { rows, raw } => up + rows,
            Token::Other { ends_run, raw } => if ends_run {
                0
            } else {
                up
            },
        };
        lemma_parts(rest, c, next);
        let tail = render(limited(tokens(rest), next));
        let end = render(limited(tokens(c), asked_after(tokens(a), up)));
        let head = match first_token(a) {
            Token::Up { rows, raw } => if up + rows <= MAX_CURSOR_UP_ROWS {
                raw
            } else if up < MAX_CURSOR_UP_ROWS {
                up_sequence((MAX_CURSOR_UP_ROWS - up) as nat)
            } else {
                Seq::empty()
            },
            Token::Other { ends_run, raw } => raw,
        };
        assert(head + (tail + end) =~= (head + tail) + end);
    }
}

/// Something visible ends a run of cursor-up sequences: what follows it is limited as
/// if nothing had come before.
pub proof fn law_visible_ends_run(a: Seq<u8>, v: u8, b: Seq<u8>)
    requires
        whole(a),
        v >= 0x20,
        v != 0x7f,
    ensures
        clamped(a + seq![v] + b) == clamped(a) + seq![v] + clamped(b),
{
    let s = seq![v] + b;
    let up = asked_after(tokens(a), 0);
    assert(a + seq![v] + b =~= a + s);
    lemma_parts(a, s, 0);
    lemma_step(s, up);
    assert(s.take(1) =~= seq![v]);
    assert(s.skip(1) =~= b);
    assert(clamped(a) + (seq![v] + clamped(b)) =~= clamped(a) + seq![v] + clamped(b));
}

/// A sequence that is none for cursor-up: ESC, `[`, digits and a final byte that is
/// neither a digit nor `A`.
pub open spec fn other_sequence(digits: Seq<u8>, last: u8) -> Seq<u8> {
    seq![0x1bu8, 0x5bu8] + digits + seq![last]
}

/// Any other sequence ends a run of cursor-up sequences, as something visible does, and
/// is let through.
pub proof fn law_sequence_ends_run(a: Seq<u8>, digits: Seq<u8>, last: u8, b: Seq<u8>)
    requires
        whole(a),
        forall|k: int| 0 <= k < digits.len() ==> is_digit(#[trigger] digits[k]),
        !is_digit(last),
        last != 0x41,
    ensures
        clamped(a + other_sequence(digits, last) + b) == clamped(a) + other_sequence(digits, last)
            + clamped(b),
{
    let q = other_sequence(digits, last);
    let s = q + b;
    let e = digits.len() as int + 2;
    let up = asked_after(tokens(a), 0);
    assert(a + q + b =~= a + s);
    lemma_parts(a, s, 0);
    assert forall|k: int| 2 <= k < e implies is_digit(#[trigger] s[k]) by {
        assert(s[k] == digits[k - 2]);
    }
    assert(s[e] == last && s[0] == 0x1b && s[1] == 0x5b);
    lemma_digits_end_at(s, 2, e);
    lemma_step(s, up);
    assert(s.take(e + 1) =~= q);
    assert(s.skip(e + 1) =~= b);
    assert(clamped(a) + (q + clamped(b)) =~= clamped(a) + q + clamped(b));
}

/// A cursor-up sequence with the given digits.
pub open spec fn up_by(digits: Seq<u8>) -> Seq<u8> {
    seq![0x1bu8, 0x5bu8] + digits + seq![0x41u8]
}

/// What is sent in place of a cursor-up sequence when the run has asked for `up` rows
/// before it: all of it within the limit, what is left to the limit, or nothing.
pub open spec fn allowed(digits: Seq<u8>, up: nat) -> Seq<u8> {
    if up + rows_of(digits) <= 100 {
        up_by(digits)
    } else if up < 100 {
        up_by(vstd::utf8::encode_utf8(text::decimal((100 - up) as nat)))
    } else {
        Seq::empty()
    }
}

proof fn lemma_up_step(digits: Seq<u8>, b: Seq<u8>, up: nat)
    requires
        forall|k: int| 0 <= k < digits.len() ==> is_digit(#[trigger] digits[k]),
    ensures
        render(limited(tokens(up_by(digits) + b), up)) == allowed(digits, up) + render(
            limited(tokens(b), up + rows_of(digits)),
        ),
{
    let q = up_by(digits);
    let s = q + b;
    let e = digits.len() as int + 2;
    assert forall|k: int| 2 <= k < e implies is_digit(#[trigger] s[k]) by {
        assert(s[k] == digits[k - 2]);
    }
    assert(s[e] == 0x41 && s[0] == 0x1b && s[1] == 0x5b);
    lemma_digits_end_at(s, 2, e);
    lemma_step(s, up);
    assert(s.take(e + 1) =~= q);
    assert(s.subrange(2, e) =~= digits);
    assert(s.skip(e + 1) =~= b);
}

proof fn lemma_control_step(x: Seq<u8>, b: Seq<u8>, up: nat)
    requires
        forall|k: int|
            0 <= k < x.len() ==> (#[trigger] x[k] < 0x20 || x[k] == 0x7f) && x[k] != 0x1b,
    ensures
        render(limited(tokens(x + b), up)) == x + render(limited(tokens(b), up)),
    decreases x.len(),
{
    if x.len() == 0 {
        assert(x + b =~= b);
        assert(x + render(limited(tokens(b), up)) =~= render(limited(tokens(b), up)));
    } else {
        let s = x + b;
        let rest = x.skip(1);
        assert(s[0] == x[0]);
        lemma_step(s, up);
        assert(s.skip(1) =~= rest + b);
        assert forall|k: int| 0 <= k < rest.len() implies (#[trigger] rest[k] < 0x20 || rest[k]
            == 0x7f) && rest[k] != 0x1b by {
            assert(rest[k] == x[k + 1]);
        }
        lemma_control_step(rest, b, up);
        assert(s.take(1) + (rest + render(limited(tokens(b), up))) =~= x + render(
            limited(tokens(b), up),
        ));
    }
}

/// Two cursor-up sequences with nothing but control bytes between them are one run: the
/// second may move only what the first has left of a hundred rows.
pub proof fn law_run_adds_up(first: Seq<u8>, between: Seq<u8>, second: Seq<u8>)
    requires
        forall|k: int| 0 <= k < first.len() ==> is_digit(#[trigger] first[k]),
        forall|k: int| 0 <= k < second.len() ==> is_digit(#[trigger] second[k]),
        forall|k: int|
            0 <= k < between.len() ==> (#[trigger] between[k] < 0x20 || between[k] == 0x7f)
                && between[k] != 0x1b,
    ensures
        clamped(up_by(first) + between + up_by(second)) == allowed(first, 0) + between + allowed(
            second,
            rows_of(first),
        ),
{
    let q = up_by(second);
    let n = rows_of(first);
    assert(up_by(first) + between + q =~= up_by(first) + (between + q));
    lemma_up_step(first, between + q, 0);
    lemma_control_step(between, q, n);
    assert(q + Seq::<u8>::empty() =~= q);
    lemma_up_step(second, Seq::empty(), n);
    let none = render(limited(tokens(Seq::<u8>::empty()), n + rows_of(second)));
    assert(none =~= Seq::<u8>::empty());
    assert(allowed(first, 0) + (between + (allowed(second, n) + none)) =~= allowed(first, 0)
        + between + allowed(second, n));
}

/// A number written in decimal reads back as itself.
pub proof fn law_rows_written(n: nat)
    ensures
        rows_of(vstd::utf8::encode_utf8(text::decimal(n))) == n,
        forall|k: int|
            0 <= k < vstd::utf8::encode_utf8(text::decimal(n)).len() ==> is_digit(
                #[trigger] vstd::utf8::encode_utf8(text::decimal(n))[k],
            ),
{
    lemma_decimal(n);
}

/// The digits of a number are ASCII.
proof fn lemma_decimal_digits(n: nat)
    ensures
        text::decimal(n).len() > 0,
        forall|k: int|
            0 <= k < text::decimal(n).len() ==> '0' <= #[trigger] text::decimal(n)[k] <= '9',
    decreases n,
{
    if n >= 10 {
        lemma_decimal_digits(n / 10);
    }
}

proof fn lemma_decimal(n: nat)
    ensures
        number(vstd::utf8::encode_utf8(text::decimal(n))) == n,
        vstd::utf8::encode_utf8(text::decimal(n)).len() > 0,
        forall|k: int|
            0 <= k < vstd::utf8::encode_utf8(text::decimal(n)).len() ==> is_digit(
                #[trigger] vstd::utf8::encode_utf8(text::decimal(n))[k],
            ),
    decreases n,
{
    let d = text::decimal(n);
    let e = vstd::utf8::encode_utf8(d);
    lemma_decimal_digits(n);
    vstd::utf8::is_ascii_chars_encode_utf8(d);
    if n >= 10 {
        let d0 = text::decimal(n / 10);
        let e0 = vstd::utf8::encode_utf8(d0);
        lemma_decimal_digits(n / 10);
        vstd::utf8::is_ascii_chars_encode_utf8(d0);
        lemma_decimal(n / 10);
        assert(e.drop_last() =~= e0) by {
            assert forall|k: int| 0 <= k < e0.len() implies e.drop_last()[k] == e0[k] by {
                assert(d[k] == d0[k]);
            }
        }
        assert(d.last() == text::digit_char(n % 10));
        assert(e.last() == d.last() as u8);
    } else {
        assert(e.drop_last() =~= Seq::empty());
        assert(d[0] == text::digit_char(n));
        assert(e.last() == d[0] as u8);
        assert(number(e.drop_last()) == 0);
    }
}

/// Where the digits end that stand two bytes behind `start`.
fn skip_digits(data: &[u8], start: usize) -> (e: usize)
    requires
        start + 2 <= data@.len(),
    ensures
        start + 2 <= e <= data@.len(),
        e - start == digits_end(data@.skip(start as int), 2),
        forall|k: int| start + 2 <= k < e ==> is_digit(#[trigger] data@[k]),
        e < data@.len() ==> data@.skip(start as int)[e - start] == data@[e as int],
{
    let ghost s = data@.skip(start as int);
    let len: usize = data.len();
    let mut e: usize = start + 2;
    while e < len && data[e] >= 48 && data[e] <= 57
        invariant
            len == data@.len(),
            start + 2 <= e <= len,
            s == data@.skip(start as int),
            digits_end(s, 2) == digits_end(s, e - start),
            forall|k: int| start + 2 <= k < e ==> is_digit(#[trigger] data@[k]),
        decreases len - e,
    {
        assert(s[e - start] == data@[e as int]);
        e = e + 1;
    }
    assert(e < data@.len() ==> s[e - start] == data@[e as int]);
    e
}

/// Whether any byte is an escape.
fn has_escape(data: &[u8]) -> (r: bool)
    ensures
        r == (exists|i: int| 0 <= i < data@.len() && #[trigger] data@[i] == 0x1b),
{
    let mut i: usize = 0;
    while i < data.len()
        invariant
            i <= data.len(),
            forall|k: int| 0 <= k < i ==> data@[k] != 0x1b,
        decreases data.len() - i,
    {
        if data[i] == 0x1b {
            assert(data@[i as int] == 0x1b);
            return true;
        }
        i = i + 1;
    }
    false
}

/// Terminal output with cursor-up sequences limited: a run of them moves at most
/// [`MAX_CURSOR_UP_ROWS`] rows, and nothing else is changed.
#[verifier::rlimit(40)]
pub fn clamp_cursor_up(data: Vec<u8>) -> (result: Vec<u8>)
    ensures
        result@ == clamped(data@),
{
    if !has_escape(data.as_slice()) {
        proof {
            lemma_no_escape(data@, 0);
            law_within_unchanged(tokens(data@), 0);
            law_tokens_complete(data@);
        }
        return data;
    }
    let len: usize = data.len();
    let mut result: Vec<u8> = Vec::new();
    let mut i: usize = 0;
    let mut up: usize = 0;
    let ghost mut asked: nat = 0;
    assert(data@.skip(0) =~= data@);
    assert(result@ + clamped(data@) =~= clamped(data@));
    while i < len
        invariant
            len == data@.len(),
            i <= len,
            up == asked || (up == usize::MAX && asked > usize::MAX),
            result@ + render(limited(tokens(data@.skip(i as int)), asked)) == clamped(data@),
        decreases len - i,
    {
        let ghost s = data@.skip(i as int);
        let ghost before = result@;
        let ghost was = asked;
        proof {
            lemma_first_token(s);
            lemma_step(s, asked);
        }
        if data[i] == 0x1b && len - i > 1 && data[i + 1] == 0x5b {
            let start: usize = i;
            let e: usize = skip_digits(data.as_slice(), start);
            if e < len && data[e] == 0x41 {
                let digits = slice_subrange(data.as_slice(), start + 2, e);
                assert(digits@ =~= s.subrange(2, e - start));
                assert forall|k: int| 0 <= k < digits@.len() implies is_digit(
                    #[trigger] digits@[k],
                ) by {
                    assert(is_digit(data@[start + 2 + k]));
                }
                let ghost rows = rows_of(digits@);
                let n: usize = parse_rows(digits);
                let total: usize = up.saturating_add(n);
                if total <= MAX_CURSOR_UP_ROWS {
                    let part = slice_subrange(data.as_slice(), start, e + 1);
                    assert(part@ =~= s.take(e - start + 1));
                    result.extend_from_slice(part);
                    assert(result@ =~= before + part@);
                } else if up < MAX_CURSOR_UP_ROWS {
                    let seq_up = up_bytes(MAX_CURSOR_UP_ROWS - up);
                    result.extend_from_slice(seq_up.as_slice());
                    assert(result@ =~= before + seq_up@);
                } else {
                    assert(result@ =~= before + Seq::<u8>::empty());
                }
                proof {
                    asked = asked + rows;
                }
                up = total;
                i = e + 1;
                assert(s.skip(e - start + 1) =~= data@.skip(i as int));
            } else {
                let end: usize = if e < len {
                    e + 1
                } else {
                    len
                };
                let part = slice_subrange(data.as_slice(), start, end);
                assert(part@ =~= raw(first_token(s)));
                result.extend_from_slice(part);
                assert(result@ =~= before + part@);
                up = 0;
                proof {
                    asked = 0;
                }
                i = end;
                assert(s.skip(end - start) =~= data@.skip(i as int));
            }
        } else {
            let b: u8 = data[i];
            assert(s[0] == b);
            assert(s.len() >= 2 ==> s[1] == data@[i + 1]);
            if b >= 0x20 && b != 0x7f {
                up = 0;
                proof {
                    asked = 0;
                }
            }
            result.push(b);
            assert(result@ =~= before + s.take(1));
            assert(s.skip(1) =~= data@.skip(i + 1));
            i = i + 1;
        }
        assert(result@ + render(limited(tokens(data@.skip(i as int)), asked)) =~= before + render(
            limited(tokens(s), was),
        ));
    }
    assert(data@.skip(len as int) =~= Seq::empty());
    assert(result@ + Seq::<u8>::empty() =~= result@);
    result
}

} // verus!
