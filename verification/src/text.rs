//! Operations on text, over the sequence of characters that a string holds.

use vstd::prelude::*;
use vstd::slice::slice_subrange;

verus! {

/// `String::push` appends the character to the end of the string.
pub assume_specification[ String::push ](s: &mut String, c: char)
    ensures
        final(s)@ == old(s)@.push(c),
;

/// What `str::to_lowercase` returns for the given characters.
pub uninterp spec fn lowercase(s: Seq<char>) -> Seq<char>;

/// Calls `str::to_lowercase`, the Unicode lowercase mapping of std. The result
/// is named, not spelled out: it depends on the characters alone.
#[verifier::external_body]
pub(crate) fn to_lowercase(s: &str) -> (r: String)
    ensures
        r@ == lowercase(s@),
{
    s.to_lowercase()
}

// ── Models ──────────────────────────────────────────────────────────

/// Whether `s` begins with `p`.
pub open spec fn starts_with_spec(s: Seq<char>, p: Seq<char>) -> bool {
    p.len() <= s.len() && s.take(p.len() as int) == p
}

/// Whether `s` ends with `p`.
pub open spec fn ends_with_spec(s: Seq<char>, p: Seq<char>) -> bool {
    p.len() <= s.len() && s.skip(s.len() - p.len()) == p
}

/// `s` without the copies of `p` that it begins with.
pub open spec fn strip_all(s: Seq<char>, p: Seq<char>) -> Seq<char>
    decreases s.len(),
{
    if p.len() > 0 && starts_with_spec(s, p) {
        strip_all(s.skip(p.len() as int), p)
    } else {
        s
    }
}

/// `s` without the copies of `c` that it ends with.
pub open spec fn strip_end(s: Seq<char>, c: char) -> Seq<char>
    decreases s.len(),
{
    if s.len() > 0 && s.last() == c {
        strip_end(s.drop_last(), c)
    } else {
        s
    }
}

/// The first position at or after `i` that holds `c`, or the length of `s`.
pub open spec fn scan(s: Seq<char>, c: char, i: int) -> int
    decreases s.len() - i,
{
    if i >= s.len() {
        s.len() as int
    } else if s[i] == c {
        i
    } else {
        scan(s, c, i + 1)
    }
}

/// The part of `s` before the first `c`, or all of `s`.
pub open spec fn before(s: Seq<char>, c: char) -> Seq<char> {
    s.take(scan(s, c, 0))
}

/// One past the last position below `i` that holds `c`, or 0.
pub open spec fn rscan(s: Seq<char>, c: char, i: int) -> int
    decreases i,
{
    if i <= 0 {
        0
    } else if s[i - 1] == c {
        i
    } else {
        rscan(s, c, i - 1)
    }
}

/// The part of `s` after the last `c`, or all of `s`.
pub open spec fn after_last_spec(s: Seq<char>, c: char) -> Seq<char> {
    s.skip(rscan(s, c, s.len() as int))
}

/// The first position at or after `i` where `p` stands in `s`.
pub open spec fn find_from(s: Seq<char>, p: Seq<char>, i: int) -> Option<int>
    decreases s.len() + 1 - i,
{
    if i + p.len() > s.len() {
        None
    } else if s.subrange(i, i + p.len()) == p {
        Some(i)
    } else {
        find_from(s, p, i + 1)
    }
}

/// Whether `p` stands somewhere in `s`.
pub open spec fn contains_spec(s: Seq<char>, p: Seq<char>) -> bool {
    find_from(s, p, 0) is Some
}

/// `s` with each occurrence of `p`, taken from the left, replaced by `r`.
pub open spec fn replaced(s: Seq<char>, p: Seq<char>, r: Seq<char>) -> Seq<char>
    decreases s.len(),
    when p.len() > 0
    via replaced_decreases
{
    match find_from(s, p, 0) {
        None => s,
        Some(i) => s.take(i) + r + replaced(s.skip(i + p.len()), p, r),
    }
}

#[via_fn]
proof fn replaced_decreases(s: Seq<char>, p: Seq<char>, r: Seq<char>) {
    lemma_find_from_range(s, p, 0);
}

/// The characters that Unicode gives the property White_Space.
pub open spec fn is_space(c: char) -> bool {
    let u = c as u32;
    ||| 0x9 <= u <= 0xd
    ||| u == 0x20
    ||| u == 0x85
    ||| u == 0xa0
    ||| u == 0x1680
    ||| 0x2000 <= u <= 0x200a
    ||| u == 0x2028
    ||| u == 0x2029
    ||| u == 0x202f
    ||| u == 0x205f
    ||| u == 0x3000
}

/// `s` without white space at its start.
pub open spec fn trim_start_spec(s: Seq<char>) -> Seq<char>
    decreases s.len(),
{
    if s.len() > 0 && is_space(s[0]) {
        trim_start_spec(s.skip(1))
    } else {
        s
    }
}

/// `s` without white space at its end.
pub open spec fn trim_end_spec(s: Seq<char>) -> Seq<char>
    decreases s.len(),
{
    if s.len() > 0 && is_space(s.last()) {
        trim_end_spec(s.drop_last())
    } else {
        s
    }
}

/// `s` without white space at either end.
pub open spec fn trim_spec(s: Seq<char>) -> Seq<char> {
    trim_end_spec(trim_start_spec(s))
}

/// `s` up to its first white space.
pub open spec fn until_space(s: Seq<char>) -> Seq<char>
    decreases s.len(),
{
    if s.len() == 0 || is_space(s[0]) {
        Seq::empty()
    } else {
        seq![s[0]] + until_space(s.skip(1))
    }
}

/// The first word of `s`; empty where it holds white space alone.
pub open spec fn first_word_spec(s: Seq<char>) -> Seq<char> {
    until_space(trim_start_spec(s))
}

/// The parts of `s` between the occurrences of `c`; one more than there are.
pub open spec fn split_spec(s: Seq<char>, c: char) -> Seq<Seq<char>>
    decreases s.len(),
    when s.len() >= 0
    via split_decreases
{
    let i = scan(s, c, 0);
    if i >= s.len() {
        seq![s]
    } else {
        seq![s.take(i)] + split_spec(s.skip(i + 1), c)
    }
}

#[via_fn]
proof fn split_decreases(s: Seq<char>, c: char) {
    lemma_scan_range(s, c, 0);
}

/// Whether `a` comes before or is `b`, in the order of their code points.
pub open spec fn le_spec(a: Seq<char>, b: Seq<char>) -> bool
    decreases a.len(),
{
    if a.len() == 0 {
        true
    } else if b.len() == 0 {
        false
    } else if a[0] != b[0] {
        a[0] < b[0]
    } else {
        le_spec(a.skip(1), b.skip(1))
    }
}

/// Whether `a` comes before `b`, in the order of their code points.
pub open spec fn lt_spec(a: Seq<char>, b: Seq<char>) -> bool {
    le_spec(a, b) && a != b
}

/// The views of the strings in a vector.
pub open spec fn views(v: Seq<String>) -> Seq<Seq<char>> {
    v.map_values(|s: String| s@)
}

/// The views of a text and of the message in its place.
pub open spec fn result_view(r: Result<String, String>) -> Result<Seq<char>, Seq<char>> {
    match r {
        Ok(s) => Ok(s@),
        Err(e) => Err(e@),
    }
}

/// Whether every character is a decimal digit.
pub open spec fn all_digits(s: Seq<char>) -> bool {
    forall|i: int| 0 <= i < s.len() ==> '0' <= #[trigger] s[i] && s[i] <= '9'
}

/// The number that decimal digits write.
pub open spec fn digits_value(s: Seq<char>) -> nat
    decreases s.len(),
{
    if s.len() == 0 {
        0
    } else {
        digits_value(s.drop_last()) * 10 + (s.last() as u32 - '0' as u32) as nat
    }
}

/// The unsigned number up to `max` that `s` writes: an optional `+`, then
/// one or more decimal digits.
pub open spec fn parse_unsigned(s: Seq<char>, max: nat) -> Option<nat> {
    let d = if s.len() > 0 && s[0] == '+' {
        s.skip(1)
    } else {
        s
    };
    if d.len() > 0 && all_digits(d) && digits_value(d) <= max {
        Some(digits_value(d))
    } else {
        None
    }
}

/// The `i64` that `s` writes: an optional sign, then one or more decimal digits.
pub open spec fn parse_i64_spec(s: Seq<char>) -> Option<int> {
    let neg = s.len() > 0 && s[0] == '-';
    let d = if s.len() > 0 && (s[0] == '+' || s[0] == '-') {
        s.skip(1)
    } else {
        s
    };
    if d.len() == 0 || !all_digits(d) {
        None
    } else {
        let v = digits_value(d) as int;
        if neg && v <= 0x8000_0000_0000_0000 {
            Some(-v)
        } else if !neg && v <= i64::MAX {
            Some(v)
        } else {
            None
        }
    }
}

/// The character of a decimal or lower-case hexadecimal digit.
pub open spec fn digit_char(d: nat) -> char {
    if d < 10 {
        ('0' as u32 + d) as char
    } else {
        ('a' as u32 + d - 10) as char
    }
}

/// `n` written in decimal.
pub open spec fn decimal(n: nat) -> Seq<char>
    decreases n,
{
    if n < 10 {
        seq![digit_char(n)]
    } else {
        decimal(n / 10).push(digit_char(n % 10))
    }
}

/// `n` written in decimal, with a sign when it is negative.
pub open spec fn signed_decimal(n: int) -> Seq<char> {
    if n < 0 {
        seq!['-'] + decimal((-n) as nat)
    } else {
        decimal(n as nat)
    }
}

/// `n` written in lower-case hexadecimal.
pub open spec fn hex(n: nat) -> Seq<char>
    decreases n,
{
    if n < 16 {
        seq![digit_char(n)]
    } else {
        hex(n / 16).push(digit_char(n % 16))
    }
}

/// Bytes written as two lower-case hexadecimal digits each.
pub open spec fn hex_bytes(b: Seq<u8>) -> Seq<char>
    decreases b.len(),
{
    if b.len() == 0 {
        Seq::empty()
    } else {
        hex_bytes(b.drop_last()) + seq![
            digit_char(b.last() as nat / 16),
            digit_char(b.last() as nat % 16),
        ]
    }
}

// ── Facts ───────────────────────────────────────────────────────────

/// A scan ends between its start and the end of the text, and stops at the
/// first place that holds the character.
pub proof fn lemma_scan_range(s: Seq<char>, c: char, i: int)
    requires
        0 <= i <= s.len(),
    ensures
        i <= scan(s, c, i) <= s.len(),
        scan(s, c, i) < s.len() ==> s[scan(s, c, i)] == c,
        forall|j: int| i <= j < scan(s, c, i) ==> s[j] != c,
    decreases s.len() - i,
{
    if i < s.len() && s[i] != c {
        lemma_scan_range(s, c, i + 1);
    }
}

/// A backward scan ends between 0 and its start.
pub proof fn lemma_rscan_range(s: Seq<char>, c: char, i: int)
    requires
        0 <= i <= s.len(),
    ensures
        0 <= rscan(s, c, i) <= i,
    decreases i,
{
    if i > 0 && s[i - 1] != c {
        lemma_rscan_range(s, c, i - 1);
    }
}

/// A text without the separator is its only part.
pub proof fn lemma_split_one(s: Seq<char>, c: char)
    requires
        !s.contains(c),
    ensures
        split_spec(s, c) == seq![s],
{
    lemma_scan_none(s, c, 0);
}

proof fn lemma_scan_none(s: Seq<char>, c: char, i: int)
    requires
        0 <= i,
        !s.contains(c),
    ensures
        scan(s, c, i) == s.len(),
    decreases s.len() - i,
{
    if i < s.len() {
        assert(s.contains(s[i]));
        lemma_scan_none(s, c, i + 1);
    }
}

/// What is found at `i` stands in the text.
pub proof fn lemma_found(s: Seq<char>, p: Seq<char>, i: int)
    requires
        0 <= i,
        i + p.len() <= s.len(),
        s.subrange(i, i + p.len()) == p,
    ensures
        contains_spec(s, p),
{
    lemma_found_from(s, p, i, i);
}

proof fn lemma_found_from(s: Seq<char>, p: Seq<char>, i: int, k: int)
    requires
        0 <= k <= i,
        i + p.len() <= s.len(),
        find_from(s, p, k) is Some || k == i,
        s.subrange(i, i + p.len()) == p,
    ensures
        find_from(s, p, 0) is Some,
    decreases k,
{
    if k > 0 {
        assert(find_from(s, p, k) is Some);
        lemma_found_from(s, p, i, k - 1);
    }
}

/// What is found at `n`, and at no place from `i` up to there, is found first at `n`.
pub proof fn lemma_first_found(s: Seq<char>, p: Seq<char>, i: int, n: int)
    requires
        0 <= i <= n,
        n + p.len() <= s.len(),
        s.subrange(n, n + p.len()) == p,
        forall|k: int| i <= k < n ==> #[trigger] s.subrange(k, k + p.len()) != p,
    ensures
        find_from(s, p, i) == Some(n),
    decreases n - i,
{
    if i < n {
        assert(s.subrange(i, i + p.len()) != p);
        lemma_first_found(s, p, i + 1, n);
    }
}

/// Before the position that a search finds, and anywhere where it finds none, the
/// text does not stand.
pub proof fn lemma_none_before(s: Seq<char>, p: Seq<char>, i: int)
    requires
        0 <= i,
    ensures
        match find_from(s, p, i) {
            Some(n) => forall|k: int| i <= k < n ==> #[trigger] s.subrange(k, k + p.len()) != p,
            None => forall|k: int|
                i <= k && k + p.len() <= s.len() ==> #[trigger] s.subrange(k, k + p.len()) != p,
        },
    decreases s.len() + 1 - i,
{
    if i + p.len() <= s.len() && s.subrange(i, i + p.len()) != p {
        lemma_none_before(s, p, i + 1);
    }
}

/// A match that a search reports lies in the text, where the pattern stands.
pub proof fn lemma_find_from_range(s: Seq<char>, p: Seq<char>, i: int)
    requires
        0 <= i,
    ensures
        find_from(s, p, i) matches Some(k) ==> i <= k && k + p.len() <= s.len() && s.subrange(
            k,
            k + p.len(),
        ) == p,
    decreases s.len() + 1 - i,
{
    if i + p.len() <= s.len() && s.subrange(i, i + p.len()) != p {
        lemma_find_from_range(s, p, i + 1);
    }
}

/// Of two texts one comes before the other, and both ways only when they are the same.
pub proof fn lemma_le_total(a: Seq<char>, b: Seq<char>)
    ensures
        le_spec(a, b) || le_spec(b, a),
        le_spec(a, b) && le_spec(b, a) <==> a == b,
    decreases a.len(),
{
    if a.len() > 0 && b.len() > 0 {
        if a[0] == b[0] {
            lemma_le_total(a.skip(1), b.skip(1));
            if a.skip(1) == b.skip(1) {
                assert(a =~= seq![a[0]] + a.skip(1));
                assert(b =~= seq![b[0]] + b.skip(1));
            }
        }
    } else if a.len() == 0 && b.len() == 0 {
        assert(a =~= b);
    }
}

/// The order of texts is transitive.
pub proof fn lemma_le_trans(a: Seq<char>, b: Seq<char>, c: Seq<char>)
    requires
        le_spec(a, b),
        le_spec(b, c),
    ensures
        le_spec(a, c),
    decreases a.len(),
{
    if a.len() > 0 && b.len() > 0 && c.len() > 0 {
        if a[0] == b[0] && b[0] == c[0] {
            lemma_le_trans(a.skip(1), b.skip(1), c.skip(1));
        }
    }
}

/// The strict order of texts is transitive.
pub proof fn lemma_lt_trans(a: Seq<char>, b: Seq<char>, c: Seq<char>)
    requires
        lt_spec(a, b),
        lt_spec(b, c),
    ensures
        lt_spec(a, c),
{
    lemma_le_trans(a, b, c);
    lemma_le_total(a, b);
    lemma_le_total(b, c);
}

/// How filtering goes on by one item.
pub proof fn lemma_filter_step<A>(s: Seq<A>, p: spec_fn(A) -> bool, i: int)
    requires
        0 <= i < s.len(),
    ensures
        s.take(0).filter(p) == Seq::<A>::empty(),
        s.take(i + 1).filter(p) == (if p(s[i]) {
            s.take(i).filter(p).push(s[i])
        } else {
            s.take(i).filter(p)
        }),
{
    reveal(Seq::filter);
    assert(s.take(i + 1).drop_last() =~= s.take(i));
    assert(s.take(0).filter(p) =~= Seq::<A>::empty());
}

/// Replacing brings in no characters but those of the replacement.
pub proof fn lemma_replaced_without(s: Seq<char>, p: Seq<char>, r: Seq<char>, c: char)
    requires
        p.len() > 0,
        !s.contains(c),
        !r.contains(c),
    ensures
        !replaced(s, p, r).contains(c),
    decreases s.len(),
{
    match find_from(s, p, 0) {
        None => {},
        Some(i) => {
            lemma_find_from_range(s, p, 0);
            let tail = s.skip(i + p.len());
            assert(!tail.contains(c)) by {
                if tail.contains(c) {
                    let k = choose|k: int| 0 <= k < tail.len() && tail[k] == c;
                    assert(s[k + i + p.len()] == c);
                }
            }
            lemma_replaced_without(tail, p, r, c);
            let t = replaced(tail, p, r);
            assert(replaced(s, p, r) == s.take(i) + r + t);
            if replaced(s, p, r).contains(c) {
                let k = choose|k: int| 0 <= k < replaced(s, p, r).len() && replaced(s, p, r)[k] == c;
                if k < i {
                    assert(s[k] == c);
                } else if k < i + r.len() {
                    assert(r[k - i] == c);
                } else {
                    assert(t[k - i - r.len()] == c);
                }
            }
        },
    }
}

/// Text without white space is left as it is.
pub proof fn lemma_trim_nothing(s: Seq<char>)
    requires
        forall|i: int| 0 <= i < s.len() ==> !is_space(#[trigger] s[i]),
    ensures
        trim_spec(s) == s,
{
    if s.len() > 0 {
        assert(!is_space(s[0]));
        assert(!is_space(s[s.len() - 1]));
    }
}

// ── Operations ──────────────────────────────────────────────────────

/// The characters of a string, in order.
pub fn chars_of(s: &str) -> (v: Vec<char>)
    ensures
        v@ == s@,
{
    let mut out: Vec<char> = Vec::new();
    for c in it: s.chars()
        invariant
            out@ == s@.take(it.index() as int),
            it.seq() == s@,
    {
        out.push(c);
        assert(out@ == s@.take(it.index() + 1));
    }
    assert(s@.take(s@.len() as int) == s@);
    out
}

/// The string with the given characters.
pub fn string_of(v: &[char]) -> (s: String)
    ensures
        s@ == v@,
{
    let mut out: String = String::new();
    let mut i: usize = 0;
    while i < v.len()
        invariant
            i <= v.len(),
            out@ == v@.take(i as int),
        decreases v.len() - i,
    {
        out.push(v[i]);
        i = i + 1;
        assert(out@ == v@.take(i as int));
    }
    assert(v@.take(v@.len() as int) == v@);
    out
}

/// Two texts, one after the other.
pub fn cat2(a: &str, b: &str) -> (r: String)
    ensures
        r@ == a@ + b@,
{
    let mut s: String = a.to_owned();
    s.append(b);
    s
}

/// Three texts, one after the other.
pub fn cat3(a: &str, b: &str, c: &str) -> (r: String)
    ensures
        r@ == a@ + b@ + c@,
{
    let mut s: String = a.to_owned();
    s.append(b);
    s.append(c);
    s
}

/// Four texts, one after the other.
pub fn cat4(a: &str, b: &str, c: &str, d: &str) -> (r: String)
    ensures
        r@ == a@ + b@ + c@ + d@,
{
    let mut s: String = a.to_owned();
    s.append(b);
    s.append(c);
    s.append(d);
    s
}

/// Five texts, one after the other.
pub fn cat5(a: &str, b: &str, c: &str, d: &str, e: &str) -> (r: String)
    ensures
        r@ == a@ + b@ + c@ + d@ + e@,
{
    let mut s: String = a.to_owned();
    s.append(b);
    s.append(c);
    s.append(d);
    s.append(e);
    s
}

/// Six texts, one after the other.
pub fn cat6(a: &str, b: &str, c: &str, d: &str, e: &str, f: &str) -> (r: String)
    ensures
        r@ == a@ + b@ + c@ + d@ + e@ + f@,
{
    let mut s: String = a.to_owned();
    s.append(b);
    s.append(c);
    s.append(d);
    s.append(e);
    s.append(f);
    s
}

/// Seven texts, one after the other.
pub fn cat7(a: &str, b: &str, c: &str, d: &str, e: &str, f: &str, g: &str) -> (r: String)
    ensures
        r@ == a@ + b@ + c@ + d@ + e@ + f@ + g@,
{
    let mut s: String = a.to_owned();
    s.append(b);
    s.append(c);
    s.append(d);
    s.append(e);
    s.append(f);
    s.append(g);
    s
}

/// Whether two slices of characters are the same.
fn same_chars(a: &[char], b: &[char]) -> (r: bool)
    ensures
        r == (a@ == b@),
{
    if a.len() != b.len() {
        return false;
    }
    let mut i: usize = 0;
    while i < a.len()
        invariant
            i <= a.len(),
            a.len() == b.len(),
            forall|j: int| 0 <= j < i ==> a@[j] == b@[j],
        decreases a.len() - i,
    {
        if a[i] != b[i] {
            assert(a@[i as int] != b@[i as int]);
            return false;
        }
        i = i + 1;
    }
    assert(a@ =~= b@);
    true
}

/// Whether two strings hold the same text.
pub fn same(a: &str, b: &str) -> (r: bool)
    ensures
        r == (a@ == b@),
{
    let x = chars_of(a);
    let y = chars_of(b);
    same_chars(x.as_slice(), y.as_slice())
}

/// Whether `a` comes before or is `b`, in the order of their code points.
pub fn le(a: &str, b: &str) -> (r: bool)
    ensures
        r == le_spec(a@, b@),
{
    let x = chars_of(a);
    let y = chars_of(b);
    let mut i: usize = 0;
    assert(a@.skip(0) == a@ && b@.skip(0) == b@);
    while i < x.len() && i < y.len()
        invariant
            x@ == a@,
            y@ == b@,
            i <= x.len(),
            i <= y.len(),
            le_spec(a@.skip(i as int), b@.skip(i as int)) == le_spec(a@, b@),
        decreases x.len() - i,
    {
        if x[i] != y[i] {
            return x[i] < y[i];
        }
        assert(a@.skip(i as int).skip(1) == a@.skip(i + 1));
        assert(b@.skip(i as int).skip(1) == b@.skip(i + 1));
        i = i + 1;
    }
    i >= x.len()
}

/// Whether `s` begins with `p`.
pub fn starts_with(s: &str, p: &str) -> (r: bool)
    ensures
        r == starts_with_spec(s@, p@),
{
    let x = chars_of(s);
    let y = chars_of(p);
    if y.len() > x.len() {
        return false;
    }
    let head = slice_subrange(x.as_slice(), 0, y.len());
    assert(head@ == s@.take(p@.len() as int));
    same_chars(head, y.as_slice())
}

/// Whether `s` ends with `p`.
pub fn ends_with(s: &str, p: &str) -> (r: bool)
    ensures
        r == ends_with_spec(s@, p@),
{
    let x = chars_of(s);
    let y = chars_of(p);
    if y.len() > x.len() {
        return false;
    }
    let tail = slice_subrange(x.as_slice(), x.len() - y.len(), x.len());
    assert(tail@ == s@.skip(s@.len() - p@.len()));
    same_chars(tail, y.as_slice())
}

/// The first `n` characters of `s`, or all of it when it is shorter.
pub fn take(s: &str, n: usize) -> (r: String)
    ensures
        r@ == (if n <= s@.len() {
            s@.take(n as int)
        } else {
            s@
        }),
{
    let x = chars_of(s);
    if n <= x.len() {
        let head = slice_subrange(x.as_slice(), 0, n);
        assert(head@ == s@.take(n as int));
        string_of(head)
    } else {
        s.to_owned()
    }
}

/// `s` without its first `n` characters.
pub fn skip(s: &str, n: usize) -> (r: String)
    requires
        n <= s@.len(),
    ensures
        r@ == s@.skip(n as int),
{
    let x = chars_of(s);
    let tail = slice_subrange(x.as_slice(), n, x.len());
    assert(tail@ == s@.skip(n as int));
    string_of(tail)
}

/// `s` without the copies of `p` that it begins with.
pub fn trim_start_matches(s: &str, p: &str) -> (r: String)
    ensures
        r@ == strip_all(s@, p@),
{
    let mut rest: String = s.to_owned();
    let n: usize = p.unicode_len();
    if n == 0 {
        return rest;
    }
    while starts_with(rest.as_str(), p)
        invariant
            n == p@.len(),
            n > 0,
            strip_all(rest@, p@) == strip_all(s@, p@),
        decreases rest@.len(),
    {
        rest = skip(rest.as_str(), n);
    }
    rest
}

/// `s` without the copies of `c` that it ends with.
pub fn trim_end_matches(s: &str, c: char) -> (r: String)
    ensures
        r@ == strip_end(s@, c),
{
    let mut v = chars_of(s);
    while v.len() > 0 && v[v.len() - 1] == c
        invariant
            strip_end(v@, c) == strip_end(s@, c),
        decreases v.len(),
    {
        let ghost before_pop = v@;
        v.pop();
        assert(v@ == before_pop.drop_last());
    }
    string_of(v.as_slice())
}

/// The position of the first `c` in `s`, or its length.
fn position(s: &[char], c: char) -> (i: usize)
    ensures
        i == scan(s@, c, 0),
        i <= s@.len(),
{
    let mut i: usize = 0;
    while i < s.len() && s[i] != c
        invariant
            i <= s.len(),
            scan(s@, c, i as int) == scan(s@, c, 0),
        decreases s.len() - i,
    {
        i = i + 1;
    }
    i
}

/// The part of `s` before the first `c`, or all of `s`.
pub fn before_first(s: &str, c: char) -> (r: String)
    ensures
        r@ == before(s@, c),
{
    let x = chars_of(s);
    let i: usize = position(x.as_slice(), c);
    let head = slice_subrange(x.as_slice(), 0, i);
    assert(head@ == s@.take(i as int));
    string_of(head)
}

/// The parts of `s` before and after the first `c`, where there is one.
pub fn split_once(s: &str, c: char) -> (r: Option<(String, String)>)
    ensures
        match r {
            Some((a, b)) => scan(s@, c, 0) < s@.len() && a@ == before(s@, c) && b@ == s@.skip(
                scan(s@, c, 0) + 1,
            ),
            None => scan(s@, c, 0) == s@.len(),
        },
{
    let x = chars_of(s);
    let i: usize = position(x.as_slice(), c);
    if i < x.len() {
        let head = slice_subrange(x.as_slice(), 0, i);
        let tail = slice_subrange(x.as_slice(), i + 1, x.len());
        assert(head@ == s@.take(i as int));
        assert(tail@ == s@.skip(i + 1));
        Some((string_of(head), string_of(tail)))
    } else {
        None
    }
}

/// The part of `s` after the last `c`, or all of `s`.
pub fn after_last(s: &str, c: char) -> (r: String)
    ensures
        r@ == after_last_spec(s@, c),
{
    let x = chars_of(s);
    let mut i: usize = x.len();
    while i > 0 && x[i - 1] != c
        invariant
            i <= x.len(),
            rscan(x@, c, i as int) == rscan(x@, c, x@.len() as int),
        decreases i,
    {
        i = i - 1;
    }
    let tail = slice_subrange(x.as_slice(), i, x.len());
    assert(tail@ == s@.skip(i as int));
    string_of(tail)
}

/// The position, in characters, of the first `p` in `s` at or after `from`.
pub fn find_at(s: &str, p: &str, from: usize) -> (r: Option<usize>)
    ensures
        match r {
            Some(i) => find_from(s@, p@, from as int) == Some(i as int),
            None => find_from(s@, p@, from as int) is None,
        },
{
    let x = chars_of(s);
    let y = chars_of(p);
    let mut i: usize = from;
    while i <= x.len() && y.len() <= x.len() - i
        invariant
            x@ == s@,
            y@ == p@,
            from <= i,
            i <= x.len() || i == from,
            find_from(s@, p@, i as int) == find_from(s@, p@, from as int),
        decreases x.len() - i,
    {
        let part = slice_subrange(x.as_slice(), i, i + y.len());
        if same_chars(part, y.as_slice()) {
            return Some(i);
        }
        if i == x.len() {
            assert(find_from(s@, p@, i + 1) is None);
            return None;
        }
        i = i + 1;
    }
    None
}

/// The position, in characters, of the first `p` in `s`.
pub fn find(s: &str, p: &str) -> (r: Option<usize>)
    ensures
        match r {
            Some(i) => find_from(s@, p@, 0) == Some(i as int) && i + p@.len() <= s@.len(),
            None => find_from(s@, p@, 0) is None,
        },
{
    proof {
        lemma_find_from_range(s@, p@, 0);
    }
    find_at(s, p, 0)
}

/// Whether `p` stands somewhere in `s`.
pub fn contains(s: &str, p: &str) -> (r: bool)
    ensures
        r == contains_spec(s@, p@),
{
    match find(s, p) {
        Some(_) => true,
        None => false,
    }
}

/// `s` with each `p`, taken from the left, replaced by `r`.
pub fn replace(s: &str, p: &str, r: &str) -> (t: String)
    requires
        p@.len() > 0,
    ensures
        t@ == replaced(s@, p@, r@),
{
    let n: usize = p.unicode_len();
    let mut out: String = String::new();
    let mut rest: String = s.to_owned();
    assert(out@ + replaced(rest@, p@, r@) == replaced(s@, p@, r@));
    loop
        invariant
            n == p@.len(),
            n > 0,
            out@ + replaced(rest@, p@, r@) == replaced(s@, p@, r@),
        decreases rest@.len(),
    {
        match find(rest.as_str(), p) {
            None => {
                out.append(rest.as_str());
                return out;
            },
            Some(i) => {
                let ghost old_out = out@;
                let ghost old_rest = rest@;
                let total: usize = rest.unicode_len();
                assert(i + n <= total);
                let head = take(rest.as_str(), i);
                out.append(head.as_str());
                out.append(r);
                rest = skip(rest.as_str(), i + n);
                assert(replaced(old_rest, p@, r@) == old_rest.take(i as int) + r@ + replaced(
                    rest@,
                    p@,
                    r@,
                ));
                assert(out@ + replaced(rest@, p@, r@) =~= old_out + replaced(old_rest, p@, r@));
            },
        }
    }
}

/// `s` with the character `a` replaced by `b` throughout.
pub fn replace_char(s: &str, a: char, b: char) -> (t: String)
    ensures
        t@ == s@.map_values(|c: char| if c == a { b } else { c }),
{
    let x = chars_of(s);
    let mut out: String = String::new();
    let mut i: usize = 0;
    while i < x.len()
        invariant
            i <= x.len(),
            out@ == x@.take(i as int).map_values(|c: char| if c == a { b } else { c }),
        decreases x.len() - i,
    {
        if x[i] == a {
            out.push(b);
        } else {
            out.push(x[i]);
        }
        i = i + 1;
        assert(out@ == x@.take(i as int).map_values(|c: char| if c == a { b } else { c }));
    }
    assert(x@.take(x@.len() as int) == x@);
    out
}

/// Whether Unicode gives the character the property White_Space.
pub fn is_whitespace(c: char) -> (r: bool)
    ensures
        r == is_space(c),
{
    let u: u32 = c as u32;
    (0x9 <= u && u <= 0xd) || u == 0x20 || u == 0x85 || u == 0xa0 || u == 0x1680 || (0x2000 <= u
        && u <= 0x200a) || u == 0x2028 || u == 0x2029 || u == 0x202f || u == 0x205f || u == 0x3000
}

/// `s` without white space at either end.
pub fn trim(s: &str) -> (r: String)
    ensures
        r@ == trim_spec(s@),
{
    let x = chars_of(s);
    let mut i: usize = 0;
    assert(s@.skip(0) == s@);
    while i < x.len() && is_whitespace(x[i])
        invariant
            i <= x.len(),
            x@ == s@,
            trim_start_spec(s@.skip(i as int)) == trim_start_spec(s@),
        decreases x.len() - i,
    {
        assert(s@.skip(i as int).skip(1) == s@.skip(i + 1));
        i = i + 1;
    }
    let ghost mid = s@.skip(i as int);
    let mut n: usize = x.len();
    assert(mid == s@.subrange(i as int, n as int));
    while n > i && is_whitespace(x[n - 1])
        invariant
            i <= n <= x.len(),
            x@ == s@,
            trim_end_spec(s@.subrange(i as int, n as int)) == trim_end_spec(mid),
        decreases n,
    {
        assert(s@.subrange(i as int, n as int).drop_last() == s@.subrange(i as int, n - 1));
        n = n - 1;
    }
    string_of(slice_subrange(x.as_slice(), i, n))
}

/// `s` without the white space in front.
pub fn trim_start(s: &str) -> (r: String)
    ensures
        r@ == trim_start_spec(s@),
{
    let x = chars_of(s);
    let mut i: usize = 0;
    assert(s@.skip(0) == s@);
    while i < x.len() && is_whitespace(x[i])
        invariant
            i <= x.len(),
            x@ == s@,
            trim_start_spec(s@.skip(i as int)) == trim_start_spec(s@),
        decreases x.len() - i,
    {
        assert(s@.skip(i as int).skip(1) == s@.skip(i + 1));
        i = i + 1;
    }
    let n: usize = x.len();
    assert(s@.subrange(i as int, n as int) =~= s@.skip(i as int));
    string_of(slice_subrange(x.as_slice(), i, n))
}

/// The first word of `s`; empty where it holds white space alone.
pub fn first_word(s: &str) -> (r: String)
    ensures
        r@ == first_word_spec(s@),
{
    let x = chars_of(s);
    let mut i: usize = 0;
    assert(s@.skip(0) == s@);
    while i < x.len() && is_whitespace(x[i])
        invariant
            i <= x.len(),
            x@ == s@,
            trim_start_spec(s@.skip(i as int)) == trim_start_spec(s@),
        decreases x.len() - i,
    {
        assert(s@.skip(i as int).skip(1) == s@.skip(i + 1));
        i = i + 1;
    }
    let ghost rest = s@.skip(i as int);
    assert(trim_start_spec(s@) == rest);
    let mut out: String = String::new();
    assert(out@ + until_space(s@.skip(i as int)) == until_space(rest));
    while i < x.len() && !is_whitespace(x[i])
        invariant
            i <= x.len(),
            x@ == s@,
            out@ + until_space(s@.skip(i as int)) == until_space(rest),
        decreases x.len() - i,
    {
        assert(s@.skip(i as int).skip(1) == s@.skip(i + 1));
        out.push(x[i]);
        i = i + 1;
        assert(out@ + until_space(s@.skip(i as int)) =~= until_space(rest));
    }
    assert(until_space(s@.skip(i as int)) =~= Seq::empty());
    assert(out@ =~= until_space(rest));
    out
}

/// The parts of `s` between the occurrences of `c`.
pub fn split(s: &str, c: char) -> (r: Vec<String>)
    ensures
        views(r@) == split_spec(s@, c),
{
    let x = chars_of(s);
    let mut out: Vec<String> = Vec::new();
    let mut start: usize = 0;
    assert(s@.skip(0) == s@);
    assert(views(out@) + split_spec(s@, c) =~= split_spec(s@, c));
    loop
        invariant
            x@ == s@,
            start <= x.len(),
            views(out@) + split_spec(s@.skip(start as int), c) == split_spec(s@, c),
        decreases x.len() - start,
    {
        let tail = slice_subrange(x.as_slice(), start, x.len());
        assert(tail@ == s@.skip(start as int));
        let i: usize = position(tail, c);
        let ghost old_out = views(out@);
        if i >= tail.len() {
            out.push(string_of(tail));
            assert(views(out@) =~= old_out.push(tail@));
            assert(views(out@) =~= old_out + seq![tail@]);
            return out;
        }
        let part = slice_subrange(tail, 0, i);
        assert(part@ == tail@.take(i as int));
        out.push(string_of(part));
        assert(views(out@) =~= old_out.push(part@));
        assert(tail@.skip(i + 1) == s@.skip(start + i + 1));
        assert(views(out@) + split_spec(s@.skip(start + i + 1), c) =~= old_out + split_spec(
            s@.skip(start as int),
            c,
        ));
        start = start + i + 1;
    }
}

/// The value of decimal digits, when it is at most `max`.
fn digits(s: &[char], max: u64) -> (r: Option<u64>)
    ensures
        match r {
            Some(v) => s@.len() > 0 && all_digits(s@) && digits_value(s@) == v && v <= max,
            None => s@.len() == 0 || !all_digits(s@) || digits_value(s@) > max,
        },
{
    if s.len() == 0 {
        return None;
    }
    let mut value: u64 = 0;
    let mut over: bool = false;
    let mut i: usize = 0;
    assert(s@.take(0).len() == 0);
    while i < s.len()
        invariant
            i <= s.len(),
            all_digits(s@.take(i as int)),
            over ==> digits_value(s@.take(i as int)) > max,
            !over ==> digits_value(s@.take(i as int)) == value && value <= max,
        decreases s.len() - i,
    {
        let c: char = s[i];
        if c < '0' || c > '9' {
            assert(s@[i as int] == c);
            return None;
        }
        let d: u64 = (c as u32 - '0' as u32) as u64;
        assert(s@.take(i + 1).drop_last() == s@.take(i as int));
        assert(s@.take(i + 1).last() == c);
        assert(digits_value(s@.take(i + 1)) == digits_value(s@.take(i as int)) * 10 + d);
        assert forall|j: int| 0 <= j < i + 1 implies '0' <= #[trigger] s@.take(i + 1)[j] && s@.take(
            i + 1,
        )[j] <= '9' by {
            if j < i {
                assert(s@.take(i + 1)[j] == s@.take(i as int)[j]);
            }
        }
        if !over {
            let wide: u128 = value as u128 * 10 + d as u128;
            if wide > max as u128 {
                over = true;
            } else {
                value = wide as u64;
            }
        }
        i = i + 1;
    }
    assert(s@.take(s@.len() as int) == s@);
    if over {
        None
    } else {
        Some(value)
    }
}

/// The unsigned number up to `max` that `s` writes.
pub fn parse_number(s: &str, max: u64) -> (r: Option<u64>)
    ensures
        match r {
            Some(v) => parse_unsigned(s@, max as nat) == Some(v as nat) && v <= max,
            None => parse_unsigned(s@, max as nat) is None,
        },
{
    let x = chars_of(s);
    if x.len() > 0 && x[0] == '+' {
        let tail = slice_subrange(x.as_slice(), 1, x.len());
        assert(tail@ == s@.skip(1));
        digits(tail, max)
    } else {
        digits(x.as_slice(), max)
    }
}

/// The `i64` that `s` writes.
pub fn parse_i64(s: &str) -> (r: Option<i64>)
    ensures
        match r {
            Some(v) => parse_i64_spec(s@) == Some(v as int),
            None => parse_i64_spec(s@) is None,
        },
{
    let x = chars_of(s);
    let neg: bool = x.len() > 0 && x[0] == '-';
    let signed: bool = x.len() > 0 && (x[0] == '-' || x[0] == '+');
    let start: usize = if signed {
        1
    } else {
        0
    };
    let tail = slice_subrange(x.as_slice(), start, x.len());
    assert(signed ==> tail@ == s@.skip(1));
    assert(!signed ==> tail@ == s@);
    if neg {
        match digits(tail, 0x8000_0000_0000_0000) {
            Some(v) => {
                if v == 0x8000_0000_0000_0000 {
                    Some(i64::MIN)
                } else {
                    Some(0 - v as i64)
                }
            },
            None => None,
        }
    } else {
        match digits(tail, 0x7fff_ffff_ffff_ffff) {
            Some(v) => Some(v as i64),
            None => None,
        }
    }
}

/// The character of a decimal or lower-case hexadecimal digit.
fn digit(d: u8) -> (c: char)
    requires
        d < 16,
    ensures
        c == digit_char(d as nat),
{
    if d < 10 {
        (48 + d) as char
    } else {
        (97 + (d - 10)) as char
    }
}

/// `n` written in decimal.
pub fn to_decimal(n: u64) -> (r: String)
    ensures
        r@ == decimal(n as nat),
    decreases n,
{
    if n < 10 {
        let mut s: String = String::new();
        s.push(digit(n as u8));
        assert(s@ =~= seq![digit_char(n as nat)]);
        s
    } else {
        let mut s: String = to_decimal(n / 10);
        s.push(digit((n % 10) as u8));
        s
    }
}

/// `n` written in decimal, with a sign when it is negative.
pub fn to_signed_decimal(n: i64) -> (r: String)
    ensures
        r@ == signed_decimal(n as int),
{
    if n < 0 {
        let mut s: String = String::new();
        s.push('-');
        let m: u64 = (0 - (n as i128)) as u64;
        let d = to_decimal(m);
        s.append(d.as_str());
        assert(s@ =~= seq!['-'] + decimal(m as nat));
        s
    } else {
        to_decimal(n as u64)
    }
}

/// `n` written in lower-case hexadecimal.
pub fn to_hex(n: u64) -> (r: String)
    ensures
        r@ == hex(n as nat),
    decreases n,
{
    if n < 16 {
        let mut s: String = String::new();
        s.push(digit(n as u8));
        assert(s@ =~= seq![digit_char(n as nat)]);
        s
    } else {
        let mut s: String = to_hex(n / 16);
        s.push(digit((n % 16) as u8));
        s
    }
}

/// Bytes written as two lower-case hexadecimal digits each.
pub fn to_hex_bytes(b: &[u8]) -> (r: String)
    ensures
        r@ == hex_bytes(b@),
{
    let mut s: String = String::new();
    let mut i: usize = 0;
    while i < b.len()
        invariant
            i <= b.len(),
            s@ == hex_bytes(b@.take(i as int)),
        decreases b.len() - i,
    {
        let ghost old_s = s@;
        s.push(digit(b[i] / 16));
        s.push(digit(b[i] % 16));
        assert(b@.take(i + 1).drop_last() == b@.take(i as int));
        assert(s@ =~= old_s + seq![
            digit_char(b@[i as int] as nat / 16),
            digit_char(b@[i as int] as nat % 16),
        ]);
        i = i + 1;
    }
    assert(b@.take(b@.len() as int) == b@);
    s
}

// ── Laws ────────────────────────────────────────────────────────────

/// Whether a text holds no `c`.
pub open spec fn lacks(s: Seq<char>, c: char) -> bool {
    forall|i: int| 0 <= i < s.len() ==> #[trigger] s[i] != c
}

/// The digits of a number are digits and write it.
pub proof fn lemma_decimal_value(n: nat)
    ensures
        decimal(n).len() > 0,
        all_digits(decimal(n)),
        digits_value(decimal(n)) == n,
    decreases n,
{
    if n >= 10 {
        lemma_decimal_value(n / 10);
        assert(decimal(n).drop_last() =~= decimal(n / 10));
        assert(decimal(n).last() == digit_char(n % 10));
    } else {
        assert(decimal(n).drop_last() =~= Seq::empty());
        assert(decimal(n).last() == digit_char(n));
        assert(digits_value(decimal(n).drop_last()) == 0);
    }
}

/// A number that was written in decimal reads back as itself.
pub proof fn law_decimal_read_back(n: nat, max: nat)
    requires
        n <= max,
    ensures
        parse_unsigned(decimal(n), max) == Some(n),
{
    lemma_decimal_value(n);
    assert('0' <= decimal(n)[0]);
}

/// A number with a sign that was written in decimal reads back as itself.
pub proof fn law_signed_read_back(n: i64)
    ensures
        parse_i64_spec(signed_decimal(n as int)) == Some(n as int),
{
    if n < 0 {
        let m = (-(n as int)) as nat;
        lemma_decimal_value(m);
        let s = signed_decimal(n as int);
        assert(s.skip(1) =~= decimal(m));
        assert(s[0] == '-');
    } else {
        lemma_decimal_value(n as nat);
        assert('0' <= decimal(n as nat)[0]);
    }
}

/// The first `c` of a text stands behind a part that holds none.
pub proof fn law_scan_found(a: Seq<char>, c: char, b: Seq<char>, i: int)
    requires
        lacks(a, c),
        0 <= i <= a.len(),
    ensures
        scan(a + seq![c] + b, c, i) == a.len(),
    decreases a.len() - i,
{
    let s = a + seq![c] + b;
    assert(s[a.len() as int] == c);
    if i < a.len() {
        assert(s[i] == a[i]);
        law_scan_found(a, c, b, i + 1);
    }
}

/// A text without `c` is scanned to its end.
pub proof fn law_scan_not_found(s: Seq<char>, c: char, i: int)
    requires
        lacks(s, c),
        0 <= i <= s.len(),
    ensures
        scan(s, c, i) == s.len(),
    decreases s.len() - i,
{
    if i < s.len() {
        law_scan_not_found(s, c, i + 1);
    }
}

/// The part before a mark is what stands before the first, and all of a text without
/// one.
pub proof fn law_before(a: Seq<char>, c: char, b: Seq<char>)
    requires
        lacks(a, c),
    ensures
        before(a + seq![c] + b, c) == a,
        before(a, c) == a,
{
    law_scan_found(a, c, b, 0);
    law_scan_not_found(a, c, 0);
    assert((a + seq![c] + b).take(a.len() as int) =~= a);
    assert(a.take(a.len() as int) =~= a);
}

proof fn lemma_rscan(a: Seq<char>, c: char, b: Seq<char>, i: int)
    requires
        lacks(b, c),
        a.len() + 1 <= i <= a.len() + 1 + b.len(),
    ensures
        rscan(a + seq![c] + b, c, i) == a.len() + 1,
    decreases i,
{
    let s = a + seq![c] + b;
    if i > a.len() + 1 {
        assert(s[i - 1] == b[i - 2 - a.len()]);
        lemma_rscan(a, c, b, i - 1);
    } else {
        assert(s[i - 1] == c);
    }
}

/// The part after the last mark is what stands behind it.
pub proof fn law_after_last(a: Seq<char>, c: char, b: Seq<char>)
    requires
        lacks(b, c),
    ensures
        after_last_spec(a + seq![c] + b, c) == b,
{
    let s = a + seq![c] + b;
    lemma_rscan(a, c, b, s.len() as int);
    assert(s.skip(a.len() as int + 1) =~= b);
}

/// A text is split at each mark; what stands between the marks comes out in order.
pub proof fn law_split(a: Seq<char>, c: char, b: Seq<char>)
    requires
        lacks(a, c),
    ensures
        split_spec(a, c) == seq![a],
        split_spec(a + seq![c] + b, c) == seq![a] + split_spec(b, c),
{
    let s = a + seq![c] + b;
    law_scan_found(a, c, b, 0);
    law_scan_not_found(a, c, 0);
    assert(s.take(a.len() as int) =~= a);
    assert(s.skip(a.len() as int + 1) =~= b);
}

/// Marks at the end are taken away, and nothing else is.
pub proof fn law_strip_end(s: Seq<char>, c: char)
    ensures
        strip_end(s.push(c), c) == strip_end(s, c),
        s.len() > 0 && s.last() != c ==> strip_end(s, c) == s,
{
    assert(s.push(c).drop_last() =~= s);
}

/// White space around a text is taken away, and nothing else is.
pub proof fn law_trim(c: char, s: Seq<char>)
    requires
        is_space(c),
    ensures
        trim_start_spec(seq![c] + s) == trim_start_spec(s),
        trim_end_spec(s.push(c)) == trim_end_spec(s),
        s.len() > 0 && !is_space(s[0]) && !is_space(s.last()) ==> trim_spec(s) == s,
{
    assert((seq![c] + s).skip(1) =~= s);
    assert(s.push(c).drop_last() =~= s);
}

/// A text without the first character of what is sought holds none of it.
pub proof fn law_replaced_none(s: Seq<char>, p: Seq<char>, r: Seq<char>)
    requires
        p.len() > 0,
        lacks(s, p[0]),
    ensures
        replaced(s, p, r) == s,
{
    lemma_find_from_range(s, p, 0);
    match find_from(s, p, 0) {
        Some(i) => {
            assert(s.subrange(i, i + p.len())[0] == s[i]);
        },
        None => {},
    }
}

/// The first place of what is sought is replaced, and the rest is as if it stood alone.
pub proof fn law_replaced_first(a: Seq<char>, p: Seq<char>, r: Seq<char>, b: Seq<char>)
    requires
        p.len() > 0,
        lacks(a, p[0]),
    ensures
        replaced(a + p + b, p, r) == a + r + replaced(b, p, r),
{
    let s = a + p + b;
    let n = a.len() as int;
    assert(s.subrange(n, n + p.len()) =~= p);
    assert forall|k: int| 0 <= k < n implies #[trigger] s.subrange(k, k + p.len()) != p by {
        assert(s.subrange(k, k + p.len())[0] == a[k]);
    }
    lemma_first_found(s, p, 0, n);
    assert(s.take(n) =~= a);
    assert(s.skip(n + p.len()) =~= b);
}

/// The first word of a text is what stands before its first space.
pub proof fn law_first_word(w: Seq<char>, rest: Seq<char>)
    requires
        w.len() > 0,
        forall|i: int| 0 <= i < w.len() ==> !is_space(#[trigger] w[i]),
    ensures
        first_word_spec(w + seq![' '] + rest) == w,
        first_word_spec(w) == w,
{
    let s = w + seq![' '] + rest;
    assert(s[0] == w[0]);
    assert(!is_space(w[0]));
    lemma_until_space(w, seq![' '] + rest);
    assert(s =~= w + (seq![' '] + rest));
    lemma_until_space(w, Seq::empty());
    assert(w + Seq::<char>::empty() =~= w);
}

proof fn lemma_until_space(w: Seq<char>, rest: Seq<char>)
    requires
        forall|i: int| 0 <= i < w.len() ==> !is_space(#[trigger] w[i]),
        rest.len() > 0 ==> is_space(rest[0]),
    ensures
        until_space(w + rest) == w,
    decreases w.len(),
{
    let s = w + rest;
    if w.len() == 0 {
        assert(s =~= rest);
        assert(until_space(s) =~= w);
    } else {
        assert(s[0] == w[0]);
        assert(s.skip(1) =~= w.skip(1) + rest);
        assert forall|i: int| 0 <= i < w.skip(1).len() implies !is_space(#[trigger] w.skip(1)[i]) by {
            assert(w.skip(1)[i] == w[i + 1]);
        }
        lemma_until_space(w.skip(1), rest);
        assert(seq![w[0]] + w.skip(1) =~= w);
    }
}

} // verus!
