//! Text as it is spoken.

use vstd::prelude::*;
use vstd::slice::slice_subrange;

use crate::text;

verus! {

// ── Patterns ────────────────────────────────────────────────────────

/// A fenced block of code.
pub const CODE_BLOCKS: &'static str = "(?s)```.*?```";

/// Code within a line.
pub const INLINE_CODE: &'static str = "`([^`]*)`";

/// The mark of a heading.
pub const HEADERS: &'static str = "(?m)^#{1,6}\\s+";

/// Bold italic text.
pub const BOLD_ITALIC: &'static str = "\\*\\*\\*(.+?)\\*\\*\\*";

/// Bold text.
pub const BOLD: &'static str = "\\*\\*(.+?)\\*\\*";

/// Italic text.
pub const ITALIC: &'static str = "\\*(.+?)\\*";

/// Underlined text.
pub const UNDERLINE: &'static str = "__(.+?)__";

/// A link with its text.
pub const LINKS: &'static str = "\\[([^\\]]+)\\]\\([^)]+\\)";

/// An image with its text.
pub const IMAGES: &'static str = "!\\[([^\\]]*)\\]\\([^)]+\\)";

/// A URL.
pub const URLS: &'static str = "https?://\\S+";

/// The mark of a list item.
pub const BULLET_POINTS: &'static str = "(?m)^\\s*[-*+]\\s+";

/// The number of a list item.
pub const NUMBERED_LISTS: &'static str = "(?m)^\\s*\\d+\\.\\s+";

/// A horizontal rule.
pub const HORIZ_RULES: &'static str = "(?m)^\\s*[-*_]{3,}\\s*$";

/// The mark of a quotation.
pub const BLOCKQUOTES: &'static str = "(?m)^>\\s?";

/// Struck text.
pub const STRIKETHROUGH: &'static str = "~~(.+?)~~";

/// A word in capitals.
pub const ALL_CAPS: &'static str = "\\b[A-Z]{2,}\\b";

/// A break between paragraphs.
pub const PARA_BREAKS: &'static str = "\\n{2,}";

/// A line break.
pub const NEWLINES: &'static str = "\\n";

/// Several full stops.
pub const MULTI_PERIODS: &'static str = "\\.(\\s*\\.)+";

/// Several spaces.
pub const MULTI_SPACES: &'static str = "  +";

/// Whether a text is one of the patterns above.
pub open spec fn is_pattern(p: Seq<char>) -> bool {
    ||| p == CODE_BLOCKS@
    ||| p == INLINE_CODE@
    ||| p == HEADERS@
    ||| p == BOLD_ITALIC@
    ||| p == BOLD@
    ||| p == ITALIC@
    ||| p == UNDERLINE@
    ||| p == LINKS@
    ||| p == IMAGES@
    ||| p == URLS@
    ||| p == BULLET_POINTS@
    ||| p == NUMBERED_LISTS@
    ||| p == HORIZ_RULES@
    ||| p == BLOCKQUOTES@
    ||| p == STRIKETHROUGH@
    ||| p == ALL_CAPS@
    ||| p == PARA_BREAKS@
    ||| p == NEWLINES@
    ||| p == MULTI_PERIODS@
    ||| p == MULTI_SPACES@
}

/// What `Regex::replace_all` makes of a text, by the pattern and the replacement.
pub uninterp spec fn regex_replaced(pattern: Seq<char>, s: Seq<char>, with: Seq<char>) -> Seq<char>;

/// The same character several times.
pub open spec fn rep(c: char, n: nat) -> Seq<char> {
    Seq::new(n, |i: int| c)
}

/// Whether `n` times `c` stands at `i`.
pub open spec fn run_at(s: Seq<char>, c: char, n: nat, i: int) -> bool {
    0 <= i && i + n <= s.len() && forall|k: int| i <= k < i + n ==> #[trigger] s[k] == c
}

/// Whether `n` times `c` stands anywhere.
pub open spec fn run(s: Seq<char>, c: char, n: nat) -> bool {
    exists|i: int| #[trigger] run_at(s, c, n, i)
}

/// Whether a character stands in a text twice or more.
pub open spec fn twice(s: Seq<char>, c: char) -> bool {
    exists|i: int, j: int| 0 <= i < j < s.len() && #[trigger] s[i] == c && #[trigger] s[j] == c
}

/// Whether a text lacks what every match of a pattern holds.
#[verifier::opaque]
pub open spec fn unmatched(p: Seq<char>, s: Seq<char>) -> bool {
    ||| p == CODE_BLOCKS@ && !run(s, '`', 3)
    ||| p == INLINE_CODE@ && !s.contains('`')
    ||| p == HEADERS@ && !s.contains('#')
    ||| p == BOLD_ITALIC@ && !run(s, '*', 3)
    ||| p == BOLD@ && !run(s, '*', 2)
    ||| p == ITALIC@ && !s.contains('*')
    ||| p == UNDERLINE@ && !run(s, '_', 2)
    ||| p == LINKS@ && !s.contains('[')
    ||| p == IMAGES@ && !s.contains('[')
    ||| p == URLS@ && !s.contains(':')
    ||| p == BULLET_POINTS@ && !s.contains('-') && !s.contains('*') && !s.contains('+')
    ||| p == NUMBERED_LISTS@ && !s.contains('.')
    ||| p == HORIZ_RULES@ && !s.contains('-') && !s.contains('*') && !s.contains('_')
    ||| p == BLOCKQUOTES@ && !s.contains('>')
    ||| p == STRIKETHROUGH@ && !run(s, '~', 2)
    ||| p == PARA_BREAKS@ && !run(s, '\n', 2)
    ||| p == NEWLINES@ && !s.contains('\n')
    ||| p == MULTI_PERIODS@ && !twice(s, '.')
    ||| p == MULTI_SPACES@ && !run(s, ' ', 2)
}

/// A text with a part between two marks of `n` times `d`.
pub open spec fn enclose(d: char, n: nat, a: Seq<char>, w: Seq<char>, b: Seq<char>) -> Seq<char> {
    a + rep(d, n) + w + rep(d, n) + b
}

/// A text with a link.
pub open spec fn linked(a: Seq<char>, w: Seq<char>, u: Seq<char>, b: Seq<char>) -> Seq<char> {
    a + seq!['['] + w + seq![']', '('] + u + seq![')'] + b
}

/// Whether a pattern is that of a part between two marks of `n` times `d`.
pub open spec fn is_enclosing(p: Seq<char>, d: char, n: nat) -> bool {
    ||| p == INLINE_CODE@ && d == '`' && n == 1
    ||| p == BOLD_ITALIC@ && d == '*' && n == 3
    ||| p == BOLD@ && d == '*' && n == 2
    ||| p == ITALIC@ && d == '*' && n == 1
    ||| p == UNDERLINE@ && d == '_' && n == 2
    ||| p == STRIKETHROUGH@ && d == '~' && n == 2
}

/// What a replacement puts in the place of a match whose first group is `w`.
pub open spec fn filled(with: Seq<char>, w: Seq<char>) -> Seq<char> {
    if with == "$1"@ {
        w
    } else {
        with
    }
}

/// What the patterns mean. A text without a match stays as it is. Where one match
/// stands between `a` and `b` and nothing else can match, it is replaced: by its first
/// group with `$1`, and by the replacement itself where that holds no `$`.
#[verifier::opaque]
pub open spec fn means(p: Seq<char>, s: Seq<char>, with: Seq<char>, r: Seq<char>) -> bool {
    &&& unmatched(p, s) ==> r == s
    &&& with == "$1"@ || !with.contains('$') ==> forall|d: char, n: nat, a: Seq<char>, w: Seq<char>, b: Seq<char>|
        s == #[trigger] enclose(d, n, a, w, b) && is_enclosing(p, d, n) && !a.contains(d)
            && !w.contains(d) && !b.contains(d) && w.len() > 0 && !w.contains('\n') ==> r == a
            + filled(with, w) + b
    &&& with == "$1"@ || !with.contains('$') ==> forall|a: Seq<char>, w: Seq<char>, u: Seq<char>, b: Seq<char>|
        s == #[trigger] linked(a, w, u, b) && p == LINKS@ && !a.contains('[') && !w.contains(']')
            && !u.contains(')') && !b.contains('[') && w.len() > 0 && u.len() > 0 ==> r == a
            + filled(with, w) + b
    &&& !with.contains('$') ==> means_removed(p, s, with, r)
}

/// What the patterns of which no part is kept mean.
pub open spec fn means_removed(p: Seq<char>, s: Seq<char>, with: Seq<char>, r: Seq<char>) -> bool {
    &&& forall|a: Seq<char>, w: Seq<char>, b: Seq<char>|
        s == #[trigger] enclose('`', 3, a, w, b) && p == CODE_BLOCKS@ && !a.contains('`')
            && !w.contains('`') && !b.contains('`') ==> r == a + with + b
    &&& forall|a: Seq<char>, n: nat, b: Seq<char>|
        s == #[trigger] spaced('\n', n, a, b) && p == PARA_BREAKS@ && n >= 2 && !a.contains('\n')
            && !b.contains('\n') ==> r == a + with + b
    &&& forall|a: Seq<char>, b: Seq<char>|
        s == #[trigger] spaced('\n', 1, a, b) && p == NEWLINES@ && !a.contains('\n')
            && !b.contains('\n') ==> r == a + with + b
    &&& forall|a: Seq<char>, n: nat, b: Seq<char>|
        s == #[trigger] spaced('.', n, a, b) && p == MULTI_PERIODS@ && n >= 2 && !a.contains('.')
            && !b.contains('.') ==> r == a + with + b
    &&& forall|a: Seq<char>, n: nat, b: Seq<char>|
        s == #[trigger] spaced(' ', n, a, b) && p == MULTI_SPACES@ && n >= 2 && !run(a, ' ', 2)
            && !run(b, ' ', 2) && (a.len() > 0 ==> a.last() != ' ') && (b.len() > 0 ==> b[0] != ' ')
            ==> r == a + with + b
    &&& forall|n: nat, w: Seq<char>|
        s == #[trigger] led(rep('#', n), w) && p == HEADERS@ && 1 <= n <= 6 && starts_word(w)
            && !w.contains('#') ==> r == with + w
    &&& forall|m: char, w: Seq<char>|
        s == #[trigger] led(seq![m], w) && p == BULLET_POINTS@ && (m == '-' || m == '*' || m == '+')
            && starts_word(w) && !w.contains('-') && !w.contains('*') && !w.contains('+') ==> r
            == with + w
    &&& forall|m: Seq<char>, w: Seq<char>|
        s == #[trigger] led(m.push('.'), w) && p == NUMBERED_LISTS@ && m.len() > 0 && (forall|i: int|
            0 <= i < m.len() ==> '0' <= #[trigger] m[i] <= '9') && starts_word(w) && !w.contains('.')
            ==> r == with + w
    &&& forall|secure: bool, a: Seq<char>, u: Seq<char>, b: Seq<char>|
        s == #[trigger] with_url(secure, a, u, b) && p == URLS@ && !a.contains(':') && u.len() > 0
            && (forall|i: int| 0 <= i < u.len() ==> '!' <= #[trigger] u[i] <= '~') && !b.contains(
            ':',
        ) && (b.len() > 0 ==> b[0] == ' ') ==> r == a + with + b
    &&& forall|w: Seq<char>|
        s == #[trigger] led(seq!['>'], w) && p == BLOCKQUOTES@ && !w.contains('>') ==> r == with + w
}

/// A text with a URL.
pub open spec fn with_url(secure: bool, a: Seq<char>, u: Seq<char>, b: Seq<char>) -> Seq<char> {
    a + (if secure {
        "https://"@
    } else {
        "http://"@
    }) + u + b
}

/// Two parts with `n` times `c` between them.
pub open spec fn spaced(c: char, n: nat, a: Seq<char>, b: Seq<char>) -> Seq<char> {
    a + rep(c, n) + b
}

/// A text behind a mark and a space.
pub open spec fn led(m: Seq<char>, w: Seq<char>) -> Seq<char> {
    m + seq![' '] + w
}

/// Whether a text begins with something other than white space.
pub open spec fn starts_word(w: Seq<char>) -> bool {
    w.len() > 0 && !text::is_space(w[0])
}

/// Calls `Regex::new` and `replace_all` of `regex`; each pattern above is one that
/// `regex` accepts. Of what comes out it is claimed that a text in which the pattern
/// does not match stays as it is, and what becomes of one that it matches once.
#[verifier::external_body]
fn replace_all(pattern: &str, s: &str, with: &str) -> (r: String)
    requires
        is_pattern(pattern@),
    ensures
        r@ == regex_replaced(pattern@, s@, with@),
        means(pattern@, s@, with@, r@),
{
    regex::Regex::new(pattern).expect("a pattern of this module").replace_all(s, with).into_owned()
}

/// What `Regex::replace_all` makes of a text when it puts each match in lower case.
pub uninterp spec fn regex_lowered(pattern: Seq<char>, s: Seq<char>) -> Seq<char>;

/// Whether two capitals of the Latin alphabet stand side by side.
pub open spec fn two_capitals(s: Seq<char>) -> bool {
    exists|i: int| capital_pair(s, i)
}

/// Whether two capitals of the Latin alphabet stand at `i`.
pub open spec fn capital_pair(s: Seq<char>, i: int) -> bool {
    0 <= i && i + 1 < s.len() && 'A' <= s[i] <= 'Z' && 'A' <= s[i + 1] <= 'Z'
}

/// Whether a text is a word of two or more capitals of the Latin alphabet.
pub open spec fn all_capitals(w: Seq<char>) -> bool {
    w.len() >= 2 && forall|i: int| 0 <= i < w.len() ==> 'A' <= #[trigger] w[i] <= 'Z'
}

/// Three parts of a text.
pub open spec fn joined(a: Seq<char>, w: Seq<char>, b: Seq<char>) -> Seq<char> {
    a + w + b
}

/// What putting words in lower case means: a text without two capitals side by side
/// stays as it is, and the one word in capitals, where spaces or the ends of the text
/// stand around it, is put in lower case.
pub open spec fn means_lowered(p: Seq<char>, s: Seq<char>, r: Seq<char>) -> bool {
    p == ALL_CAPS@ ==> {
        &&& !two_capitals(s) ==> r == s
        &&& forall|a: Seq<char>, w: Seq<char>, b: Seq<char>|
            s == #[trigger] joined(a, w, b) && all_capitals(w) && !two_capitals(a) && !two_capitals(
                b,
            ) && (a.len() > 0 ==> a.last() == ' ') && (b.len() > 0 ==> b[0] == ' ') ==> r == joined(
                a,
                w.map_values(|c: char| lower_char(c)),
                b,
            )
    }
}

/// Calls `Regex::new` and `replace_all` of `regex` with [`lower`] for the matches; each
/// pattern above is one that `regex` accepts. Of words in capitals it is claimed that a
/// text without one stays as it is, and that a single one is put in lower case.
#[verifier::external_body]
fn lower_all(pattern: &str, s: &str) -> (r: String)
    requires
        is_pattern(pattern@),
    ensures
        r@ == regex_lowered(pattern@, s@),
        means_lowered(pattern@, s@, r@),
{
    regex::Regex::new(pattern).expect("a pattern of this module").replace_all(
        s,
        |c: &regex::Captures| lower(&c[0]),
    ).into_owned()
}

/// A letter of the Latin alphabet in lower case; anything else as it is.
pub open spec fn lower_char(c: char) -> char {
    if 'A' <= c && c <= 'Z' {
        (c as u32 + 32) as char
    } else {
        c
    }
}

/// A text with its Latin letters in lower case.
pub fn lower(s: &str) -> (r: String)
    ensures
        r@ == s@.map_values(|c: char| lower_char(c)),
{
    let x = text::chars_of(s);
    let mut out: String = String::new();
    let mut i: usize = 0;
    while i < x.len()
        invariant
            i <= x.len(),
            x@ == s@,
            out@ == s@.take(i as int).map_values(|c: char| lower_char(c)),
        decreases x.len() - i,
    {
        let c: char = x[i];
        if 'A' <= c && c <= 'Z' {
            let low: u8 = c as u8 + 32;
            out.push(low as char);
        } else {
            out.push(c);
        }
        i = i + 1;
        assert(out@ =~= s@.take(i as int).map_values(|c: char| lower_char(c)));
    }
    assert(s@.take(i as int) =~= s@);
    out
}

// ── Cleaning ────────────────────────────────────────────────────────

/// Text without the marks of Markdown, code and URLs.
pub open spec fn without_markup(s: Seq<char>) -> Seq<char> {
    let s0 = regex_replaced(CODE_BLOCKS@, s, ""@);
    let s1 = regex_replaced(INLINE_CODE@, s0, "$1"@);
    let s2 = regex_replaced(HEADERS@, s1, ""@);
    let s3 = regex_replaced(BOLD_ITALIC@, s2, "$1"@);
    let s4 = regex_replaced(BOLD@, s3, "$1"@);
    let s5 = regex_replaced(ITALIC@, s4, "$1"@);
    let s6 = regex_replaced(UNDERLINE@, s5, "$1"@);
    let s7 = regex_replaced(LINKS@, s6, "$1"@);
    let s8 = regex_replaced(IMAGES@, s7, "$1"@);
    let s9 = regex_replaced(URLS@, s8, ""@);
    let s10 = regex_replaced(BULLET_POINTS@, s9, ""@);
    let s11 = regex_replaced(NUMBERED_LISTS@, s10, ""@);
    let s12 = regex_replaced(HORIZ_RULES@, s11, ""@);
    let s13 = regex_replaced(BLOCKQUOTES@, s12, ""@);
    let s14 = regex_replaced(STRIKETHROUGH@, s13, "$1"@);
    s14
}

/// Text on one line, with pauses for its paragraphs.
pub open spec fn flattened(s: Seq<char>) -> Seq<char> {
    let s0 = regex_replaced(PARA_BREAKS@, s, ". "@);
    let s1 = regex_replaced(NEWLINES@, s0, " "@);
    let s2 = regex_replaced(MULTI_PERIODS@, s1, "."@);
    let s3 = regex_replaced(MULTI_SPACES@, s2, " "@);
    s3
}

/// Whether a character is no emoji.
pub open spec fn is_plain(c: char) -> bool {
    let u = c as u32;
    u < 0x2600 || 0x27bf < u < 0x1f300 || 0x1faff < u < 0x100000
}

/// How a character is written in ASCII, for those that have such a form.
pub open spec fn ascii_form(c: char) -> Seq<char> {
    if c == '\u{2014}' {
        " -- "@
    } else if c == '\u{2013}' {
        " - "@
    } else if c == '\u{2018}' {
        "'"@
    } else if c == '\u{2019}' {
        "'"@
    } else if c == '\u{201C}' {
        "\""@
    } else if c == '\u{201D}' {
        "\""@
    } else if c == '\u{2026}' {
        "..."@
    } else if c == '\u{2022}' {
        ","@
    } else if c == '\u{00A0}' {
        " "@
    } else if c == '\u{200B}' {
        ""@
    } else if c == '\u{200C}' {
        ""@
    } else if c == '\u{200D}' {
        ""@
    } else if c == '\u{FEFF}' {
        ""@
    } else if c == '\u{00B0}' {
        " degrees "@
    } else {
        seq![c]
    }
}

/// Text with its characters written in ASCII, where they have such a form.
pub open spec fn spelled(s: Seq<char>) -> Seq<char>
    decreases s.len(),
{
    if s.len() == 0 {
        Seq::empty()
    } else {
        spelled(s.drop_last()) + ascii_form(s.last())
    }
}

/// Whether a character is ASCII.
pub open spec fn is_ascii(c: char) -> bool {
    (c as u32) < 128
}

/// The ASCII characters of a text, without white space around them.
pub open spec fn ascii_only(s: Seq<char>) -> Seq<char> {
    text::trim_spec(s.filter(|c: char| is_ascii(c)))
}

/// Text as it can be spoken.
pub open spec fn cleaned(s: Seq<char>, force_lowercase: bool) -> Seq<char> {
    let plain = without_markup(s).filter(|c: char| is_plain(c));
    let cased = if force_lowercase {
        regex_lowered(ALL_CAPS@, plain)
    } else {
        plain
    };
    ascii_only(flattened(spelled(cased)))
}

/// Whether a character has no part in any mark of Markdown.
pub open spec fn unmarked(c: char) -> bool {
    c != '`' && c != '#' && c != '*' && c != '_' && c != '[' && c != ':' && c != '-' && c != '+' && c
        != '.' && c != '>' && c != '~'
}

/// Whether a text holds no mark of Markdown.
pub open spec fn plain(s: Seq<char>) -> bool {
    forall|i: int| 0 <= i < s.len() ==> unmarked(#[trigger] s[i])
}

/// Whether each pattern means of the steps of a text what it should.
pub open spec fn markup_meant(s: Seq<char>) -> bool {
    let s0 = regex_replaced(CODE_BLOCKS@, s, ""@);
    let s1 = regex_replaced(INLINE_CODE@, s0, "$1"@);
    let s2 = regex_replaced(HEADERS@, s1, ""@);
    let s3 = regex_replaced(BOLD_ITALIC@, s2, "$1"@);
    let s4 = regex_replaced(BOLD@, s3, "$1"@);
    let s5 = regex_replaced(ITALIC@, s4, "$1"@);
    let s6 = regex_replaced(UNDERLINE@, s5, "$1"@);
    let s7 = regex_replaced(LINKS@, s6, "$1"@);
    let s8 = regex_replaced(IMAGES@, s7, "$1"@);
    let s9 = regex_replaced(URLS@, s8, ""@);
    let s10 = regex_replaced(BULLET_POINTS@, s9, ""@);
    let s11 = regex_replaced(NUMBERED_LISTS@, s10, ""@);
    let s12 = regex_replaced(HORIZ_RULES@, s11, ""@);
    let s13 = regex_replaced(BLOCKQUOTES@, s12, ""@);
    let s14 = regex_replaced(STRIKETHROUGH@, s13, "$1"@);
    &&& means(CODE_BLOCKS@, s, ""@, s0)
    &&& means(INLINE_CODE@, s0, "$1"@, s1)
    &&& means(HEADERS@, s1, ""@, s2)
    &&& means(BOLD_ITALIC@, s2, "$1"@, s3)
    &&& means(BOLD@, s3, "$1"@, s4)
    &&& means(ITALIC@, s4, "$1"@, s5)
    &&& means(UNDERLINE@, s5, "$1"@, s6)
    &&& means(LINKS@, s6, "$1"@, s7)
    &&& means(IMAGES@, s7, "$1"@, s8)
    &&& means(URLS@, s8, ""@, s9)
    &&& means(BULLET_POINTS@, s9, ""@, s10)
    &&& means(NUMBERED_LISTS@, s10, ""@, s11)
    &&& means(HORIZ_RULES@, s11, ""@, s12)
    &&& means(BLOCKQUOTES@, s12, ""@, s13)
    &&& means(STRIKETHROUGH@, s13, "$1"@, s14)
}

/// Whether each pattern means of the steps of a text what it should.
pub open spec fn lines_meant(s: Seq<char>) -> bool {
    let s0 = regex_replaced(PARA_BREAKS@, s, ". "@);
    let s1 = regex_replaced(NEWLINES@, s0, " "@);
    let s2 = regex_replaced(MULTI_PERIODS@, s1, "."@);
    let s3 = regex_replaced(MULTI_SPACES@, s2, " "@);
    &&& means(PARA_BREAKS@, s, ". "@, s0)
    &&& means(NEWLINES@, s0, " "@, s1)
    &&& means(MULTI_PERIODS@, s1, "."@, s2)
    &&& means(MULTI_SPACES@, s2, " "@, s3)
}

proof fn lemma_no_run(s: Seq<char>, c: char, n: nat)
    requires
        !s.contains(c),
        n > 0,
    ensures
        !run(s, c, n),
{
    assert forall|i: int| !#[trigger] run_at(s, c, n, i) by {
        if run_at(s, c, n, i) {
            assert(s[i] == c);
        }
    }
}

/// No pattern matches where the characters that it needs do not stand.
proof fn lemma_without(s: Seq<char>)
    ensures
        !s.contains('`') ==> unmatched(CODE_BLOCKS@, s) && unmatched(INLINE_CODE@, s),
        !s.contains('#') ==> unmatched(HEADERS@, s),
        !s.contains('*') ==> unmatched(BOLD_ITALIC@, s) && unmatched(BOLD@, s) && unmatched(
            ITALIC@,
            s,
        ),
        !s.contains('_') ==> unmatched(UNDERLINE@, s),
        !s.contains('[') ==> unmatched(LINKS@, s) && unmatched(IMAGES@, s),
        !s.contains(':') ==> unmatched(URLS@, s),
        !s.contains('-') && !s.contains('*') && !s.contains('+') ==> unmatched(BULLET_POINTS@, s),
        !s.contains('.') ==> unmatched(NUMBERED_LISTS@, s),
        !s.contains('-') && !s.contains('*') && !s.contains('_') ==> unmatched(HORIZ_RULES@, s),
        !s.contains('>') ==> unmatched(BLOCKQUOTES@, s),
        !s.contains('~') ==> unmatched(STRIKETHROUGH@, s),
{
    reveal(unmatched);
    if !s.contains('`') {
        lemma_no_run(s, '`', 3);
    }
    if !s.contains('*') {
        lemma_no_run(s, '*', 3);
        lemma_no_run(s, '*', 2);
    }
    if !s.contains('_') {
        lemma_no_run(s, '_', 2);
    }
    if !s.contains('~') {
        lemma_no_run(s, '~', 2);
    }
}

/// A plain text holds none of the characters of the marks.
proof fn lemma_plain(s: Seq<char>)
    requires
        plain(s),
    ensures
        !s.contains('`'),
        !s.contains('#'),
        !s.contains('*'),
        !s.contains('_'),
        !s.contains('['),
        !s.contains(':'),
        !s.contains('-'),
        !s.contains('+'),
        !s.contains('.'),
        !s.contains('>'),
        !s.contains('~'),
{
    assert(!s.contains('`'));
    assert(!s.contains('#'));
    assert(!s.contains('*'));
    assert(!s.contains('_'));
    assert(!s.contains('['));
    assert(!s.contains(':'));
    assert(!s.contains('-'));
    assert(!s.contains('+'));
    assert(!s.contains('.'));
    assert(!s.contains('>'));
    assert(!s.contains('~'));
}

/// Marks of `n` characters are not longer than that.
proof fn lemma_mark_length(d: char, n: nat, a: Seq<char>, w: Seq<char>, b: Seq<char>, m: nat)
    requires
        !a.contains(d),
        !w.contains(d),
        !b.contains(d),
        w.len() > 0,
        m > n,
    ensures
        !run(enclose(d, n, a, w, b), d, m),
{
    let s = enclose(d, n, a, w, b);
    let l = a.len() as int;
    let k = l + n + w.len();
    assert forall|i: int| !#[trigger] run_at(s, d, m, i) by {
        if run_at(s, d, m, i) {
            if i < l {
                assert(s[i] == a[i]);
            } else if i < l + n {
                assert(s[l + n] == w[0]);
            } else if i < k {
                assert(s[i] == w[i - l - n]);
            } else {
                assert(i < k + n ==> s[k + n] == b[0]);
                assert(i >= k + n ==> s[i] == b[i - k - n]);
            }
        }
    }
}

/// Whether a mark of Markdown stands around what it marks.
pub open spec fn is_mark(d: char, n: nat) -> bool {
    ||| d == '`' && n == 1
    ||| d == '*' && (n == 1 || n == 2 || n == 3)
    ||| d == '_' && n == 2
    ||| d == '~' && n == 2
}

/// A text without a match stays as it is.
proof fn lemma_kept(p: Seq<char>, s: Seq<char>, with: Seq<char>, r: Seq<char>)
    requires
        means(p, s, with, r),
        unmatched(p, s),
    ensures
        r == s,
{
    reveal(means);
}

/// What stands between two marks stays.
proof fn lemma_enclosed(
    p: Seq<char>,
    d: char,
    n: nat,
    a: Seq<char>,
    w: Seq<char>,
    b: Seq<char>,
    r: Seq<char>,
)
    requires
        means(p, enclose(d, n, a, w, b), "$1"@, r),
        is_enclosing(p, d, n),
        !a.contains(d),
        !w.contains(d),
        !b.contains(d),
        w.len() > 0,
        !w.contains('\n'),
    ensures
        r == a + w + b,
{
    reveal(means);
    assert(filled("$1"@, w) == w);
}

/// Short marks are none of the longer ones.
proof fn lemma_short_marks(d: char, n: nat, a: Seq<char>, w: Seq<char>, b: Seq<char>)
    requires
        !a.contains(d),
        !w.contains(d),
        !b.contains(d),
        w.len() > 0,
    ensures
        d == '`' && n == 1 ==> unmatched(CODE_BLOCKS@, enclose(d, n, a, w, b)),
        d == '*' && n < 3 ==> unmatched(BOLD_ITALIC@, enclose(d, n, a, w, b)),
        d == '*' && n < 2 ==> unmatched(BOLD@, enclose(d, n, a, w, b)),
{
    reveal(unmatched);
    if n < 2 {
        lemma_mark_length(d, n, a, w, b, 2);
    }
    if n < 3 {
        lemma_mark_length(d, n, a, w, b, 3);
    }
}

/// A text with a mark in it holds no other mark.
proof fn lemma_one_mark(d: char, n: nat, a: Seq<char>, w: Seq<char>, b: Seq<char>)
    requires
        plain(a),
        plain(w),
        plain(b),
    ensures
        plain(a + w + b),
        '`' != d ==> !enclose(d, n, a, w, b).contains('`'),
        '#' != d ==> !enclose(d, n, a, w, b).contains('#'),
        '*' != d ==> !enclose(d, n, a, w, b).contains('*'),
        '_' != d ==> !enclose(d, n, a, w, b).contains('_'),
        '[' != d ==> !enclose(d, n, a, w, b).contains('['),
        ':' != d ==> !enclose(d, n, a, w, b).contains(':'),
        '-' != d ==> !enclose(d, n, a, w, b).contains('-'),
        '+' != d ==> !enclose(d, n, a, w, b).contains('+'),
        '.' != d ==> !enclose(d, n, a, w, b).contains('.'),
        '>' != d ==> !enclose(d, n, a, w, b).contains('>'),
        '~' != d ==> !enclose(d, n, a, w, b).contains('~'),
{
    let s = enclose(d, n, a, w, b);
    assert forall|i: int| 0 <= i < s.len() implies #[trigger] s[i] == d || unmarked(s[i]) by {}
}

/// Code, bold, italic, underlined and struck words stay when their marks are taken away,
/// and so does the text around them.
pub proof fn law_marked_words_kept(d: char, n: nat, a: Seq<char>, w: Seq<char>, b: Seq<char>)
    requires
        is_mark(d, n),
        plain(a),
        plain(w),
        plain(b),
        w.len() > 0,
        !w.contains('\n'),
        markup_meant(enclose(d, n, a, w, b)),
    ensures
        without_markup(enclose(d, n, a, w, b)) == a + w + b,
{
    let s = enclose(d, n, a, w, b);
    let t = a + w + b;
    lemma_plain(a);
    lemma_plain(w);
    lemma_plain(b);
    lemma_one_mark(d, n, a, w, b);
    lemma_plain(t);
    lemma_without(t);
    lemma_without(s);
    lemma_short_marks(d, n, a, w, b);
    let s0 = regex_replaced(CODE_BLOCKS@, s, ""@);
    lemma_kept(CODE_BLOCKS@, s, ""@, s0);
    let s1 = regex_replaced(INLINE_CODE@, s0, "$1"@);
    if d == '`' {
        lemma_enclosed(INLINE_CODE@, d, n, a, w, b, s1);
    } else {
        lemma_kept(INLINE_CODE@, s0, "$1"@, s1);
    }
    assert(s1 == if d == '`' {
        t
    } else {
        s
    });
    let s2 = regex_replaced(HEADERS@, s1, ""@);
    lemma_kept(HEADERS@, s1, ""@, s2);
    assert(s2 == if d == '`' {
        t
    } else {
        s
    });
    let s3 = regex_replaced(BOLD_ITALIC@, s2, "$1"@);
    if d == '*' && n == 3 {
        lemma_enclosed(BOLD_ITALIC@, d, n, a, w, b, s3);
    } else {
        lemma_kept(BOLD_ITALIC@, s2, "$1"@, s3);
    }
    assert(s3 == if d == '`' || (d == '*' && n == 3) {
        t
    } else {
        s
    });
    let s4 = regex_replaced(BOLD@, s3, "$1"@);
    if d == '*' && n == 2 {
        lemma_enclosed(BOLD@, d, n, a, w, b, s4);
    } else {
        lemma_kept(BOLD@, s3, "$1"@, s4);
    }
    assert(s4 == if d == '`' || (d == '*' && n >= 2) {
        t
    } else {
        s
    });
    let s5 = regex_replaced(ITALIC@, s4, "$1"@);
    if d == '*' && n == 1 {
        lemma_enclosed(ITALIC@, d, n, a, w, b, s5);
    } else {
        lemma_kept(ITALIC@, s4, "$1"@, s5);
    }
    assert(s5 == if d == '`' || d == '*' {
        t
    } else {
        s
    });
    let s6 = regex_replaced(UNDERLINE@, s5, "$1"@);
    if d == '_' {
        lemma_enclosed(UNDERLINE@, d, n, a, w, b, s6);
    } else {
        lemma_kept(UNDERLINE@, s5, "$1"@, s6);
    }
    assert(s6 == if d != '~' {
        t
    } else {
        s
    });
    let s7 = regex_replaced(LINKS@, s6, "$1"@);
    lemma_kept(LINKS@, s6, "$1"@, s7);
    assert(s7 == if d != '~' {
        t
    } else {
        s
    });
    let s8 = regex_replaced(IMAGES@, s7, "$1"@);
    lemma_kept(IMAGES@, s7, "$1"@, s8);
    assert(s8 == if d != '~' {
        t
    } else {
        s
    });
    let s9 = regex_replaced(URLS@, s8, ""@);
    lemma_kept(URLS@, s8, ""@, s9);
    assert(s9 == if d != '~' {
        t
    } else {
        s
    });
    let s10 = regex_replaced(BULLET_POINTS@, s9, ""@);
    lemma_kept(BULLET_POINTS@, s9, ""@, s10);
    assert(s10 == if d != '~' {
        t
    } else {
        s
    });
    let s11 = regex_replaced(NUMBERED_LISTS@, s10, ""@);
    lemma_kept(NUMBERED_LISTS@, s10, ""@, s11);
    assert(s11 == if d != '~' {
        t
    } else {
        s
    });
    let s12 = regex_replaced(HORIZ_RULES@, s11, ""@);
    lemma_kept(HORIZ_RULES@, s11, ""@, s12);
    assert(s12 == if d != '~' {
        t
    } else {
        s
    });
    let s13 = regex_replaced(BLOCKQUOTES@, s12, ""@);
    lemma_kept(BLOCKQUOTES@, s12, ""@, s13);
    assert(s13 == if d != '~' {
        t
    } else {
        s
    });
    let s14 = regex_replaced(STRIKETHROUGH@, s13, "$1"@);
    if d == '~' {
        lemma_enclosed(STRIKETHROUGH@, d, n, a, w, b, s14);
    } else {
        lemma_kept(STRIKETHROUGH@, s13, "$1"@, s14);
    }
    assert(s14 == t);
}

/// The text of a link stays.
proof fn lemma_linked(a: Seq<char>, w: Seq<char>, u: Seq<char>, b: Seq<char>, r: Seq<char>)
    requires
        means(LINKS@, linked(a, w, u, b), "$1"@, r),
        !a.contains('['),
        !w.contains(']'),
        !u.contains(')'),
        !b.contains('['),
        w.len() > 0,
        u.len() > 0,
    ensures
        r == a + w + b,
{
    reveal(means);
    assert(filled("$1"@, w) == w);
}

/// The text of a link stays when the link is taken away, and so does the text around it.
pub proof fn law_link_text_kept(a: Seq<char>, w: Seq<char>, u: Seq<char>, b: Seq<char>)
    requires
        plain(a),
        plain(w),
        plain(b),
        w.len() > 0,
        !w.contains(']'),
        u.len() > 0,
        forall|i: int|
            0 <= i < u.len() ==> #[trigger] u[i] != ')' && u[i] != '`' && u[i] != '#' && u[i] != '*'
                && u[i] != '_',
        markup_meant(linked(a, w, u, b)),
    ensures
        without_markup(linked(a, w, u, b)) == a + w + b,
{
    let s = linked(a, w, u, b);
    let t = a + w + b;
    lemma_plain(a);
    lemma_plain(w);
    lemma_plain(b);
    assert(plain(t));
    lemma_plain(t);
    lemma_without(t);
    assert(!u.contains(')'));
    assert forall|i: int| 0 <= i < s.len() implies #[trigger] s[i] != '`' && s[i] != '#' && s[i]
        != '*' && s[i] != '_' by {}
    assert(!s.contains('`') && !s.contains('#') && !s.contains('*') && !s.contains('_'));
    lemma_without(s);
    let s0 = regex_replaced(CODE_BLOCKS@, s, ""@);
    lemma_kept(CODE_BLOCKS@, s, ""@, s0);
    let s1 = regex_replaced(INLINE_CODE@, s0, "$1"@);
    lemma_kept(INLINE_CODE@, s0, "$1"@, s1);
    let s2 = regex_replaced(HEADERS@, s1, ""@);
    lemma_kept(HEADERS@, s1, ""@, s2);
    let s3 = regex_replaced(BOLD_ITALIC@, s2, "$1"@);
    lemma_kept(BOLD_ITALIC@, s2, "$1"@, s3);
    let s4 = regex_replaced(BOLD@, s3, "$1"@);
    lemma_kept(BOLD@, s3, "$1"@, s4);
    let s5 = regex_replaced(ITALIC@, s4, "$1"@);
    lemma_kept(ITALIC@, s4, "$1"@, s5);
    let s6 = regex_replaced(UNDERLINE@, s5, "$1"@);
    lemma_kept(UNDERLINE@, s5, "$1"@, s6);
    let s7 = regex_replaced(LINKS@, s6, "$1"@);
    lemma_linked(a, w, u, b, s7);
    let s8 = regex_replaced(IMAGES@, s7, "$1"@);
    lemma_kept(IMAGES@, s7, "$1"@, s8);
    let s9 = regex_replaced(URLS@, s8, ""@);
    lemma_kept(URLS@, s8, ""@, s9);
    let s10 = regex_replaced(BULLET_POINTS@, s9, ""@);
    lemma_kept(BULLET_POINTS@, s9, ""@, s10);
    let s11 = regex_replaced(NUMBERED_LISTS@, s10, ""@);
    lemma_kept(NUMBERED_LISTS@, s10, ""@, s11);
    let s12 = regex_replaced(HORIZ_RULES@, s11, ""@);
    lemma_kept(HORIZ_RULES@, s11, ""@, s12);
    let s13 = regex_replaced(BLOCKQUOTES@, s12, ""@);
    lemma_kept(BLOCKQUOTES@, s12, ""@, s13);
    let s14 = regex_replaced(STRIKETHROUGH@, s13, "$1"@);
    lemma_kept(STRIKETHROUGH@, s13, "$1"@, s14);
}

/// A block of code is not spoken; the text around it is.
pub proof fn law_code_block_left_out(a: Seq<char>, w: Seq<char>, b: Seq<char>)
    requires
        plain(a),
        plain(b),
        !w.contains('`'),
        markup_meant(enclose('`', 3, a, w, b)),
    ensures
        without_markup(enclose('`', 3, a, w, b)) == a + b,
{
    let s = enclose('`', 3, a, w, b);
    let t = a + b;
    reveal_strlit("");
    assert(""@ =~= Seq::<char>::empty());
    lemma_plain(a);
    lemma_plain(b);
    assert(a + ""@ + b =~= a + b);
    assert(plain(t));
    lemma_plain(t);
    lemma_without(t);
    lemma_without(s);
    let s0 = regex_replaced(CODE_BLOCKS@, s, ""@);
    assert(s0 == t) by {
        reveal(means);
        assert(means_removed(CODE_BLOCKS@, s, ""@, s0));
    }
    let s1 = regex_replaced(INLINE_CODE@, s0, "$1"@);
    lemma_kept(INLINE_CODE@, s0, "$1"@, s1);
    let s2 = regex_replaced(HEADERS@, s1, ""@);
    lemma_kept(HEADERS@, s1, ""@, s2);
    let s3 = regex_replaced(BOLD_ITALIC@, s2, "$1"@);
    lemma_kept(BOLD_ITALIC@, s2, "$1"@, s3);
    let s4 = regex_replaced(BOLD@, s3, "$1"@);
    lemma_kept(BOLD@, s3, "$1"@, s4);
    let s5 = regex_replaced(ITALIC@, s4, "$1"@);
    lemma_kept(ITALIC@, s4, "$1"@, s5);
    let s6 = regex_replaced(UNDERLINE@, s5, "$1"@);
    lemma_kept(UNDERLINE@, s5, "$1"@, s6);
    let s7 = regex_replaced(LINKS@, s6, "$1"@);
    lemma_kept(LINKS@, s6, "$1"@, s7);
    let s8 = regex_replaced(IMAGES@, s7, "$1"@);
    lemma_kept(IMAGES@, s7, "$1"@, s8);
    let s9 = regex_replaced(URLS@, s8, ""@);
    lemma_kept(URLS@, s8, ""@, s9);
    let s10 = regex_replaced(BULLET_POINTS@, s9, ""@);
    lemma_kept(BULLET_POINTS@, s9, ""@, s10);
    let s11 = regex_replaced(NUMBERED_LISTS@, s10, ""@);
    lemma_kept(NUMBERED_LISTS@, s10, ""@, s11);
    let s12 = regex_replaced(HORIZ_RULES@, s11, ""@);
    lemma_kept(HORIZ_RULES@, s11, ""@, s12);
    let s13 = regex_replaced(BLOCKQUOTES@, s12, ""@);
    lemma_kept(BLOCKQUOTES@, s12, ""@, s13);
    let s14 = regex_replaced(STRIKETHROUGH@, s13, "$1"@);
    lemma_kept(STRIKETHROUGH@, s13, "$1"@, s14);
}

/// The words of a heading stay; its mark does not.
pub proof fn law_heading_kept(n: nat, w: Seq<char>)
    requires
        1 <= n <= 6,
        starts_word(w),
        plain(w),
        markup_meant(led(rep('#', n), w)),
    ensures
        without_markup(led(rep('#', n), w)) == w,
{
    let s = led(rep('#', n), w);
    let t = w;
    reveal_strlit("");
    assert(""@ =~= Seq::<char>::empty());
    lemma_plain(w);
    assert forall|i: int| 0 <= i < s.len() implies #[trigger] s[i] == '#' || unmarked(s[i]) by {}
    assert(!s.contains('`'));
    assert(""@ + w =~= w);
    assert(plain(t));
    lemma_plain(t);
    lemma_without(t);
    lemma_without(s);
    let s0 = regex_replaced(CODE_BLOCKS@, s, ""@);
    lemma_kept(CODE_BLOCKS@, s, ""@, s0);
    let s1 = regex_replaced(INLINE_CODE@, s0, "$1"@);
    lemma_kept(INLINE_CODE@, s0, "$1"@, s1);
    let s2 = regex_replaced(HEADERS@, s1, ""@);
    assert(s2 == t) by {
        reveal(means);
        assert(means_removed(HEADERS@, s, ""@, s2));
    }
    let s3 = regex_replaced(BOLD_ITALIC@, s2, "$1"@);
    lemma_kept(BOLD_ITALIC@, s2, "$1"@, s3);
    let s4 = regex_replaced(BOLD@, s3, "$1"@);
    lemma_kept(BOLD@, s3, "$1"@, s4);
    let s5 = regex_replaced(ITALIC@, s4, "$1"@);
    lemma_kept(ITALIC@, s4, "$1"@, s5);
    let s6 = regex_replaced(UNDERLINE@, s5, "$1"@);
    lemma_kept(UNDERLINE@, s5, "$1"@, s6);
    let s7 = regex_replaced(LINKS@, s6, "$1"@);
    lemma_kept(LINKS@, s6, "$1"@, s7);
    let s8 = regex_replaced(IMAGES@, s7, "$1"@);
    lemma_kept(IMAGES@, s7, "$1"@, s8);
    let s9 = regex_replaced(URLS@, s8, ""@);
    lemma_kept(URLS@, s8, ""@, s9);
    let s10 = regex_replaced(BULLET_POINTS@, s9, ""@);
    lemma_kept(BULLET_POINTS@, s9, ""@, s10);
    let s11 = regex_replaced(NUMBERED_LISTS@, s10, ""@);
    lemma_kept(NUMBERED_LISTS@, s10, ""@, s11);
    let s12 = regex_replaced(HORIZ_RULES@, s11, ""@);
    lemma_kept(HORIZ_RULES@, s11, ""@, s12);
    let s13 = regex_replaced(BLOCKQUOTES@, s12, ""@);
    lemma_kept(BLOCKQUOTES@, s12, ""@, s13);
    let s14 = regex_replaced(STRIKETHROUGH@, s13, "$1"@);
    lemma_kept(STRIKETHROUGH@, s13, "$1"@, s14);
}

/// The words of a list item stay; its mark does not.
pub proof fn law_list_item_kept(m: char, w: Seq<char>)
    requires
        m == '-' || m == '+',
        starts_word(w),
        plain(w),
        markup_meant(led(seq![m], w)),
    ensures
        without_markup(led(seq![m], w)) == w,
{
    let s = led(seq![m], w);
    let t = w;
    reveal_strlit("");
    assert(""@ =~= Seq::<char>::empty());
    lemma_plain(w);
    assert forall|i: int| 0 <= i < s.len() implies #[trigger] s[i] == m || unmarked(s[i]) by {}
    assert(!s.contains('`') && !s.contains('#') && !s.contains('*') && !s.contains('_') && !s.contains('[') && !s.contains(':'));
    assert(""@ + w =~= w);
    assert(plain(t));
    lemma_plain(t);
    lemma_without(t);
    lemma_without(s);
    let s0 = regex_replaced(CODE_BLOCKS@, s, ""@);
    lemma_kept(CODE_BLOCKS@, s, ""@, s0);
    let s1 = regex_replaced(INLINE_CODE@, s0, "$1"@);
    lemma_kept(INLINE_CODE@, s0, "$1"@, s1);
    let s2 = regex_replaced(HEADERS@, s1, ""@);
    lemma_kept(HEADERS@, s1, ""@, s2);
    let s3 = regex_replaced(BOLD_ITALIC@, s2, "$1"@);
    lemma_kept(BOLD_ITALIC@, s2, "$1"@, s3);
    let s4 = regex_replaced(BOLD@, s3, "$1"@);
    lemma_kept(BOLD@, s3, "$1"@, s4);
    let s5 = regex_replaced(ITALIC@, s4, "$1"@);
    lemma_kept(ITALIC@, s4, "$1"@, s5);
    let s6 = regex_replaced(UNDERLINE@, s5, "$1"@);
    lemma_kept(UNDERLINE@, s5, "$1"@, s6);
    let s7 = regex_replaced(LINKS@, s6, "$1"@);
    lemma_kept(LINKS@, s6, "$1"@, s7);
    let s8 = regex_replaced(IMAGES@, s7, "$1"@);
    lemma_kept(IMAGES@, s7, "$1"@, s8);
    let s9 = regex_replaced(URLS@, s8, ""@);
    lemma_kept(URLS@, s8, ""@, s9);
    let s10 = regex_replaced(BULLET_POINTS@, s9, ""@);
    assert(s10 == t) by {
        reveal(means);
        assert(means_removed(BULLET_POINTS@, s, ""@, s10));
    }
    let s11 = regex_replaced(NUMBERED_LISTS@, s10, ""@);
    lemma_kept(NUMBERED_LISTS@, s10, ""@, s11);
    let s12 = regex_replaced(HORIZ_RULES@, s11, ""@);
    lemma_kept(HORIZ_RULES@, s11, ""@, s12);
    let s13 = regex_replaced(BLOCKQUOTES@, s12, ""@);
    lemma_kept(BLOCKQUOTES@, s12, ""@, s13);
    let s14 = regex_replaced(STRIKETHROUGH@, s13, "$1"@);
    lemma_kept(STRIKETHROUGH@, s13, "$1"@, s14);
}

/// The words of a numbered list item stay; its number does not.
pub proof fn law_numbered_item_kept(m: Seq<char>, w: Seq<char>)
    requires
        m.len() > 0,
        forall|i: int| 0 <= i < m.len() ==> '0' <= #[trigger] m[i] <= '9',
        starts_word(w),
        plain(w),
        markup_meant(led(m.push('.'), w)),
    ensures
        without_markup(led(m.push('.'), w)) == w,
{
    let s = led(m.push('.'), w);
    let t = w;
    reveal_strlit("");
    assert(""@ =~= Seq::<char>::empty());
    lemma_plain(w);
    assert forall|i: int| 0 <= i < s.len() implies #[trigger] s[i] == '.' || unmarked(s[i]) by {}
    assert(!s.contains('`') && !s.contains('#') && !s.contains('*') && !s.contains('_') && !s.contains('[') && !s.contains(':') && !s.contains('-') && !s.contains('+'));
    assert(""@ + w =~= w);
    assert(plain(t));
    lemma_plain(t);
    lemma_without(t);
    lemma_without(s);
    let s0 = regex_replaced(CODE_BLOCKS@, s, ""@);
    lemma_kept(CODE_BLOCKS@, s, ""@, s0);
    let s1 = regex_replaced(INLINE_CODE@, s0, "$1"@);
    lemma_kept(INLINE_CODE@, s0, "$1"@, s1);
    let s2 = regex_replaced(HEADERS@, s1, ""@);
    lemma_kept(HEADERS@, s1, ""@, s2);
    let s3 = regex_replaced(BOLD_ITALIC@, s2, "$1"@);
    lemma_kept(BOLD_ITALIC@, s2, "$1"@, s3);
    let s4 = regex_replaced(BOLD@, s3, "$1"@);
    lemma_kept(BOLD@, s3, "$1"@, s4);
    let s5 = regex_replaced(ITALIC@, s4, "$1"@);
    lemma_kept(ITALIC@, s4, "$1"@, s5);
    let s6 = regex_replaced(UNDERLINE@, s5, "$1"@);
    lemma_kept(UNDERLINE@, s5, "$1"@, s6);
    let s7 = regex_replaced(LINKS@, s6, "$1"@);
    lemma_kept(LINKS@, s6, "$1"@, s7);
    let s8 = regex_replaced(IMAGES@, s7, "$1"@);
    lemma_kept(IMAGES@, s7, "$1"@, s8);
    let s9 = regex_replaced(URLS@, s8, ""@);
    lemma_kept(URLS@, s8, ""@, s9);
    let s10 = regex_replaced(BULLET_POINTS@, s9, ""@);
    lemma_kept(BULLET_POINTS@, s9, ""@, s10);
    let s11 = regex_replaced(NUMBERED_LISTS@, s10, ""@);
    assert(s11 == t) by {
        reveal(means);
        assert(means_removed(NUMBERED_LISTS@, s, ""@, s11));
    }
    let s12 = regex_replaced(HORIZ_RULES@, s11, ""@);
    lemma_kept(HORIZ_RULES@, s11, ""@, s12);
    let s13 = regex_replaced(BLOCKQUOTES@, s12, ""@);
    lemma_kept(BLOCKQUOTES@, s12, ""@, s13);
    let s14 = regex_replaced(STRIKETHROUGH@, s13, "$1"@);
    lemma_kept(STRIKETHROUGH@, s13, "$1"@, s14);
}

/// The words of a quotation stay; its mark does not.
pub proof fn law_quotation_kept(w: Seq<char>)
    requires
        plain(w),
        markup_meant(led(seq!['>'], w)),
    ensures
        without_markup(led(seq!['>'], w)) == w,
{
    let s = led(seq!['>'], w);
    let t = w;
    reveal_strlit("");
    assert(""@ =~= Seq::<char>::empty());
    lemma_plain(w);
    assert forall|i: int| 0 <= i < s.len() implies #[trigger] s[i] == '>' || unmarked(s[i]) by {}
    assert(!s.contains('`') && !s.contains('#') && !s.contains('*') && !s.contains('_') && !s.contains('[') && !s.contains(':') && !s.contains('-') && !s.contains('+') && !s.contains('.'));
    assert(""@ + w =~= w);
    assert(plain(t));
    lemma_plain(t);
    lemma_without(t);
    lemma_without(s);
    let s0 = regex_replaced(CODE_BLOCKS@, s, ""@);
    lemma_kept(CODE_BLOCKS@, s, ""@, s0);
    let s1 = regex_replaced(INLINE_CODE@, s0, "$1"@);
    lemma_kept(INLINE_CODE@, s0, "$1"@, s1);
    let s2 = regex_replaced(HEADERS@, s1, ""@);
    lemma_kept(HEADERS@, s1, ""@, s2);
    let s3 = regex_replaced(BOLD_ITALIC@, s2, "$1"@);
    lemma_kept(BOLD_ITALIC@, s2, "$1"@, s3);
    let s4 = regex_replaced(BOLD@, s3, "$1"@);
    lemma_kept(BOLD@, s3, "$1"@, s4);
    let s5 = regex_replaced(ITALIC@, s4, "$1"@);
    lemma_kept(ITALIC@, s4, "$1"@, s5);
    let s6 = regex_replaced(UNDERLINE@, s5, "$1"@);
    lemma_kept(UNDERLINE@, s5, "$1"@, s6);
    let s7 = regex_replaced(LINKS@, s6, "$1"@);
    lemma_kept(LINKS@, s6, "$1"@, s7);
    let s8 = regex_replaced(IMAGES@, s7, "$1"@);
    lemma_kept(IMAGES@, s7, "$1"@, s8);
    let s9 = regex_replaced(URLS@, s8, ""@);
    lemma_kept(URLS@, s8, ""@, s9);
    let s10 = regex_replaced(BULLET_POINTS@, s9, ""@);
    lemma_kept(BULLET_POINTS@, s9, ""@, s10);
    let s11 = regex_replaced(NUMBERED_LISTS@, s10, ""@);
    lemma_kept(NUMBERED_LISTS@, s10, ""@, s11);
    let s12 = regex_replaced(HORIZ_RULES@, s11, ""@);
    lemma_kept(HORIZ_RULES@, s11, ""@, s12);
    let s13 = regex_replaced(BLOCKQUOTES@, s12, ""@);
    assert(s13 == t) by {
        reveal(means);
        assert(means_removed(BLOCKQUOTES@, s, ""@, s13));
    }
    let s14 = regex_replaced(STRIKETHROUGH@, s13, "$1"@);
    lemma_kept(STRIKETHROUGH@, s13, "$1"@, s14);
}

/// A URL is not spoken; the text around it is.
pub proof fn law_url_left_out(secure: bool, a: Seq<char>, u: Seq<char>, b: Seq<char>)
    requires
        plain(a),
        plain(b),
        b.len() > 0 ==> b[0] == ' ',
        u.len() > 0,
        forall|i: int|
            0 <= i < u.len() ==> '!' <= #[trigger] u[i] <= '~' && u[i] != '`' && u[i] != '#' && u[i]
                != '*' && u[i] != '_' && u[i] != '[',
        markup_meant(with_url(secure, a, u, b)),
    ensures
        without_markup(with_url(secure, a, u, b)) == a + b,
{
    let s = with_url(secure, a, u, b);
    let t = a + b;
    reveal_strlit("");
    assert(""@ =~= Seq::<char>::empty());
    lemma_plain(a);
    lemma_plain(b);
    reveal_strlit("https://");
    reveal_strlit("http://");
    assert forall|i: int| 0 <= i < s.len() implies #[trigger] s[i] != '`' && s[i] != '#' && s[i]
        != '*' && s[i] != '_' && s[i] != '[' by {}
    assert(!s.contains('`') && !s.contains('#') && !s.contains('*') && !s.contains('_') && !s.contains('['));
    assert(a + ""@ + b =~= a + b);
    assert(plain(t));
    lemma_plain(t);
    lemma_without(t);
    lemma_without(s);
    let s0 = regex_replaced(CODE_BLOCKS@, s, ""@);
    lemma_kept(CODE_BLOCKS@, s, ""@, s0);
    let s1 = regex_replaced(INLINE_CODE@, s0, "$1"@);
    lemma_kept(INLINE_CODE@, s0, "$1"@, s1);
    let s2 = regex_replaced(HEADERS@, s1, ""@);
    lemma_kept(HEADERS@, s1, ""@, s2);
    let s3 = regex_replaced(BOLD_ITALIC@, s2, "$1"@);
    lemma_kept(BOLD_ITALIC@, s2, "$1"@, s3);
    let s4 = regex_replaced(BOLD@, s3, "$1"@);
    lemma_kept(BOLD@, s3, "$1"@, s4);
    let s5 = regex_replaced(ITALIC@, s4, "$1"@);
    lemma_kept(ITALIC@, s4, "$1"@, s5);
    let s6 = regex_replaced(UNDERLINE@, s5, "$1"@);
    lemma_kept(UNDERLINE@, s5, "$1"@, s6);
    let s7 = regex_replaced(LINKS@, s6, "$1"@);
    lemma_kept(LINKS@, s6, "$1"@, s7);
    let s8 = regex_replaced(IMAGES@, s7, "$1"@);
    lemma_kept(IMAGES@, s7, "$1"@, s8);
    let s9 = regex_replaced(URLS@, s8, ""@);
    assert(s9 == t) by {
        reveal(means);
        assert(means_removed(URLS@, s, ""@, s9));
    }
    let s10 = regex_replaced(BULLET_POINTS@, s9, ""@);
    lemma_kept(BULLET_POINTS@, s9, ""@, s10);
    let s11 = regex_replaced(NUMBERED_LISTS@, s10, ""@);
    lemma_kept(NUMBERED_LISTS@, s10, ""@, s11);
    let s12 = regex_replaced(HORIZ_RULES@, s11, ""@);
    lemma_kept(HORIZ_RULES@, s11, ""@, s12);
    let s13 = regex_replaced(BLOCKQUOTES@, s12, ""@);
    lemma_kept(BLOCKQUOTES@, s12, ""@, s13);
    let s14 = regex_replaced(STRIKETHROUGH@, s13, "$1"@);
    lemma_kept(STRIKETHROUGH@, s13, "$1"@, s14);
}

/// No pattern for lines matches where the characters that it needs do not stand.
proof fn lemma_lines_without(s: Seq<char>)
    ensures
        !s.contains('\n') ==> unmatched(PARA_BREAKS@, s) && unmatched(NEWLINES@, s),
        !run(s, '\n', 2) ==> unmatched(PARA_BREAKS@, s),
        !twice(s, '.') ==> unmatched(MULTI_PERIODS@, s),
        !run(s, ' ', 2) ==> unmatched(MULTI_SPACES@, s),
{
    reveal(unmatched);
    if !s.contains('\n') {
        lemma_no_run(s, '\n', 2);
    }
}

/// Lines are spoken one after the other, with a space between them.
pub proof fn law_lines_joined(a: Seq<char>, b: Seq<char>)
    requires
        !a.contains('\n'),
        !b.contains('\n'),
        !twice(a + seq![' '] + b, '.'),
        !run(a + seq![' '] + b, ' ', 2),
        lines_meant(spaced('\n', 1, a, b)),
    ensures
        flattened(spaced('\n', 1, a, b)) == a + seq![' '] + b,
{
    let s = spaced('\n', 1, a, b);
    let t = a + seq![' '] + b;
    let s0 = regex_replaced(PARA_BREAKS@, s, ". "@);
    let s1 = regex_replaced(NEWLINES@, s0, " "@);
    let s2 = regex_replaced(MULTI_PERIODS@, s1, "."@);
    let s3 = regex_replaced(MULTI_SPACES@, s2, " "@);
    assert(!run(s, '\n', 2)) by {
        assert forall|i: int| !#[trigger] run_at(s, '\n', 2, i) by {
            if run_at(s, '\n', 2, i) {
                assert(s[i] == '\n' && s[i + 1] == '\n');
                assert(i < a.len() ==> s[i] == a[i]);
                assert(i >= a.len() ==> s[i + 1] == b[i - a.len()]);
            }
        }
    }
    lemma_lines_without(s);
    lemma_lines_without(t);
    lemma_kept(PARA_BREAKS@, s, ". "@, s0);
    assert(s1 == t) by {
        reveal_strlit(" ");
        assert(" "@ =~= seq![' ']);
        reveal(means);
        assert(means_removed(NEWLINES@, s, " "@, s1));
    }
    lemma_kept(MULTI_PERIODS@, s1, "."@, s2);
    lemma_kept(MULTI_SPACES@, s2, " "@, s3);
}

/// Paragraphs are spoken with a pause between them.
pub proof fn law_paragraphs_parted(n: nat, a: Seq<char>, b: Seq<char>)
    requires
        n >= 2,
        !a.contains('\n'),
        !b.contains('\n'),
        !twice(a + seq!['.', ' '] + b, '.'),
        !run(a + seq!['.', ' '] + b, ' ', 2),
        lines_meant(spaced('\n', n, a, b)),
    ensures
        flattened(spaced('\n', n, a, b)) == a + seq!['.', ' '] + b,
{
    let s = spaced('\n', n, a, b);
    let t = a + seq!['.', ' '] + b;
    let s0 = regex_replaced(PARA_BREAKS@, s, ". "@);
    let s1 = regex_replaced(NEWLINES@, s0, " "@);
    let s2 = regex_replaced(MULTI_PERIODS@, s1, "."@);
    let s3 = regex_replaced(MULTI_SPACES@, s2, " "@);
    assert(s0 == t) by {
        reveal_strlit(". ");
        assert(". "@ =~= seq!['.', ' ']);
        reveal(means);
        assert(means_removed(PARA_BREAKS@, s, ". "@, s0));
    }
    assert(!t.contains('\n'));
    lemma_lines_without(t);
    lemma_kept(NEWLINES@, s0, " "@, s1);
    lemma_kept(MULTI_PERIODS@, s1, "."@, s2);
    lemma_kept(MULTI_SPACES@, s2, " "@, s3);
}

/// Several spaces are spoken as one.
pub proof fn law_spaces_joined(n: nat, a: Seq<char>, b: Seq<char>)
    requires
        n >= 2,
        !a.contains('\n') && !a.contains('.') && !run(a, ' ', 2),
        !b.contains('\n') && !b.contains('.') && !run(b, ' ', 2),
        a.len() > 0 ==> a.last() != ' ',
        b.len() > 0 ==> b[0] != ' ',
        lines_meant(spaced(' ', n, a, b)),
    ensures
        flattened(spaced(' ', n, a, b)) == a + seq![' '] + b,
{
    let s = spaced(' ', n, a, b);
    let t = a + seq![' '] + b;
    let s0 = regex_replaced(PARA_BREAKS@, s, ". "@);
    let s1 = regex_replaced(NEWLINES@, s0, " "@);
    let s2 = regex_replaced(MULTI_PERIODS@, s1, "."@);
    let s3 = regex_replaced(MULTI_SPACES@, s2, " "@);
    assert(!s.contains('\n'));
    assert(!s.contains('.'));
    assert(!twice(s, '.'));
    lemma_lines_without(s);
    lemma_kept(PARA_BREAKS@, s, ". "@, s0);
    lemma_kept(NEWLINES@, s0, " "@, s1);
    lemma_kept(MULTI_PERIODS@, s1, "."@, s2);
    assert(s3 == t) by {
        reveal_strlit(" ");
        assert(" "@ =~= seq![' ']);
        reveal(means);
        assert(means_removed(MULTI_SPACES@, s, " "@, s3));
    }
}

/// Several full stops are one pause.
pub proof fn law_stops_joined(n: nat, a: Seq<char>, b: Seq<char>)
    requires
        n >= 2,
        !a.contains('\n') && !a.contains('.'),
        !b.contains('\n') && !b.contains('.'),
        !run(a + seq!['.'] + b, ' ', 2),
        lines_meant(spaced('.', n, a, b)),
    ensures
        flattened(spaced('.', n, a, b)) == a + seq!['.'] + b,
{
    let s = spaced('.', n, a, b);
    let t = a + seq!['.'] + b;
    let s0 = regex_replaced(PARA_BREAKS@, s, ". "@);
    let s1 = regex_replaced(NEWLINES@, s0, " "@);
    let s2 = regex_replaced(MULTI_PERIODS@, s1, "."@);
    let s3 = regex_replaced(MULTI_SPACES@, s2, " "@);
    assert(!s.contains('\n'));
    lemma_lines_without(s);
    lemma_lines_without(t);
    lemma_kept(PARA_BREAKS@, s, ". "@, s0);
    lemma_kept(NEWLINES@, s0, " "@, s1);
    assert(s2 == t) by {
        reveal_strlit(".");
        assert("."@ =~= seq!['.']);
        reveal(means);
        assert(means_removed(MULTI_PERIODS@, s, "."@, s2));
    }
    lemma_kept(MULTI_SPACES@, s2, " "@, s3);
}

/// Whether a text is spoken as it is written: in ASCII, on one line, without white
/// space around it and with single spaces and stops.
pub open spec fn sayable(t: Seq<char>) -> bool {
    &&& forall|i: int| 0 <= i < t.len() ==> ' ' <= #[trigger] t[i] <= '~'
    &&& !twice(t, '.')
    &&& !run(t, ' ', 2)
    &&& t.len() > 0 ==> t[0] != ' ' && t[t.len() - 1] != ' '
}

/// Whether each pattern means of the steps of a text what it should.
pub open spec fn cleaning_meant(s: Seq<char>, force_lowercase: bool) -> bool {
    let plain = without_markup(s).filter(|c: char| is_plain(c));
    let cased = if force_lowercase {
        regex_lowered(ALL_CAPS@, plain)
    } else {
        plain
    };
    &&& markup_meant(s)
    &&& force_lowercase ==> means_lowered(ALL_CAPS@, plain, cased)
    &&& lines_meant(spelled(cased))
}

proof fn lemma_filter_all(s: Seq<char>, keep: spec_fn(char) -> bool)
    requires
        forall|i: int| 0 <= i < s.len() ==> keep(#[trigger] s[i]),
    ensures
        s.filter(keep) == s,
    decreases s.len(),
{
    reveal(Seq::filter);
    if s.len() > 0 {
        lemma_filter_all(s.drop_last(), keep);
        assert(keep(s[s.len() - 1]));
        assert(s.drop_last().push(s.last()) =~= s);
    } else {
        assert(s.filter(keep) =~= s);
    }
}

proof fn lemma_spelled_ascii(s: Seq<char>)
    requires
        forall|i: int| 0 <= i < s.len() ==> is_ascii(#[trigger] s[i]),
    ensures
        spelled(s) == s,
    decreases s.len(),
{
    if s.len() > 0 {
        lemma_spelled_ascii(s.drop_last());
        assert(is_ascii(s[s.len() - 1]));
        assert(s.drop_last() + seq![s.last()] =~= s);
    } else {
        assert(spelled(s) =~= s);
    }
}

/// ASCII without white space around it is left as it is.
proof fn lemma_ascii_left(t: Seq<char>)
    requires
        forall|i: int| 0 <= i < t.len() ==> ' ' <= #[trigger] t[i] <= '~',
        t.len() > 0 ==> t[0] != ' ' && t[t.len() - 1] != ' ',
    ensures
        t.filter(|c: char| is_plain(c)) == t,
        spelled(t) == t,
        ascii_only(t) == t,
{
    lemma_filter_all(t, |c: char| is_plain(c));
    lemma_filter_all(t, |c: char| is_ascii(c));
    assert forall|i: int| 0 <= i < t.len() implies is_ascii(#[trigger] t[i]) by {}
    lemma_spelled_ascii(t);
    if t.len() > 0 {
        assert(!text::is_space(t[0]) && !text::is_space(t[t.len() - 1]));
        assert(text::trim_start_spec(t) == t);
        assert(text::trim_end_spec(t) == t);
    }
}

/// Text on one line with single spaces and stops is left as it is.
proof fn lemma_line_left(t: Seq<char>)
    requires
        sayable(t),
        lines_meant(t),
    ensures
        flattened(t) == t,
{
    let s0 = regex_replaced(PARA_BREAKS@, t, ". "@);
    let s1 = regex_replaced(NEWLINES@, s0, " "@);
    let s2 = regex_replaced(MULTI_PERIODS@, s1, "."@);
    let s3 = regex_replaced(MULTI_SPACES@, s2, " "@);
    assert(!t.contains('\n'));
    lemma_lines_without(t);
    lemma_kept(PARA_BREAKS@, t, ". "@, s0);
    lemma_kept(NEWLINES@, s0, " "@, s1);
    lemma_kept(MULTI_PERIODS@, s1, "."@, s2);
    lemma_kept(MULTI_SPACES@, s2, " "@, s3);
}

/// What is left of a text without its marks is spoken as it is written, where it can
/// be.
pub proof fn law_spoken_as_written(s: Seq<char>, force_lowercase: bool)
    requires
        sayable(without_markup(s)),
        force_lowercase ==> !two_capitals(without_markup(s)),
        cleaning_meant(s, force_lowercase),
    ensures
        cleaned(s, force_lowercase) == without_markup(s),
{
    lemma_ascii_left(without_markup(s));
    lemma_line_left(without_markup(s));
}

proof fn lemma_emoji_free(s: Seq<char>, t: Seq<char>)
    requires
        without_markup(s) == t,
        sayable(t),
    ensures
        without_markup(s).filter(|c: char| is_plain(c)) == t,
{
    lemma_ascii_left(t);
}

proof fn lemma_lowered(a: Seq<char>, w: Seq<char>, b: Seq<char>, r: Seq<char>)
    requires
        means_lowered(ALL_CAPS@, joined(a, w, b), r),
        all_capitals(w),
        !two_capitals(a),
        !two_capitals(b),
        a.len() > 0 ==> a.last() == ' ',
        b.len() > 0 ==> b[0] == ' ',
    ensures
        r == joined(a, w.map_values(|c: char| lower_char(c)), b),
{
}

proof fn lemma_said_lowered(s: Seq<char>, t: Seq<char>, low: Seq<char>)
    requires
        without_markup(s).filter(|c: char| is_plain(c)) == t,
        regex_lowered(ALL_CAPS@, t) == low,
        sayable(low),
        lines_meant(spelled(low)),
    ensures
        cleaned(s, true) == low,
{
    lemma_ascii_left(low);
    lemma_line_left(low);
}

/// A word in capitals is spoken in lower case where that is asked for, and the rest as
/// it is written.
pub proof fn law_capitals_spoken(s: Seq<char>, a: Seq<char>, w: Seq<char>, b: Seq<char>)
    requires
        without_markup(s) == joined(a, w, b),
        all_capitals(w),
        !two_capitals(a),
        !two_capitals(b),
        a.len() > 0 ==> a.last() == ' ',
        b.len() > 0 ==> b[0] == ' ',
        sayable(joined(a, w, b)),
        sayable(joined(a, w.map_values(|c: char| lower_char(c)), b)),
        cleaning_meant(s, true),
    ensures
        cleaned(s, true) == joined(a, w.map_values(|c: char| lower_char(c)), b),
{
    let low = joined(a, w.map_values(|c: char| lower_char(c)), b);
    let t = joined(a, w, b);
    lemma_emoji_free(s, t);
    lemma_lowered(a, w, b, regex_lowered(ALL_CAPS@, t));
    lemma_said_lowered(s, t, low);
}

/// Of a text with marked words, the words are spoken and the marks are not.
pub proof fn law_marked_words_spoken(
    d: char,
    n: nat,
    a: Seq<char>,
    w: Seq<char>,
    b: Seq<char>,
    force_lowercase: bool,
)
    requires
        is_mark(d, n),
        plain(a),
        plain(w),
        plain(b),
        w.len() > 0,
        sayable(a + w + b),
        force_lowercase ==> !two_capitals(a + w + b),
        cleaning_meant(enclose(d, n, a, w, b), force_lowercase),
    ensures
        cleaned(enclose(d, n, a, w, b), force_lowercase) == a + w + b,
{
    assert forall|i: int| 0 <= i < w.len() implies #[trigger] w[i] != '\n' by {
        assert((a + w + b)[a.len() + i] == w[i]);
    }
    law_marked_words_kept(d, n, a, w, b);
    law_spoken_as_written(enclose(d, n, a, w, b), force_lowercase);
}

/// Text is spelled part by part.
pub proof fn law_spelled_parts(a: Seq<char>, b: Seq<char>)
    ensures
        spelled(a + b) == spelled(a) + spelled(b),
    decreases b.len(),
{
    if b.len() == 0 {
        assert(a + b =~= a);
        assert(spelled(a) + spelled(b) =~= spelled(a));
    } else {
        law_spelled_parts(a, b.drop_last());
        assert((a + b).drop_last() =~= a + b.drop_last());
        assert((a + b).last() == b.last());
        assert(spelled(a) + (spelled(b.drop_last()) + ascii_form(b.last())) =~= (spelled(a)
            + spelled(b.drop_last())) + ascii_form(b.last()));
    }
}

/// Quotation marks, dashes, dots and spaces of typography are written as on a
/// typewriter; what has no width is left out.
pub proof fn law_typography_spelled()
    ensures
        spelled(seq!['\u{2018}']) == seq!['\''],
        spelled(seq!['\u{2019}']) == seq!['\''],
        spelled(seq!['\u{201C}']) == seq!['"'],
        spelled(seq!['\u{201D}']) == seq!['"'],
        spelled(seq!['\u{2013}']) == seq![' ', '-', ' '],
        spelled(seq!['\u{2014}']) == seq![' ', '-', '-', ' '],
        spelled(seq!['\u{2026}']) == seq!['.', '.', '.'],
        spelled(seq!['\u{2022}']) == seq![','],
        spelled(seq!['\u{00A0}']) == seq![' '],
        spelled(seq!['\u{200B}']).len() == 0,
        spelled(seq!['\u{200C}']).len() == 0,
        spelled(seq!['\u{200D}']).len() == 0,
        spelled(seq!['\u{FEFF}']).len() == 0,
        spelled(seq!['\u{00B0}']) == seq![' ', 'd', 'e', 'g', 'r', 'e', 'e', 's', ' '],
{
    reveal_strlit("'");
    reveal_strlit("\"");
    reveal_strlit(" - ");
    reveal_strlit(" -- ");
    reveal_strlit("...");
    reveal_strlit(",");
    reveal_strlit(" ");
    reveal_strlit("");
    reveal_strlit(" degrees ");
    assert forall|c: char| #[trigger] spelled(seq![c]) == ascii_form(c) by {
        assert(seq![c].drop_last() =~= Seq::empty());
        assert(spelled(seq![c].drop_last()) =~= Seq::empty());
        assert(Seq::<char>::empty() + ascii_form(c) =~= ascii_form(c));
    }
}

/// Text without the marks of Markdown, code and URLs.
pub fn strip_markup(s: &str) -> (r: String)
    ensures
        r@ == without_markup(s@),
        markup_meant(s@),
        forall|d: char, n: nat, a: Seq<char>, w: Seq<char>, b: Seq<char>|
            s@ == #[trigger] enclose(d, n, a, w, b) && is_mark(d, n) && plain(a) && plain(w)
                && plain(b) && w.len() > 0 && !w.contains('\n') ==> r@ == a + w + b,
{
    let s0 = replace_all(CODE_BLOCKS, s, "");
    let s1 = replace_all(INLINE_CODE, s0.as_str(), "$1");
    let s2 = replace_all(HEADERS, s1.as_str(), "");
    let s3 = replace_all(BOLD_ITALIC, s2.as_str(), "$1");
    let s4 = replace_all(BOLD, s3.as_str(), "$1");
    let s5 = replace_all(ITALIC, s4.as_str(), "$1");
    let s6 = replace_all(UNDERLINE, s5.as_str(), "$1");
    let s7 = replace_all(LINKS, s6.as_str(), "$1");
    let s8 = replace_all(IMAGES, s7.as_str(), "$1");
    let s9 = replace_all(URLS, s8.as_str(), "");
    let s10 = replace_all(BULLET_POINTS, s9.as_str(), "");
    let s11 = replace_all(NUMBERED_LISTS, s10.as_str(), "");
    let s12 = replace_all(HORIZ_RULES, s11.as_str(), "");
    let s13 = replace_all(BLOCKQUOTES, s12.as_str(), "");
    let s14 = replace_all(STRIKETHROUGH, s13.as_str(), "$1");
    proof {
        assert forall|d: char, n: nat, a: Seq<char>, w: Seq<char>, b: Seq<char>|
            s@ == #[trigger] enclose(d, n, a, w, b) && is_mark(d, n) && plain(a) && plain(w)
                && plain(b) && w.len() > 0 && !w.contains('\n') implies s14@ == a + w + b by {
            law_marked_words_kept(d, n, a, w, b);
        }
    }
    s14
}

/// Text on one line, with pauses for its paragraphs.
pub fn flatten(s: &str) -> (r: String)
    ensures
        r@ == flattened(s@),
        lines_meant(s@),
{
    let s0 = replace_all(PARA_BREAKS, s, ". ");
    let s1 = replace_all(NEWLINES, s0.as_str(), " ");
    let s2 = replace_all(MULTI_PERIODS, s1.as_str(), ".");
    let s3 = replace_all(MULTI_SPACES, s2.as_str(), " ");
    s3
}

/// Text without emoji.
pub fn strip_emoji(s: &str) -> (r: String)
    ensures
        r@ == s@.filter(|c: char| is_plain(c)),
{
    let x = text::chars_of(s);
    let ghost keep = |c: char| is_plain(c);
    let mut out: String = String::new();
    let mut i: usize = 0;
    assert(s@.take(0).filter(keep) =~= Seq::empty()) by {
        reveal(Seq::filter);
    }
    while i < x.len()
        invariant
            i <= x.len(),
            x@ == s@,
            keep == (|c: char| is_plain(c)),
            out@ == s@.take(i as int).filter(keep),
        decreases x.len() - i,
    {
        proof {
            text::lemma_filter_step(s@, keep, i as int);
        }
        let u: u32 = x[i] as u32;
        if u < 0x2600 || (0x27bf < u && u < 0x1f300) || (0x1faff < u && u < 0x100000) {
            out.push(x[i]);
        }
        i = i + 1;
    }
    assert(s@.take(i as int) =~= s@);
    out
}

/// How a character is written in ASCII, where it has such a form.
fn spelling(c: char) -> (r: Option<&'static str>)
    ensures
        match r {
            Some(t) => ascii_form(c) == t@,
            None => ascii_form(c) == seq![c],
        },
{
    if c == '\u{2014}' {
        Some(" -- ")
    } else if c == '\u{2013}' {
        Some(" - ")
    } else if c == '\u{2018}' {
        Some("'")
    } else if c == '\u{2019}' {
        Some("'")
    } else if c == '\u{201C}' {
        Some("\"")
    } else if c == '\u{201D}' {
        Some("\"")
    } else if c == '\u{2026}' {
        Some("...")
    } else if c == '\u{2022}' {
        Some(",")
    } else if c == '\u{00A0}' {
        Some(" ")
    } else if c == '\u{200B}' {
        Some("")
    } else if c == '\u{200C}' {
        Some("")
    } else if c == '\u{200D}' {
        Some("")
    } else if c == '\u{FEFF}' {
        Some("")
    } else if c == '\u{00B0}' {
        Some(" degrees ")
    } else {
        None
    }
}

/// Text with its characters written in ASCII, where they have such a form.
pub fn spell(s: &str) -> (r: String)
    ensures
        r@ == spelled(s@),
{
    let x = text::chars_of(s);
    let mut out: String = String::new();
    let mut i: usize = 0;
    assert(spelled(s@.take(0)) =~= Seq::empty());
    while i < x.len()
        invariant
            i <= x.len(),
            x@ == s@,
            out@ == spelled(s@.take(i as int)),
        decreases x.len() - i,
    {
        assert(s@.take(i + 1).drop_last() =~= s@.take(i as int));
        match spelling(x[i]) {
            Some(t) => {
                out.append(t);
            },
            None => {
                out.push(x[i]);
            },
        }
        assert(out@ =~= spelled(s@.take(i + 1)));
        i = i + 1;
    }
    assert(s@.take(i as int) =~= s@);
    out
}

/// The ASCII characters of a text, without white space around them.
pub fn keep_ascii(s: &str) -> (r: String)
    ensures
        r@ == ascii_only(s@),
{
    let x = text::chars_of(s);
    let ghost keep = |c: char| is_ascii(c);
    let mut out: String = String::new();
    let mut i: usize = 0;
    assert(s@.take(0).filter(keep) =~= Seq::empty()) by {
        reveal(Seq::filter);
    }
    while i < x.len()
        invariant
            i <= x.len(),
            x@ == s@,
            keep == (|c: char| is_ascii(c)),
            out@ == s@.take(i as int).filter(keep),
        decreases x.len() - i,
    {
        proof {
            text::lemma_filter_step(s@, keep, i as int);
        }
        if (x[i] as u32) < 128 {
            out.push(x[i]);
        }
        i = i + 1;
    }
    assert(s@.take(i as int) =~= s@);
    text::trim(out.as_str())
}

/// Trimming gives a part of the text.
proof fn lemma_trim_part(s: Seq<char>)
    ensures
        forall|i: int|
            0 <= i < text::trim_spec(s).len() ==> s.contains(#[trigger] text::trim_spec(s)[i]),
{
    lemma_trim_start_part(s);
    lemma_trim_end_part(text::trim_start_spec(s));
    let t = text::trim_start_spec(s);
    assert forall|i: int| 0 <= i < text::trim_spec(s).len() implies s.contains(
        #[trigger] text::trim_spec(s)[i],
    ) by {
        assert(text::trim_spec(s)[i] == t[i]);
        assert(t[i] == s[i + s.len() - t.len()]);
    }
}

/// Trimming the front gives the end of the text.
proof fn lemma_trim_start_part(s: Seq<char>)
    ensures
        text::trim_start_spec(s).len() <= s.len(),
        text::trim_start_spec(s) == s.skip(s.len() - text::trim_start_spec(s).len()),
        text::trim_start_spec(s).len() > 0 ==> !text::is_space(text::trim_start_spec(s)[0]),
    decreases s.len(),
{
    if s.len() > 0 && text::is_space(s[0]) {
        lemma_trim_start_part(s.skip(1));
        let t = text::trim_start_spec(s);
        assert(s.skip(1).skip(s.skip(1).len() - t.len()) =~= s.skip(s.len() - t.len()));
    } else {
        assert(s.skip(0) =~= s);
    }
}

/// Trimming the end gives the front of the text.
proof fn lemma_trim_end_part(s: Seq<char>)
    ensures
        text::trim_end_spec(s).len() <= s.len(),
        text::trim_end_spec(s) == s.take(text::trim_end_spec(s).len() as int),
        text::trim_end_spec(s).len() > 0 ==> !text::is_space(text::trim_end_spec(s).last()),
    decreases s.len(),
{
    if s.len() > 0 && text::is_space(s.last()) {
        lemma_trim_end_part(s.drop_last());
        let t = text::trim_end_spec(s);
        assert(s.drop_last().take(t.len() as int) =~= s.take(t.len() as int));
    } else {
        assert(s.take(s.len() as int) =~= s);
    }
}

/// Text that is spoken is ASCII and has no white space around it.
pub proof fn law_cleaned_plain(s: Seq<char>, force_lowercase: bool)
    ensures
        forall|i: int|
            0 <= i < cleaned(s, force_lowercase).len() ==> is_ascii(
                #[trigger] cleaned(s, force_lowercase)[i],
            ),
        cleaned(s, force_lowercase).len() > 0 ==> !text::is_space(cleaned(s, force_lowercase)[0])
            && !text::is_space(cleaned(s, force_lowercase).last()),
{
    let plain = without_markup(s).filter(|c: char| is_plain(c));
    let cased = if force_lowercase {
        regex_lowered(ALL_CAPS@, plain)
    } else {
        plain
    };
    let keep = |c: char| is_ascii(c);
    let all = flattened(spelled(cased));
    let kept = all.filter(keep);
    lemma_trim_part(kept);
    lemma_trim_start_part(kept);
    lemma_trim_end_part(text::trim_start_spec(kept));
    assert forall|i: int| 0 <= i < text::trim_spec(kept).len() implies is_ascii(
        #[trigger] text::trim_spec(kept)[i],
    ) by {
        let c = text::trim_spec(kept)[i];
        assert(kept.contains(c));
        let k = choose|k: int| 0 <= k < kept.len() && kept[k] == c;
        all.lemma_filter_pred(keep, k);
        assert(keep(c));
    }
}

/// Text as it can be spoken: without Markdown, code, URLs and emoji, in ASCII, on
/// one line. With `force_lowercase`, words in capitals are put in lower case, so that
/// they are not spelled out.
pub fn clean_for_tts(s: &str, force_lowercase: bool) -> (r: String)
    ensures
        r@ == cleaned(s@, force_lowercase),
        cleaning_meant(s@, force_lowercase),
{
    let marked = strip_markup(s);
    let plain = strip_emoji(marked.as_str());
    let cased = if force_lowercase {
        lower_all(ALL_CAPS, plain.as_str())
    } else {
        plain
    };
    let ascii = spell(cased.as_str());
    let flat = flatten(ascii.as_str());
    keep_ascii(flat.as_str())
}

// ── Chunks ──────────────────────────────────────────────────────────

/// What a chunk must be longer than, in bytes, for a break inside its limit.
pub const MIN_CHUNK_CHARS: usize = 50;

/// How long a chunk should be at most, in bytes: the first are short, so that
/// speech starts soon.
pub open spec fn limit(index: nat) -> nat {
    if index == 0 {
        100
    } else if index == 1 {
        200
    } else if index == 2 {
        300
    } else if index == 3 {
        400
    } else {
        500
    }
}

/// How many bytes a character takes in UTF-8.
pub open spec fn width(c: char) -> nat {
    let u = c as u32;
    if u < 0x80 {
        1
    } else if u < 0x800 {
        2
    } else if u < 0x10000 {
        3
    } else {
        4
    }
}

/// Whether `s` from `i` on takes more than `max` bytes.
pub open spec fn longer(s: Seq<char>, max: nat, i: int) -> bool
    decreases s.len() - i,
{
    if i >= s.len() {
        false
    } else if width(s[i]) > max {
        true
    } else {
        longer(s, (max - width(s[i])) as nat, i + 1)
    }
}

/// The position `max` bytes after `i`, where a character begins or the text ends
/// there.
pub open spec fn cut(s: Seq<char>, max: nat, i: int) -> Option<int>
    decreases s.len() - i,
{
    if max == 0 {
        Some(i)
    } else if i >= s.len() || width(s[i]) > max {
        None
    } else {
        cut(s, (max - width(s[i])) as nat, i + 1)
    }
}

/// Whether a sentence ends at `i`: a mark that ends one, and white space.
pub open spec fn ends_sentence(s: Seq<char>, i: int) -> bool {
    0 <= i && i + 1 < s.len() && (s[i] == '.' || s[i] == '!' || s[i] == '?') && text::is_space(
        s[i + 1],
    )
}

/// The last position at or below `i` where two line breaks stand.
pub open spec fn last_break(s: Seq<char>, i: int) -> Option<int>
    decreases i + 1,
{
    if i < 0 {
        None
    } else if i + 1 < s.len() && s[i] == '\n' && s[i + 1] == '\n' {
        Some(i)
    } else {
        last_break(s, i - 1)
    }
}

/// The last position at or below `i` where a sentence ends.
pub open spec fn last_end(s: Seq<char>, i: int) -> Option<int>
    decreases i + 1,
{
    if i < 0 {
        None
    } else if ends_sentence(s, i) {
        Some(i)
    } else {
        last_end(s, i - 1)
    }
}

/// The first position at or after `i` where a sentence ends.
pub open spec fn first_end(s: Seq<char>, i: int) -> Option<int>
    decreases s.len() - i,
{
    if i + 1 >= s.len() {
        None
    } else if ends_sentence(s, i) {
        Some(i)
    } else {
        first_end(s, i + 1)
    }
}

/// Whether a position is not too near the start to break there.
pub open spec fn far(s: Seq<char>, i: int) -> bool {
    longer(s.take(i), MIN_CHUNK_CHARS as nat, 0)
}

/// Where to break a text of which the first `k` characters are within the limit:
/// after the last paragraph there, or after the last sentence there, or, where
/// neither is far enough, after the first sentence of all.
pub open spec fn break_at(s: Seq<char>, k: int) -> Option<int> {
    let p = last_break(s, k - 2);
    let e = last_end(s, k - 2);
    if p is Some && far(s, p.unwrap()) {
        Some(p.unwrap() + 2)
    } else if e is Some && far(s, e.unwrap() + 2) {
        Some(e.unwrap() + 2)
    } else {
        match first_end(s, 0) {
            Some(f) => Some(f + 2),
            None => None,
        }
    }
}

/// A break lies within the text.
proof fn lemma_break_range(s: Seq<char>, k: int)
    requires
        k <= s.len(),
    ensures
        break_at(s, k) matches Some(b) ==> 2 <= b <= s.len(),
{
    lemma_last_break(s, k - 2);
    lemma_last_end(s, k - 2);
    lemma_first_end(s, 0);
}

proof fn lemma_last_break(s: Seq<char>, i: int)
    ensures
        last_break(s, i) matches Some(p) ==> 0 <= p <= i && p + 1 < s.len(),
    decreases i + 1,
{
    if i >= 0 {
        lemma_last_break(s, i - 1);
    }
}

proof fn lemma_last_end(s: Seq<char>, i: int)
    ensures
        last_end(s, i) matches Some(p) ==> 0 <= p <= i && p + 1 < s.len(),
    decreases i + 1,
{
    if i >= 0 {
        lemma_last_end(s, i - 1);
    }
}

proof fn lemma_first_end(s: Seq<char>, i: int)
    requires
        0 <= i,
    ensures
        first_end(s, i) matches Some(p) ==> i <= p && p + 1 < s.len(),
    decreases s.len() - i,
{
    if i + 1 < s.len() {
        lemma_first_end(s, i + 1);
    }
}

proof fn lemma_cut_range(s: Seq<char>, max: nat, i: int)
    requires
        0 <= i <= s.len(),
    ensures
        cut(s, max, i) matches Some(k) ==> i <= k <= s.len(),
    decreases s.len() - i,
{
    if max > 0 && i < s.len() && width(s[i]) <= max {
        lemma_cut_range(s, (max - width(s[i])) as nat, i + 1);
    }
}

/// A chunk, where it is not empty.
pub open spec fn chunk_of(s: Seq<char>) -> Seq<Seq<char>> {
    let t = text::trim_spec(s);
    if t.len() > 0 {
        seq![t]
    } else {
        Seq::empty()
    }
}

/// The chunks of what is left of a text when `index` chunks were taken; none where a
/// limit falls inside a character.
pub open spec fn chunks(s: Seq<char>, index: nat) -> Option<Seq<Seq<char>>>
    decreases s.len(),
    via chunks_decreases
{
    if s.len() == 0 {
        Some(Seq::empty())
    } else if !longer(s, limit(index), 0) {
        Some(seq![s])
    } else {
        match cut(s, limit(index), 0) {
            None => None,
            Some(k) => match break_at(s, k) {
                None => Some(seq![s]),
                Some(b) => match chunks(text::trim_start_spec(s.skip(b)), index + 1) {
                    None => None,
                    Some(rest) => Some(chunk_of(s.take(b)) + rest),
                },
            },
        }
    }
}

#[via_fn]
proof fn chunks_decreases(s: Seq<char>, index: nat) {
    match cut(s, limit(index), 0) {
        None => {},
        Some(k) => {
            lemma_cut_range(s, limit(index), 0);
            lemma_break_range(s, k);
            match break_at(s, k) {
                None => {},
                Some(b) => {
                    lemma_trim_start_part(s.skip(b));
                },
            }
        },
    }
}

/// The limit of a chunk.
fn chunk_limit(index: usize) -> (r: usize)
    ensures
        r == limit(index as nat),
{
    if index == 0 {
        100
    } else if index == 1 {
        200
    } else if index == 2 {
        300
    } else if index == 3 {
        400
    } else {
        500
    }
}

/// How many bytes a character takes in UTF-8.
fn char_width(c: char) -> (r: usize)
    ensures
        r == width(c),
        1 <= r <= 4,
{
    let u: u32 = c as u32;
    if u < 0x80 {
        1
    } else if u < 0x800 {
        2
    } else if u < 0x10000 {
        3
    } else {
        4
    }
}

/// Whether text takes more than `max` bytes.
fn is_longer(x: &[char], max: usize) -> (r: bool)
    ensures
        r == longer(x@, max as nat, 0),
{
    let mut left: usize = max;
    let mut i: usize = 0;
    while i < x.len()
        invariant
            i <= x.len(),
            longer(x@, max as nat, 0) == longer(x@, left as nat, i as int),
        decreases x.len() - i,
    {
        let w: usize = char_width(x[i]);
        if w > left {
            return true;
        }
        left = left - w;
        i = i + 1;
    }
    false
}

/// The position `max` bytes into text, where a character begins or it ends there.
fn cut_at(x: &[char], max: usize) -> (r: Option<usize>)
    ensures
        match r {
            Some(k) => cut(x@, max as nat, 0) == Some(k as int) && k <= x@.len(),
            None => cut(x@, max as nat, 0) is None,
        },
{
    let mut left: usize = max;
    let mut i: usize = 0;
    while left > 0
        invariant
            i <= x.len(),
            cut(x@, max as nat, 0) == cut(x@, left as nat, i as int),
        decreases left,
    {
        if i >= x.len() {
            return None;
        }
        let w: usize = char_width(x[i]);
        if w > left {
            return None;
        }
        left = left - w;
        i = i + 1;
    }
    Some(i)
}

/// Whether a sentence ends at `i`.
fn sentence_ends(x: &[char], i: usize) -> (r: bool)
    requires
        i + 1 < x@.len(),
    ensures
        r == ends_sentence(x@, i as int),
{
    (x[i] == '.' || x[i] == '!' || x[i] == '?') && text::is_whitespace(x[i + 1])
}

/// Where to break a text of which the first `k` characters are within the limit.
fn find_break(x: &[char], k: usize) -> (r: Option<usize>)
    requires
        k <= x@.len(),
    ensures
        match r {
            Some(b) => break_at(x@, k as int) == Some(b as int) && 2 <= b <= x@.len(),
            None => break_at(x@, k as int) is None,
        },
{
    let ghost s = x@;
    let mut p: usize = k;
    while p >= 2 && !(x[p - 2] == '\n' && x[p - 1] == '\n')
        invariant
            p <= k <= x@.len(),
            x@ == s,
            last_break(s, k - 2) == last_break(s, p - 2),
        decreases p,
    {
        p = p - 1;
    }
    if p >= 2 {
        let head = slice_subrange(x, 0, p - 2);
        assert(head@ =~= s.take(p - 2));
        if is_longer(head, MIN_CHUNK_CHARS) {
            return Some(p);
        }
    }
    let mut e: usize = k;
    while e >= 2 && !sentence_ends(x, e - 2)
        invariant
            e <= k <= x@.len(),
            x@ == s,
            last_end(s, k - 2) == last_end(s, e - 2),
        decreases e,
    {
        e = e - 1;
    }
    if e >= 2 {
        let head = slice_subrange(x, 0, e);
        assert(head@ =~= s.take(e as int));
        if is_longer(head, MIN_CHUNK_CHARS) {
            return Some(e);
        }
    }
    if x.len() < 2 {
        return None;
    }
    let mut f: usize = 0;
    while f < x.len() - 1
        invariant
            f + 1 <= x@.len(),
            x@ == s,
            first_end(s, 0) == first_end(s, f as int),
            p < 2 ==> last_break(s, k - 2) is None,
            p >= 2 ==> last_break(s, k - 2) == Some(p - 2) && !far(s, p - 2),
            e < 2 ==> last_end(s, k - 2) is None,
            e >= 2 ==> last_end(s, k - 2) == Some(e - 2) && !far(s, e as int),
        decreases x.len() - f,
    {
        if sentence_ends(x, f) {
            return Some(f + 2);
        }
        f = f + 1;
    }
    None
}

/// Splits text into chunks to speak one after the other. A chunk ends with a
/// sentence, even where its limit is exceeded for it.
pub fn chunk_text(s: &str) -> (r: Vec<String>)
    requires
        chunks(text::trim_spec(s@), 0) is Some,
    ensures
        chunks(text::trim_spec(s@), 0) == Some(text::views(r@)),
{
    let mut out: Vec<String> = Vec::new();
    let mut rest: String = text::trim(s);
    let mut index: usize = 0;
    let ghost all = chunks(rest@, 0)->Some_0;
    let ghost mut left = chunks(rest@, 0)->Some_0;
    assert(text::views(out@) + left =~= all);
    while rest.as_str().unicode_len() > 0
        invariant
            index <= 4,
            ({
                ||| chunks(rest@, index as nat) == Some(left)
                ||| index == 4 && exists|n: nat| n >= 4 && #[trigger] chunks(rest@, n) == Some(left)
            }),
            text::views(out@) + left == all,
            chunks(text::trim_spec(s@), 0) == Some(all),
        decreases rest@.len(),
    {
        let ghost n: nat = if chunks(rest@, index as nat) == Some(left) {
            index as nat
        } else {
            choose|n: nat| n >= 4 && #[trigger] chunks(rest@, n) == Some(left)
        };
        let max: usize = chunk_limit(index);
        assert(max == limit(n));
        let x = text::chars_of(rest.as_str());
        let ghost before = text::views(out@);
        if !is_longer(x.as_slice(), max) {
            out.push(rest);
            assert(text::views(out@) =~= before + left);
            return out;
        }
        let k: usize = match cut_at(x.as_slice(), max) {
            Some(k) => k,
            None => {
                assert(false);
                return out;
            },
        };
        match find_break(x.as_slice(), k) {
            None => {
                out.push(rest);
                assert(text::views(out@) =~= before + left);
                return out;
            },
            Some(b) => {
                let head = text::string_of(slice_subrange(x.as_slice(), 0, b));
                assert(head@ =~= rest@.take(b as int));
                let ghost whole = rest@;
                let tail = text::skip(rest.as_str(), b);
                proof {
                    lemma_trim_start_part(tail@);
                }
                let chunk = text::trim(head.as_str());
                let ghost next = chunks(text::trim_start_spec(tail@), n + 1)->Some_0;
                if !chunk.as_str().is_empty() {
                    out.push(chunk);
                    assert(text::views(out@) =~= before + chunk_of(whole.take(b as int)));
                } else {
                    assert(text::views(out@) =~= before + chunk_of(whole.take(b as int)));
                }
                assert(text::views(out@) + next =~= before + (chunk_of(whole.take(b as int)) + next));
                rest = text::trim_start(tail.as_str());
                proof {
                    left = next;
                    assert(chunks(rest@, n + 1) == Some(left));
                }
                if index < 4 {
                    index = index + 1;
                }
            },
        }
    }
    assert(text::views(out@) =~= all);
    out
}

/// The characters of a text that are no white space.
pub open spec fn ink(s: Seq<char>) -> Seq<char> {
    s.filter(|c: char| !text::is_space(c))
}

/// The characters of several texts, one after the other, that are no white space.
pub open spec fn ink_of(v: Seq<Seq<char>>) -> Seq<char>
    decreases v.len(),
{
    if v.len() == 0 {
        Seq::empty()
    } else {
        ink(v[0]) + ink_of(v.skip(1))
    }
}

proof fn lemma_ink_cat(a: Seq<char>, b: Seq<char>)
    ensures
        ink(a + b) == ink(a) + ink(b),
{
    Seq::filter_distributes_over_add(a, b, |c: char| !text::is_space(c));
}

proof fn lemma_ink_one(c: char)
    ensures
        ink(seq![c]) == (if text::is_space(c) {
            Seq::empty()
        } else {
            seq![c]
        }),
{
    reveal(Seq::filter);
    let p = |c: char| !text::is_space(c);
    assert(seq![c].drop_last() =~= Seq::empty());
    assert(seq![c].drop_last().filter(p) =~= Seq::empty());
    assert(ink(seq![c]) =~= if text::is_space(c) {
        Seq::empty()
    } else {
        seq![c]
    });
}

proof fn lemma_ink_trim_start(s: Seq<char>)
    ensures
        ink(text::trim_start_spec(s)) == ink(s),
    decreases s.len(),
{
    if s.len() > 0 && text::is_space(s[0]) {
        lemma_ink_trim_start(s.skip(1));
        assert(s =~= seq![s[0]] + s.skip(1));
        lemma_ink_cat(seq![s[0]], s.skip(1));
        lemma_ink_one(s[0]);
        assert(ink(s) =~= ink(s.skip(1)));
    }
}

proof fn lemma_ink_trim_end(s: Seq<char>)
    ensures
        ink(text::trim_end_spec(s)) == ink(s),
    decreases s.len(),
{
    if s.len() > 0 && text::is_space(s.last()) {
        lemma_ink_trim_end(s.drop_last());
        assert(s =~= s.drop_last() + seq![s.last()]);
        lemma_ink_cat(s.drop_last(), seq![s.last()]);
        lemma_ink_one(s.last());
        assert(ink(s) =~= ink(s.drop_last()));
    }
}

/// Nothing but white space is lost between the chunks of a text.
pub proof fn law_chunks_complete(s: Seq<char>, index: nat)
    requires
        chunks(s, index) is Some,
    ensures
        ink_of(chunks(s, index).unwrap()) == ink(s),
    decreases s.len(),
{
    if s.len() == 0 {
        reveal(Seq::filter);
        assert(ink(s) =~= Seq::empty());
    } else {
        lemma_ink_single(s);
        if longer(s, limit(index), 0) {
            let k = cut(s, limit(index), 0).unwrap();
            lemma_cut_range(s, limit(index), 0);
            lemma_break_range(s, k);
            if break_at(s, k) is Some {
                let b = break_at(s, k).unwrap();
                let t = text::trim_start_spec(s.skip(b));
                lemma_trim_start_part(s.skip(b));
                law_chunks_complete(t, index + 1);
                let rest = chunks(t, index + 1).unwrap();
                lemma_ink_trim_start(s.skip(b));
                let h = s.take(b);
                lemma_ink_trim_start(h);
                lemma_ink_trim_end(text::trim_start_spec(h));
                assert(h + s.skip(b) =~= s);
                lemma_ink_cat(h, s.skip(b));
                let c = text::trim_spec(h);
                assert(ink(c) == ink(h));
                if c.len() > 0 {
                    assert((seq![c] + rest).skip(1) =~= rest);
                    assert((seq![c] + rest)[0] == c);
                } else {
                    reveal(Seq::filter);
                    assert(ink(c) =~= Seq::empty());
                    assert(Seq::<Seq<char>>::empty() + rest =~= rest);
                    assert(ink(s) =~= ink(s.skip(b)));
                }
            }
        }
    }
}

proof fn lemma_ink_single(s: Seq<char>)
    ensures
        ink_of(seq![s]) == ink(s),
{
    assert(seq![s].skip(1) =~= Seq::empty());
    assert(ink_of(Seq::empty()) =~= Seq::empty());
    assert(ink(s) + Seq::empty() =~= ink(s));
    reveal_with_fuel(ink_of, 2);
}

/// Whether a paragraph ends at `i`.
pub open spec fn ends_paragraph(s: Seq<char>, i: int) -> bool {
    0 <= i && i + 1 < s.len() && s[i] == '\n' && s[i + 1] == '\n'
}

proof fn lemma_last_break_there(s: Seq<char>, i: int)
    ensures
        last_break(s, i) matches Some(p) ==> ends_paragraph(s, p),
    decreases i + 1,
{
    if i >= 0 {
        lemma_last_break_there(s, i - 1);
    }
}

proof fn lemma_last_end_there(s: Seq<char>, i: int)
    ensures
        last_end(s, i) matches Some(p) ==> ends_sentence(s, p),
    decreases i + 1,
{
    if i >= 0 {
        lemma_last_end_there(s, i - 1);
    }
}

proof fn lemma_first_end_there(s: Seq<char>, i: int)
    ensures
        first_end(s, i) matches Some(p) ==> ends_sentence(s, p),
    decreases s.len() - i,
{
    if i + 1 < s.len() {
        lemma_first_end_there(s, i + 1);
    }
}

/// A text is broken only where a sentence or a paragraph ends, never in the middle of
/// a sentence.
pub proof fn law_whole_sentences(s: Seq<char>, k: int)
    ensures
        break_at(s, k) matches Some(b) ==> ends_sentence(s, b - 2) || ends_paragraph(s, b - 2),
{
    lemma_last_break_there(s, k - 2);
    lemma_last_end_there(s, k - 2);
    lemma_first_end_there(s, 0);
}

proof fn lemma_trim_start_mark(s: Seq<char>)
    requires
        s.len() >= 2,
        !text::is_space(s[s.len() - 2]),
    ensures
        ({
            let t = text::trim_start_spec(s);
            t.len() >= 2 && t[t.len() - 1] == s[s.len() - 1] && t[t.len() - 2] == s[s.len() - 2]
        }),
    decreases s.len(),
{
    if text::is_space(s[0]) {
        lemma_trim_start_mark(s.skip(1));
    }
}

/// A chunk that ends with the end of a sentence keeps the mark that ends it.
proof fn lemma_trim_mark(s: Seq<char>)
    requires
        s.len() >= 2,
        ends_sentence(s, s.len() - 2),
    ensures
        text::trim_spec(s).len() > 0,
        text::trim_spec(s).last() == s[s.len() - 2],
{
    assert(!text::is_space(s[s.len() - 2]));
    lemma_trim_start_mark(s);
    let t = text::trim_start_spec(s);
    assert(t.drop_last().last() == s[s.len() - 2]);
    assert(text::trim_end_spec(t.drop_last()) == t.drop_last());
}

/// Whether a text has no empty line.
pub open spec fn one_paragraph(s: Seq<char>) -> bool {
    forall|i: int| !#[trigger] ends_paragraph(s, i)
}

proof fn lemma_trim_start_paragraph(s: Seq<char>)
    requires
        one_paragraph(s),
    ensures
        one_paragraph(text::trim_start_spec(s)),
    decreases s.len(),
{
    if s.len() > 0 && text::is_space(s[0]) {
        let t = s.skip(1);
        assert forall|i: int| !#[trigger] ends_paragraph(t, i) by {
            assert(!ends_paragraph(s, i + 1));
        }
        lemma_trim_start_paragraph(t);
    }
}

/// In a text without empty lines, each chunk that another follows ends with the mark
/// that ends a sentence.
pub proof fn law_chunks_end_sentences(s: Seq<char>, index: nat, i: int)
    requires
        one_paragraph(s),
        chunks(s, index) is Some,
        0 <= i < chunks(s, index).unwrap().len() - 1,
    ensures
        ({
            let c = chunks(s, index).unwrap()[i];
            c.len() > 0 && (c.last() == '.' || c.last() == '!' || c.last() == '?')
        }),
    decreases s.len(),
{
    let k = cut(s, limit(index), 0).unwrap();
    lemma_cut_range(s, limit(index), 0);
    lemma_break_range(s, k);
    law_whole_sentences(s, k);
    let b = break_at(s, k).unwrap();
    assert(!ends_paragraph(s, b - 2));
    let h = s.take(b);
    assert(ends_sentence(h, h.len() - 2));
    lemma_trim_mark(h);
    let r = s.skip(b);
    assert forall|j: int| !#[trigger] ends_paragraph(r, j) by {
        if 0 <= j {
            assert(!ends_paragraph(s, j + b));
        }
    }
    lemma_trim_start_part(r);
    lemma_trim_start_paragraph(r);
    let rest = chunks(text::trim_start_spec(r), index + 1).unwrap();
    assert(chunks(s, index).unwrap() == seq![text::trim_spec(h)] + rest);
    if i > 0 {
        law_chunks_end_sentences(text::trim_start_spec(r), index + 1, i - 1);
        assert(chunks(s, index).unwrap()[i] == rest[i - 1]);
    }
}

/// A text that is too long has a place to cut it, where it is ASCII.
proof fn lemma_ascii_cut(s: Seq<char>, max: nat, i: int)
    requires
        0 <= i,
        forall|k: int| 0 <= k < s.len() ==> is_ascii(#[trigger] s[k]),
        longer(s, max, i),
    ensures
        cut(s, max, i) is Some,
    decreases s.len() - i,
{
    if max > 0 && i < s.len() {
        assert(is_ascii(s[i]));
        lemma_ascii_cut(s, (max - 1) as nat, i + 1);
    }
}

/// ASCII text, as `clean_for_tts` gives it, always has chunks.
pub proof fn law_ascii_chunks(s: Seq<char>, index: nat)
    requires
        forall|k: int| 0 <= k < s.len() ==> is_ascii(#[trigger] s[k]),
    ensures
        chunks(s, index) is Some,
    decreases s.len(),
{
    if s.len() > 0 && longer(s, limit(index), 0) {
        lemma_ascii_cut(s, limit(index), 0);
        let k = cut(s, limit(index), 0).unwrap();
        lemma_cut_range(s, limit(index), 0);
        lemma_break_range(s, k);
        if break_at(s, k) is Some {
            let b = break_at(s, k).unwrap();
            let t = text::trim_start_spec(s.skip(b));
            lemma_trim_start_part(s.skip(b));
            assert forall|j: int| 0 <= j < t.len() implies is_ascii(#[trigger] t[j]) by {
                let d = s.skip(b).len() - t.len();
                assert(t[j] == s.skip(b)[d + j]);
                assert(is_ascii(s[b + d + j]));
            }
            law_ascii_chunks(t, index + 1);
        }
    }
}

/// The first chunks are short, so that speech starts soon, and none is meant to be longer
/// than five hundred bytes.
pub proof fn law_limits_grow(i: nat)
    ensures
        limit(0) == 100,
        limit(i) <= limit(i + 1) <= 500,
        i < 4 ==> limit(i) == 100 * (i + 1),
        i >= 4 ==> limit(i) == 500,
{
}

} // verus!
