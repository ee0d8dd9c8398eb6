//! The voice section in a project's instruction files.

use vstd::prelude::*;

use crate::config;
use crate::text;

verus! {

/// The heading of the voice section of an instruction file.
pub const VOICE_HEADING: &'static str = "\n\n## Babel3 Voice\n";

/// The voice section after its heading, up to the dashboard URL.
pub const VOICE_SECTION_START: &'static str =
    "\n\
     This project has Babel3 voice integration. The user can talk to you from their phone\n\
     at ";

/// The voice section after the dashboard URL, up to the agent's name.
pub const VOICE_SECTION_BODY: &'static str =
    " and you can speak responses aloud.\n\n\
     **IMPORTANT: You have voice tools via the `b3` MCP. They ARE available and working.\n\
     Call them directly — do NOT check resources or capabilities first. Just call the tool.**\n\n\
     **Voice tools (call these directly):**\n\n\
     - `say(text, emotion, replying_to)` — Speak text aloud to the user's browser. All three parameters are REQUIRED.\n\
     - `voice_status()` — Check voice pipeline health.\n\
     - `voice_health()` — Deep health check (curls endpoints directly).\n\
     - `voice_logs(lines?)` — Get recent daemon logs.\n\
     - `voice_delivery_status(msg_id)` — Check message delivery.\n\
     - `voice_share_info(html)` — Push HTML content to connected browsers.\n\
     - `voice_show_image(path)` — Push an image to connected browsers.\n\
     - `voice_enroll_speakers(embeddings_dir)` — Upload speaker embeddings for diarization.\n\n\
     **When you receive voice input** (via <channel> tags or lines starting with `[M`), ALWAYS respond with `say()`.\n\
     The user is on their phone — text responses go to a terminal they're not watching.\n\
     Voice goes to their ears. Audio in = audio out.\n\n\
     **ALWAYS include all three parameters** when calling `say()`. The `replying_to` echoes back what the\n\
     user said (or a summary of context). The `emotion` drives the LED chromatophore animation on the\n\
     dashboard — it maps to colors and patterns via embeddings.\n\
     Use a short, natural English phrase describing the emotional tone (e.g., \"warm joy\", \"thoughtful\",\n\
     \"excited curiosity\", \"gentle reassurance\", \"playful mischief\"). Be specific and varied — avoid\n\
     repeating the same emotion. If unsure, use \"neutral calm\".\n\n\
     **Example:** User says \"Testing 1 2 3\" → you call `say(text=\"I can hear you! Your microphone is working great.\", emotion=\"cheerful enthusiasm\", replying_to=\"Testing 1 2 3\")`\n\n\
     Agent: ";

/// The voice section of `AGENTS.md` after the dashboard URL, up to the agent's name.
pub const AGENTS_SECTION_BODY: &'static str =
    " and you can speak responses aloud.\n\n\
     **Voice tools (via b3 MCP):**\n\n\
     - `voice_say(text, emotion)` — Speak text aloud. The `emotion` parameter is REQUIRED.\n\
     - `voice_status()` — Check voice pipeline health.\n\
     - `hive_send(target, message)` — Send a message to another agent.\n\
     - `hive_status()` — List sibling agents.\n\n\
     **When you receive voice input** (lines starting with `[M`), ALWAYS respond with `voice_say()`.\n\
     Audio in = audio out.\n\n\
     Agent: ";

/// The mark that says which version wrote the section.
pub open spec fn version_tag_text(version: Seq<char>) -> Seq<char> {
    "<!-- b3 v"@ + version + " -->"@
}

/// The mark that says which version wrote the section.
pub fn version_tag(version: &str) -> (r: String)
    ensures
        r@ == version_tag_text(version@),
{
    text::cat3("<!-- b3 v", version, " -->")
}

/// The voice section for the assistant's instructions.
pub open spec fn voice_section_text(
    web_url: Seq<char>,
    agent: Seq<char>,
    version: Seq<char>,
) -> Seq<char> {
    VOICE_HEADING@ + VOICE_SECTION_START@ + web_url + VOICE_SECTION_BODY@ + agent + "\n"@ + version_tag_text(version)
        + "\n"@
}

/// The voice section for the assistant's instructions.
pub fn voice_section(web_url: &str, agent: &str, version: &str) -> (r: String)
    ensures
        r@ == voice_section_text(web_url@, agent@, version@),
{
    let tag = version_tag(version);
    let start = text::cat2(VOICE_HEADING, VOICE_SECTION_START);
    text::cat7(
        start.as_str(),
        web_url,
        VOICE_SECTION_BODY,
        agent,
        "\n",
        tag.as_str(),
        "\n",
    )
}

/// The voice section for `AGENTS.md`.
pub open spec fn agents_section_text(web_url: Seq<char>, agent: Seq<char>) -> Seq<char> {
    VOICE_HEADING@ + VOICE_SECTION_START@ + web_url + AGENTS_SECTION_BODY@ + agent + "\n"@
}

/// The voice section for `AGENTS.md`.
pub fn agents_section(web_url: &str, agent: &str) -> (r: String)
    ensures
        r@ == agents_section_text(web_url@, agent@),
{
    text::cat6(VOICE_HEADING, VOICE_SECTION_START, web_url, AGENTS_SECTION_BODY, agent, "\n")
}

/// What to do with an instruction file.
#[derive(Debug)]
pub enum Instructions {
    Keep,
    /// Replace the contents.
    Rewrite(String),
    /// Add the section at the end.
    Append(String),
}

/// The mathematical value of an [`Instructions`].
#[verifier::ext_equal]
pub enum InstructionsView {
    Keep,
    Rewrite(Seq<char>),
    Append(Seq<char>),
}

impl View for Instructions {
    type V = InstructionsView;

    open spec fn view(&self) -> InstructionsView {
        match self {
            Instructions::Keep => InstructionsView::Keep,
            Instructions::Rewrite(s) => InstructionsView::Rewrite(s@),
            Instructions::Append(s) => InstructionsView::Append(s@),
        }
    }
}

/// The smaller of two positions, where there are any.
pub open spec fn earlier(a: Option<int>, b: Option<int>) -> Option<int> {
    match a {
        None => b,
        Some(x) => match b {
            None => a,
            Some(y) => if y < x {
                b
            } else {
                a
            },
        },
    }
}

/// The first mark of any version, old or new, at or after `start`.
pub open spec fn first_mark(s: Seq<char>, start: int) -> Option<int> {
    earlier(
        earlier(
            text::find_from(s, "<!-- b3 v"@, start),
            text::find_from(s, "<!-- hc v"@, start),
        ),
        text::find_from(s, "<!-- heycode v"@, start),
    )
}

/// The first line break at or after `start` behind which a heading stands that ends a
/// section.
pub open spec fn next_heading(s: Seq<char>, start: int) -> Option<int> {
    earlier(text::find_from(s, "\n## "@, start), text::find_from(s, "\n# "@, start))
}

/// The mark of the section whose heading stands behind the line break at `start`: the
/// first mark, unless another heading stands before it.
pub open spec fn own_mark(s: Seq<char>, start: int) -> Option<int> {
    match first_mark(s, start) {
        None => None,
        Some(m) => match next_heading(s, start + 1) {
            None => Some(m),
            Some(h) => if m < h {
                Some(m)
            } else {
                None
            },
        },
    }
}

/// Where the section whose heading stands behind the line break at `start` ends: at
/// the end of the line of its mark, or, without a mark, before the next heading or at
/// the end of the file.
pub open spec fn section_end(s: Seq<char>, start: int) -> int {
    match own_mark(s, start) {
        Some(m) => match text::find_from(s, "\n"@, m) {
            Some(e) => e,
            None => s.len() as int,
        },
        None => match next_heading(s, start + 1) {
            Some(h) => h,
            None => s.len() as int,
        },
    }
}

/// Where an older section that begins at `start` ends: at the end of the line of the
/// first mark behind it, or at the end of the file.
pub open spec fn stale_end(s: Seq<char>, start: int) -> int {
    match first_mark(s, start) {
        None => s.len() as int,
        Some(m) => match text::find_from(s, "\n"@, m) {
            Some(e) => e,
            None => s.len() as int,
        },
    }
}

/// The contents with the section under its new heading.
pub open spec fn migrated(s: Seq<char>) -> Seq<char> {
    if text::contains_spec(s, "## HeyCode Voice"@) {
        text::replaced(s, "## HeyCode Voice"@, "## Babel3 Voice"@)
    } else {
        s
    }
}

/// What to do with the instruction file at start: nothing where this version
/// wrote the section, else replace an older section, else add one.
pub open spec fn refreshed(
    existing: Seq<char>,
    section: Seq<char>,
    tag: Seq<char>,
) -> InstructionsView {
    let s = migrated(existing);
    if text::contains_spec(s, tag) {
        InstructionsView::Keep
    } else {
        match text::find_from(s, "\n## Babel3 Voice"@, 0) {
            Some(start) => InstructionsView::Rewrite(
                s.take(start) + section + s.skip(stale_end(s, start)),
            ),
            None => InstructionsView::Append(section),
        }
    }
}

/// The smaller of two positions, where there are any.
fn earlier_of(a: Option<usize>, b: Option<usize>) -> (r: Option<usize>)
    ensures
        match r {
            Some(x) => earlier(
                match a {
                    Some(i) => Some(i as int),
                    None => None,
                },
                match b {
                    Some(i) => Some(i as int),
                    None => None,
                },
            ) == Some(x as int),
            None => a is None && b is None,
        },
{
    match a {
        None => b,
        Some(x) => match b {
            None => a,
            Some(y) => if y < x {
                b
            } else {
                a
            },
        },
    }
}

/// The first mark of any version at or after `start`.
fn find_mark(s: &str, start: usize) -> (r: Option<usize>)
    ensures
        match r {
            Some(m) => first_mark(s@, start as int) == Some(m as int),
            None => first_mark(s@, start as int) is None,
        },
{
    let b3 = text::find_at(s, "<!-- b3 v", start);
    let hc = text::find_at(s, "<!-- hc v", start);
    let old = text::find_at(s, "<!-- heycode v", start);
    earlier_of(earlier_of(b3, hc), old)
}

/// Where the line ends in which `m` lies.
fn find_line_end(s: &str, m: usize) -> (r: usize)
    ensures
        r == (match text::find_from(s@, "\n"@, m as int) {
            Some(e) => e,
            None => s@.len() as int,
        }),
        r <= s@.len(),
{
    match text::find_at(s, "\n", m) {
        Some(e) => {
            proof {
                text::lemma_find_from_range(s@, "\n"@, m as int);
            }
            e
        },
        None => s.unicode_len(),
    }
}

/// Where an older section that begins at `start` ends.
fn find_stale_end(s: &str, start: usize) -> (r: usize)
    ensures
        r == stale_end(s@, start as int),
        r <= s@.len(),
{
    match find_mark(s, start) {
        Some(m) => find_line_end(s, m),
        None => s.unicode_len(),
    }
}

/// The mark of the section whose heading stands behind the line break at `start`, and
/// where that section ends.
fn find_section_end(s: &str, start: usize) -> (r: (Option<usize>, usize))
    requires
        start < s@.len(),
    ensures
        match r.0 {
            Some(m) => own_mark(s@, start as int) == Some(m as int),
            None => own_mark(s@, start as int) is None,
        },
        r.1 == section_end(s@, start as int),
        r.1 <= s@.len(),
{
    let n: usize = s.unicode_len();
    let mark = find_mark(s, start);
    let second = text::find_at(s, "\n## ", start + 1);
    let first = text::find_at(s, "\n# ", start + 1);
    let heading = earlier_of(second, first);
    let own = match (mark, heading) {
        (Some(m), Some(h)) => if m < h {
            Some(m)
        } else {
            None
        },
        _ => mark,
    };
    let end: usize = match own {
        Some(m) => find_line_end(s, m),
        None => match heading {
            Some(h) => {
                proof {
                    text::lemma_find_from_range(s@, "\n## "@, start + 1);
                    text::lemma_find_from_range(s@, "\n# "@, start + 1);
                }
                h
            },
            None => n,
        },
    };
    (own, end)
}

/// What to do with the instruction file at start.
pub fn refresh(existing: &str, web_url: &str, agent: &str, version: &str) -> (r: Instructions)
    ensures
        r@ == refreshed(
            existing@,
            voice_section_text(web_url@, agent@, version@),
            version_tag_text(version@),
        ),
{
    let section = voice_section(web_url, agent, version);
    let tag = version_tag(version);
    proof {
        reveal_strlit("## HeyCode Voice");
    }
    let s: String = if text::contains(existing, "## HeyCode Voice") {
        text::replace(existing, "## HeyCode Voice", "## Babel3 Voice")
    } else {
        existing.to_owned()
    };
    if text::contains(s.as_str(), tag.as_str()) {
        return Instructions::Keep;
    }
    match text::find(s.as_str(), "\n## Babel3 Voice") {
        Some(start) => {
            let end: usize = find_stale_end(s.as_str(), start);
            let head = text::take(s.as_str(), start);
            let rest = text::skip(s.as_str(), end);
            Instructions::Rewrite(text::cat3(head.as_str(), section.as_str(), rest.as_str()))
        },
        None => Instructions::Append(section),
    }
}

/// The text to add to an instruction file at setup: nothing where it has a section.
pub fn first_section(existing: Option<&str>, section: String) -> (r: Option<String>)
    ensures
        match existing {
            Some(s) => if text::contains_spec(s@, "## Babel3 Voice"@) {
                r is None
            } else {
                r == Some(section)
            },
            None => r == Some(section),
        },
{
    match existing {
        Some(s) => if text::contains(s, "## Babel3 Voice") {
            None
        } else {
            Some(section)
        },
        None => Some(section),
    }
}

/// Where what follows the section begins whose heading stands behind the line break at
/// `start`: behind the line of its mark, or at the line break before the next heading.
pub open spec fn after_section(s: Seq<char>, start: int) -> int {
    let end = section_end(s, start);
    if own_mark(s, start) is Some && end < s.len() {
        end + 1
    } else {
        end
    }
}

/// The contents without the section that setup added; nothing where there is none.
pub open spec fn taken_out(content: Seq<char>) -> Option<Seq<char>> {
    match text::find_from(content, VOICE_HEADING@, 0) {
        Some(i) => Some(content.take(i) + content.skip(after_section(content, i + 1))),
        None => None,
    }
}

/// The contents without the section that setup added, and with everything else;
/// nothing where there is no such section.
pub fn without_section(content: &str) -> (r: Option<String>)
    ensures
        config::opt_string(r) == taken_out(content@),
{
    match text::find(content, VOICE_HEADING) {
        Some(i) => {
            proof {
                reveal_strlit("\n\n## Babel3 Voice\n");
            }
            let n: usize = content.unicode_len();
            let (own, end) = find_section_end(content, i + 1);
            let next: usize = if own.is_some() && end < n {
                end + 1
            } else {
                end
            };
            let head = text::take(content, i);
            let rest = text::skip(content, next);
            Some(text::cat2(head.as_str(), rest.as_str()))
        },
        None => None,
    }
}

/// Whether a text is a whole section: it begins with the heading, and its own mark
/// is in its last line.
pub open spec fn is_section(section: Seq<char>) -> bool {
    &&& text::starts_with_spec(section, VOICE_HEADING@)
    &&& own_mark(section, 1) matches Some(m) && text::find_from(section, "\n"@, m) == Some(
        section.len() - 1,
    )
}

/// A mark in a section is found where the section stands among other text; one that
/// is not in it, only behind it.
proof fn lemma_mark_within(before: Seq<char>, section: Seq<char>, after: Seq<char>, mark: Seq<char>)
    requires
        section.len() > 0,
        section.last() == '\n',
        mark.len() > 0,
        !mark.contains('\n'),
    ensures
        match text::find_from(section, mark, 0) {
            Some(k) => text::find_from(before + section + after, mark, before.len() as int) == Some(
                before.len() + k,
            ),
            None => text::find_from(before + section + after, mark, before.len() as int) matches Some(
                k,
            ) ==> k >= before.len() + section.len(),
        },
{
    let s = before + section + after;
    let n = before.len() as int;
    text::lemma_none_before(section, mark, 0);
    text::lemma_find_from_range(section, mark, 0);
    assert forall|j: int| 0 <= j && j + mark.len() <= section.len() implies #[trigger] s.subrange(
        n + j,
        n + j + mark.len(),
    ) == section.subrange(j, j + mark.len()) by {
        assert(s.subrange(n + j, n + j + mark.len()) =~= section.subrange(j, j + mark.len()));
    }
    match text::find_from(section, mark, 0) {
        Some(k) => {
            assert forall|j: int| n <= j < n + k implies #[trigger] s.subrange(
                j,
                j + mark.len(),
            ) != mark by {
                assert(s.subrange(n + (j - n), n + (j - n) + mark.len()) == section.subrange(
                    j - n,
                    j - n + mark.len(),
                ));
            }
            assert(s.subrange(n + k, n + k + mark.len()) == mark);
            text::lemma_first_found(s, mark, n, n + k);
        },
        None => {
            text::lemma_find_from_range(s, mark, n);
            match text::find_from(s, mark, n) {
                Some(k) => {
                    if k < n + section.len() {
                        let j = k - n;
                        if j + mark.len() <= section.len() {
                            assert(s.subrange(n + j, n + j + mark.len()) == section.subrange(
                                j,
                                j + mark.len(),
                            ));
                            assert(false);
                        } else {
                            let e = section.len() - 1 - j;
                            assert(s.subrange(k, k + mark.len())[e] == section.last());
                            assert(mark[e] == '\n');
                            assert(false);
                        }
                    }
                },
                None => {},
            }
        },
    }
}

/// The heading is found where a section stands behind text that has none.
proof fn lemma_heading_found(existing: Seq<char>, section: Seq<char>, rest: Seq<char>)
    requires
        !text::contains_spec(existing, "## Babel3 Voice"@),
        text::starts_with_spec(section, VOICE_HEADING@),
    ensures
        text::find_from(existing + section + rest, VOICE_HEADING@, 0) == Some(
            existing.len() as int,
        ),
{
    let p = VOICE_HEADING@;
    let q = "## Babel3 Voice"@;
    reveal_strlit("\n\n## Babel3 Voice\n");
    reveal_strlit("## Babel3 Voice");
    let s = existing + section + rest;
    let n = existing.len() as int;
    assert(p.subrange(2, 17) =~= q);
    assert(s.subrange(n, n + p.len()) =~= section.take(p.len() as int));
    assert forall|i: int| 0 <= i < n implies #[trigger] s.subrange(i, i + 18) != p by {
        if s.subrange(i, i + 18) == p {
            if i + 17 <= n {
                assert(existing.subrange(i + 2, i + 17) =~= q) by {
                    assert forall|k: int| 0 <= k < 15 implies existing[i + 2 + k] == q[k] by {
                        assert(s.subrange(i, i + 18)[k + 2] == s[i + 2 + k]);
                        assert(p.subrange(2, 17)[k] == p[k + 2]);
                    }
                }
                text::lemma_found(existing, q, i + 2);
            } else {
                let k = n - i;
                assert(s[n] == section[0] && s[n + 1] == section[1]);
                assert(section.take(p.len() as int)[0] == section[0]);
                assert(section.take(p.len() as int)[1] == section[1]);
                assert(s.subrange(i, i + 18)[k] == s[n]);
                assert(s.subrange(i, i + 18)[k + 1] == s[n + 1]);
                assert(p[k] == '\n' && p[k + 1] == '\n');
            }
        }
    }
    text::lemma_first_found(s, p, 0, n);
}

/// What does not stand at a position is found behind it, if at all.
proof fn lemma_not_here(s: Seq<char>, p: Seq<char>, i: int)
    requires
        0 <= i < s.len(),
        p.len() > 0,
        s[i] != p[0],
    ensures
        text::find_from(s, p, i) == text::find_from(s, p, i + 1),
{
    if i + p.len() <= s.len() {
        assert(s.subrange(i, i + p.len())[0] == s[i]);
    }
}

/// The first mark in a section with its heading is the first one behind the line break
/// before the heading.
proof fn lemma_first_mark_skips(s: Seq<char>, i: int)
    requires
        0 <= i < s.len(),
        s[i] == '\n',
    ensures
        first_mark(s, i) == first_mark(s, i + 1),
{
    reveal_strlit("<!-- b3 v");
    reveal_strlit("<!-- hc v");
    reveal_strlit("<!-- heycode v");
    lemma_not_here(s, "<!-- b3 v"@, i);
    lemma_not_here(s, "<!-- hc v"@, i);
    lemma_not_here(s, "<!-- heycode v"@, i);
}

/// The first mark behind `before` is that of the section, or, where that has none,
/// stands behind the section.
proof fn lemma_first_mark_within(before: Seq<char>, section: Seq<char>, after: Seq<char>)
    requires
        section.len() > 0,
        section.last() == '\n',
    ensures
        match first_mark(section, 0) {
            Some(m) => first_mark(before + section + after, before.len() as int) == Some(
                before.len() + m,
            ),
            None => first_mark(before + section + after, before.len() as int) matches Some(k)
                ==> k >= before.len() + section.len(),
        },
{
    reveal_strlit("<!-- b3 v");
    reveal_strlit("<!-- hc v");
    reveal_strlit("<!-- heycode v");
    text::lemma_find_from_range(section, "<!-- b3 v"@, 0);
    text::lemma_find_from_range(section, "<!-- hc v"@, 0);
    text::lemma_find_from_range(section, "<!-- heycode v"@, 0);
    lemma_mark_within(before, section, after, "<!-- b3 v"@);
    lemma_mark_within(before, section, after, "<!-- hc v"@);
    lemma_mark_within(before, section, after, "<!-- heycode v"@);
}

/// The beginning of a heading that does not stand in a section before `end` does not
/// stand there where the section stands among other text.
proof fn lemma_unheaded_within(
    before: Seq<char>,
    section: Seq<char>,
    after: Seq<char>,
    p: Seq<char>,
    end: int,
)
    requires
        0 <= end,
        end + p.len() <= section.len() + 1,
        text::find_from(section, p, 2) matches Some(h) ==> end <= h,
    ensures
        text::find_from(before + section + after, p, before.len() + 2int) matches Some(h) ==> before.len()
            + end <= h,
{
    let s = before + section + after;
    let n = before.len() as int;
    text::lemma_find_from_range(s, p, n + 2);
    text::lemma_none_before(section, p, 2);
    match text::find_from(s, p, n + 2) {
        Some(h) => if h < n + end {
            let k = h - n;
            assert(s.subrange(h, h + p.len()) =~= section.subrange(k, k + p.len()));
        },
        None => {},
    }
}

/// A section behind text that has none is taken out, and everything else is kept.
proof fn lemma_section_removed(existing: Seq<char>, section: Seq<char>, rest: Seq<char>)
    requires
        !text::contains_spec(existing, "## Babel3 Voice"@),
        is_section(section),
    ensures
        taken_out(existing + section + rest) == Some(existing + rest),
{
    let s = existing + section + rest;
    let n = existing.len() as int;
    lemma_heading_found(existing, section, rest);
    reveal_strlit("\n");
    reveal_strlit("\n\n## Babel3 Voice\n");
    reveal_strlit("\n## ");
    reveal_strlit("\n# ");
    reveal_strlit("<!-- b3 v");
    reveal_strlit("<!-- hc v");
    reveal_strlit("<!-- heycode v");
    assert(section.take(VOICE_HEADING@.len() as int)[0] == section[0]);
    assert(s[n] == section[0]);
    lemma_first_mark_skips(section, 0);
    lemma_first_mark_skips(s, n);
    let m = own_mark(section, 1)->0;
    let last = section.len() - 1;
    text::lemma_find_from_range(section, "<!-- b3 v"@, 1);
    text::lemma_find_from_range(section, "<!-- hc v"@, 1);
    text::lemma_find_from_range(section, "<!-- heycode v"@, 1);
    text::lemma_find_from_range(section, "\n"@, m);
    text::lemma_none_before(section, "\n"@, m);
    assert(section.subrange(last, last + 1)[0] == section[last]);
    lemma_first_mark_within(existing, section, rest);
    assert(first_mark(s, n + 1) == Some(n + m));
    lemma_unheaded_within(existing, section, rest, "\n## "@, m);
    lemma_unheaded_within(existing, section, rest, "\n# "@, m);
    text::lemma_find_from_range(s, "\n## "@, n + 2);
    text::lemma_find_from_range(s, "\n# "@, n + 2);
    assert(s[n + m] == '<') by {
        text::lemma_find_from_range(s, "<!-- b3 v"@, n + 1);
        text::lemma_find_from_range(s, "<!-- hc v"@, n + 1);
        text::lemma_find_from_range(s, "<!-- heycode v"@, n + 1);
        assert(s.subrange(n + m, n + m + 9)[0] == s[n + m]);
        assert(n + m + 14 <= s.len() ==> s.subrange(n + m, n + m + 14)[0] == s[n + m]);
    }
    assert(n + m + 5 <= s.len() ==> s.subrange(n + m, n + m + 5)[0] == s[n + m]);
    assert(n + m + 4 <= s.len() ==> s.subrange(n + m, n + m + 4)[0] == s[n + m]);
    assert(n + m + 3 <= s.len() ==> s.subrange(n + m, n + m + 3)[0] == s[n + m]);
    assert(own_mark(s, n + 1) == Some(n + m));
    assert forall|j: int| n + m <= j < n + last implies #[trigger] s.subrange(j, j + 1)
        != "\n"@ by {
        assert(s.subrange(j, j + 1) =~= section.subrange(j - n, j - n + 1));
    }
    assert(s.subrange(n + last, n + last + 1) =~= section.subrange(last, last + 1));
    text::lemma_first_found(s, "\n"@, n + m, n + last);
    assert(after_section(s, n + 1) == n + section.len());
    assert(s.take(n) + s.skip(n + section.len()) =~= existing + rest);
}

/// A section without a mark is taken out up to the next heading or the end of the
/// file: everything else is as it was.
pub proof fn law_unmarked_section_removed(existing: Seq<char>, section: Seq<char>, rest: Seq<char>)
    requires
        !text::contains_spec(existing, "## Babel3 Voice"@),
        text::starts_with_spec(section, VOICE_HEADING@),
        section.last() == '\n',
        first_mark(section, 0) is None,
        next_heading(section, 2) is None,
        rest.len() == 0 || text::starts_with_spec(rest, "\n## "@) || text::starts_with_spec(
            rest,
            "\n# "@,
        ),
    ensures
        taken_out(existing + section + rest) == Some(existing + rest),
{
    let s = existing + section + rest;
    let n = existing.len() as int;
    let e = n + section.len();
    let a = "\n## "@;
    let b = "\n# "@;
    lemma_heading_found(existing, section, rest);
    reveal_strlit("\n\n## Babel3 Voice\n");
    reveal_strlit("\n## ");
    reveal_strlit("\n# ");
    assert(section.take(VOICE_HEADING@.len() as int)[0] == section[0]);
    assert(s[n] == section[0]);
    lemma_first_mark_skips(s, n);
    lemma_first_mark_within(existing, section, rest);
    if text::starts_with_spec(rest, a) {
        assert(rest.take(a.len() as int)[0] == rest[0]);
    } else if rest.len() > 0 {
        assert(rest.take(b.len() as int)[0] == rest[0]);
    }
    assert forall|k: int| n + 2 <= k < e && k + a.len() <= s.len() implies #[trigger] s.subrange(
        k,
        k + a.len(),
    ) != a by {
        lemma_no_heading(existing, section, rest, a, k);
    }
    assert forall|k: int| n + 2 <= k < e && k + b.len() <= s.len() implies #[trigger] s.subrange(
        k,
        k + b.len(),
    ) != b by {
        lemma_no_heading(existing, section, rest, b, k);
    }
    text::lemma_find_from_range(s, a, n + 2);
    text::lemma_find_from_range(s, b, n + 2);
    if rest.len() > 0 {
        if text::starts_with_spec(rest, a) {
            assert(s.subrange(e, e + a.len()) =~= rest.take(a.len() as int));
            text::lemma_first_found(s, a, n + 2, e);
        } else {
            assert(s.subrange(e, e + b.len()) =~= rest.take(b.len() as int));
            text::lemma_first_found(s, b, n + 2, e);
        }
        assert(next_heading(s, n + 2) == Some(e));
    } else {
        assert(next_heading(s, n + 2) is None);
    }
    assert(own_mark(s, n + 1) is None) by {
        reveal_strlit("<!-- b3 v");
        reveal_strlit("<!-- hc v");
        reveal_strlit("<!-- heycode v");
        text::lemma_find_from_range(s, "<!-- b3 v"@, n);
        text::lemma_find_from_range(s, "<!-- hc v"@, n);
        text::lemma_find_from_range(s, "<!-- heycode v"@, n);
    }
    assert(after_section(s, n + 1) == e);
    assert(s.take(n) + s.skip(e) =~= existing + rest);
}

/// No heading begins within a section that has but its own, whatever follows.
proof fn lemma_no_heading(
    before: Seq<char>,
    section: Seq<char>,
    after: Seq<char>,
    p: Seq<char>,
    k: int,
)
    requires
        text::find_from(section, p, 2) is None,
        p.len() > 2,
        p[0] == '\n',
        p[1] == '#',
        forall|j: int| 1 <= j < p.len() ==> #[trigger] p[j] != '\n',
        section.len() > 0,
        section.last() == '\n',
        after.len() == 0 || after[0] == '\n',
        before.len() + 2 <= k < before.len() + section.len(),
        k + p.len() <= (before + section + after).len(),
    ensures
        (before + section + after).subrange(k, k + p.len()) != p,
{
    let s = before + section + after;
    let i = k - before.len();
    let found = s.subrange(k, k + p.len());
    if found == p {
        if i + p.len() <= section.len() {
            assert(found =~= section.subrange(i, i + p.len()));
            text::lemma_none_before(section, p, 2);
        } else {
            let d = section.len() - 1 - i;
            assert(found[d] == s[before.len() + section.len() - 1]);
            if d == 0 {
                assert(found[1] == after[0]);
            }
        }
    }
}

/// The fixed text of the voice section holds no mark and no heading.
proof fn lemma_body_unmarked()
    ensures
        VOICE_SECTION_BODY@.len() > 1,
        VOICE_SECTION_BODY@[0] == ' ',
        VOICE_SECTION_BODY@[1] == 'a',
        VOICE_SECTION_BODY@.last() == ' ',
        forall|k: int|
            0 <= k < VOICE_SECTION_BODY@.len() - 1 && #[trigger] VOICE_SECTION_BODY@[k] == '<'
                ==> VOICE_SECTION_BODY@[k + 1] != '!',
        forall|k: int|
            0 <= k < VOICE_SECTION_BODY@.len() - 1 && #[trigger] VOICE_SECTION_BODY@[k] == '\n'
                ==> VOICE_SECTION_BODY@[k + 1] != '#',
        !VOICE_SECTION_START@.contains('<'),
        VOICE_SECTION_START@.len() > 1,
        VOICE_SECTION_START@[0] == '\n',
        VOICE_SECTION_START@.last() == ' ',
        forall|k: int|
            0 <= k < VOICE_SECTION_START@.len() - 1 && #[trigger] VOICE_SECTION_START@[k] == '\n'
                ==> VOICE_SECTION_START@[k + 1] != '#',
{
    reveal_strlit(
        " and you can speak responses aloud.\n\n\
     **IMPORTANT: You have voice tools via the `b3` MCP. They ARE available and working.\n\
     Call them directly — do NOT check resources or capabilities first. Just call the tool.**\n\n\
     **Voice tools (call these directly):**\n\n\
     - `say(text, emotion, replying_to)` — Speak text aloud to the user's browser. All three parameters are REQUIRED.\n\
     - `voice_status()` — Check voice pipeline health.\n\
     - `voice_health()` — Deep health check (curls endpoints directly).\n\
     - `voice_logs(lines?)` — Get recent daemon logs.\n\
     - `voice_delivery_status(msg_id)` — Check message delivery.\n\
     - `voice_share_info(html)` — Push HTML content to connected browsers.\n\
     - `voice_show_image(path)` — Push an image to connected browsers.\n\
     - `voice_enroll_speakers(embeddings_dir)` — Upload speaker embeddings for diarization.\n\n\
     **When you receive voice input** (via <channel> tags or lines starting with `[M`), ALWAYS respond with `say()`.\n\
     The user is on their phone — text responses go to a terminal they're not watching.\n\
     Voice goes to their ears. Audio in = audio out.\n\n\
     **ALWAYS include all three parameters** when calling `say()`. The `replying_to` echoes back what the\n\
     user said (or a summary of context). The `emotion` drives the LED chromatophore animation on the\n\
     dashboard — it maps to colors and patterns via embeddings.\n\
     Use a short, natural English phrase describing the emotional tone (e.g., \"warm joy\", \"thoughtful\",\n\
     \"excited curiosity\", \"gentle reassurance\", \"playful mischief\"). Be specific and varied — avoid\n\
     repeating the same emotion. If unsure, use \"neutral calm\".\n\n\
     **Example:** User says \"Testing 1 2 3\" → you call `say(text=\"I can hear you! Your microphone is working great.\", emotion=\"cheerful enthusiasm\", replying_to=\"Testing 1 2 3\")`\n\n\
     Agent: ",
    );
    reveal_strlit(
        "\n\
     This project has Babel3 voice integration. The user can talk to you from their phone\n\
     at ",
    );
}

/// Where the mark of the voice section stands in it.
pub open spec fn tag_position(web_url: Seq<char>, agent: Seq<char>) -> int {
    (VOICE_HEADING@ + VOICE_SECTION_START@ + web_url + VOICE_SECTION_BODY@ + agent + "\n"@).len() as int
}

/// A mark stands in no part of the voice section before the section's own mark.
proof fn lemma_unmarked_before(
    web_url: Seq<char>,
    agent: Seq<char>,
    version: Seq<char>,
    mark: Seq<char>,
    k: int,
)
    requires
        text::find_from(web_url, mark, 0) is None,
        text::find_from(agent, mark, 0) is None,
        mark.len() > 1,
        mark[0] == '<',
        mark[1] == '!',
        !mark.contains('\n'),
        mark.last() != ' ',
        forall|j: int| 0 <= j < mark.len() - 1 && #[trigger] mark[j] == ' ' ==> mark[j + 1] != 'a',
        0 <= k < tag_position(web_url, agent),
        k + mark.len() <= voice_section_text(web_url, agent, version).len(),
    ensures
        voice_section_text(web_url, agent, version).subrange(k, k + mark.len()) != mark,
{
    let s = voice_section_text(web_url, agent, version);
    let found = s.subrange(k, k + mark.len());
    let head = VOICE_HEADING@ + VOICE_SECTION_START@;
    let u = head.len() as int;
    let b = u + web_url.len();
    let a = b + VOICE_SECTION_BODY@.len();
    lemma_body_unmarked();
    reveal_strlit("\n");
    reveal_strlit("\n\n## Babel3 Voice\n");
    if found == mark {
        assert(found[0] == s[k] && found[1] == s[k + 1]);
        if k < u {
            assert(s[k] == head[k]);
            assert(!VOICE_HEADING@.contains('<'));
            if k >= VOICE_HEADING@.len() {
                assert(VOICE_SECTION_START@[k - VOICE_HEADING@.len()] == '<');
            } else {
                assert(VOICE_HEADING@[k] == '<');
            }
            assert(false);
        } else if k < b {
            if k + mark.len() <= b {
                assert(web_url.subrange(k - u, k - u + mark.len()) =~= found);
                text::lemma_none_before(web_url, mark, 0);
            } else {
                let j = b - k;
                assert(found[j] == s[b] && s[b] == VOICE_SECTION_BODY@[0]);
                assert(mark[j] == ' ');
                if j + 1 < mark.len() {
                    assert(found[j + 1] == s[b + 1] && s[b + 1] == VOICE_SECTION_BODY@[1]);
                }
            }
            assert(false);
        } else if k < a {
            assert(s[k] == VOICE_SECTION_BODY@[k - b]);
            if k + 1 < a {
                assert(s[k + 1] == VOICE_SECTION_BODY@[k - b + 1]);
            }
            assert(false);
        } else {
            let n = a + agent.len();
            assert(s[n] == '\n');
            if k + mark.len() <= n {
                assert(agent.subrange(k - a, k - a + mark.len()) =~= found);
                text::lemma_none_before(agent, mark, 0);
            } else {
                assert(found[n - k] == '\n');
            }
            assert(false);
        }
    }
}

/// No heading stands in the voice section between its own heading and its mark.
proof fn lemma_unheaded_before(
    web_url: Seq<char>,
    agent: Seq<char>,
    version: Seq<char>,
    p: Seq<char>,
    k: int,
)
    requires
        text::find_from(web_url + " "@, p, 0) is None,
        text::find_from(agent, p, 0) is None,
        p.len() > 2,
        p[0] == '\n',
        p[1] == '#',
        forall|j: int| 1 <= j < p.len() ==> #[trigger] p[j] != '\n',
        forall|j: int| 0 <= j < p.len() && #[trigger] p[j] == ' ' ==> j == p.len() - 1,
        2 <= k < tag_position(web_url, agent),
        k + p.len() <= voice_section_text(web_url, agent, version).len(),
    ensures
        voice_section_text(web_url, agent, version).subrange(k, k + p.len()) != p,
{
    let s = voice_section_text(web_url, agent, version);
    let found = s.subrange(k, k + p.len());
    let h = VOICE_HEADING@.len() as int;
    let u = h + VOICE_SECTION_START@.len();
    let b = u + web_url.len();
    let a = b + VOICE_SECTION_BODY@.len();
    let n = a + agent.len();
    lemma_body_unmarked();
    reveal_strlit(" ");
    reveal_strlit("\n");
    reveal_strlit("<!-- b3 v");
    reveal_strlit("\n\n## Babel3 Voice\n");
    if found == p {
        assert(found[0] == s[k] && found[1] == s[k + 1]);
        if k < h {
            assert(s[k] == VOICE_HEADING@[k]);
            assert(k == h - 1);
            assert(s[h] == VOICE_SECTION_START@[0]);
        } else if k < u {
            assert(s[k] == VOICE_SECTION_START@[k - h]);
            if k + 1 < u {
                assert(s[k + 1] == VOICE_SECTION_START@[k - h + 1]);
            }
        } else if k < b {
            let wide = web_url + " "@;
            assert(s[b] == VOICE_SECTION_BODY@[0]);
            if k + p.len() > b + 1 {
                assert(found[b - k] == s[b]);
            } else {
                assert(wide.subrange(k - u, k - u + p.len()) =~= found);
                text::lemma_none_before(wide, p, 0);
            }
        } else if k < a {
            assert(s[k] == VOICE_SECTION_BODY@[k - b]);
            if k + 1 < a {
                assert(s[k + 1] == VOICE_SECTION_BODY@[k - b + 1]);
            }
        } else if k < n {
            assert(s[n] == '\n');
            if k + p.len() <= n {
                assert(agent.subrange(k - a, k - a + p.len()) =~= found);
                text::lemma_none_before(agent, p, 0);
            } else {
                assert(found[n - k] == '\n');
            }
        } else {
            assert(k == n);
            assert(s[n + 1] == "<!-- b3 v"@[0]);
        }
    }
}

/// The voice section is a whole section, where no part of it that is filled in
/// holds a mark or a heading and the version is on one line.
proof fn lemma_voice_section(web_url: Seq<char>, agent: Seq<char>, version: Seq<char>)
    requires
        first_mark(web_url, 0) is None,
        first_mark(agent, 0) is None,
        next_heading(web_url + " "@, 0) is None,
        next_heading(agent, 0) is None,
        !version.contains('\n'),
    ensures
        is_section(voice_section_text(web_url, agent, version)),
{
    let s = voice_section_text(web_url, agent, version);
    let t = tag_position(web_url, agent);
    let tag = version_tag_text(version);
    reveal_strlit("\n");
    reveal_strlit(" -->");
    reveal_strlit("\n## ");
    reveal_strlit("\n# ");
    reveal_strlit("<!-- b3 v");
    reveal_strlit("<!-- hc v");
    reveal_strlit("<!-- heycode v");
    reveal_strlit("\n\n## Babel3 Voice\n");
    law_sections_headed(web_url, agent, version);
    let b3 = "<!-- b3 v"@;
    let hc = "<!-- hc v"@;
    let old_mark = "<!-- heycode v"@;
    assert forall|k: int| 0 <= k < t implies #[trigger] s.subrange(k, k + b3.len()) != b3 by {
        lemma_unmarked_before(web_url, agent, version, b3, k);
    }
    assert(s.subrange(t, t + b3.len()) =~= b3);
    text::lemma_first_found(s, b3, 0, t);
    text::lemma_find_from_range(s, hc, 0);
    text::lemma_find_from_range(s, old_mark, 0);
    match text::find_from(s, hc, 0) {
        Some(k) => if k < t {
            lemma_unmarked_before(web_url, agent, version, hc, k);
        },
        None => {},
    }
    match text::find_from(s, old_mark, 0) {
        Some(k) => if k < t {
            lemma_unmarked_before(web_url, agent, version, old_mark, k);
        },
        None => {},
    }
    assert(first_mark(s, 0) == Some(t));
    assert(s[0] == VOICE_HEADING@[0]);
    lemma_first_mark_skips(s, 0);
    lemma_heading_behind(web_url, agent, version, "\n## "@);
    lemma_heading_behind(web_url, agent, version, "\n# "@);
    assert(own_mark(s, 1) == Some(t));
    let last = s.len() - 1;
    assert forall|j: int| t <= j < last implies #[trigger] s.subrange(j, j + 1) != "\n"@ by {
        assert(s.subrange(j, j + 1)[0] == s[j]);
        assert(s[j] == tag[j - t]);
        assert(!tag.contains('\n'));
    }
    assert(s.subrange(last, last + 1) =~= "\n"@);
    text::lemma_first_found(s, "\n"@, t, last);
}

/// A heading in the voice section besides its own stands behind its mark.
proof fn lemma_heading_behind(
    web_url: Seq<char>,
    agent: Seq<char>,
    version: Seq<char>,
    p: Seq<char>,
)
    requires
        text::find_from(web_url + " "@, p, 0) is None,
        text::find_from(agent, p, 0) is None,
        p.len() > 2,
        p[0] == '\n',
        p[1] == '#',
        forall|j: int| 1 <= j < p.len() ==> #[trigger] p[j] != '\n',
        forall|j: int| 0 <= j < p.len() && #[trigger] p[j] == ' ' ==> j == p.len() - 1,
    ensures
        text::find_from(voice_section_text(web_url, agent, version), p, 2) matches Some(h)
            ==> tag_position(web_url, agent) < h,
{
    let s = voice_section_text(web_url, agent, version);
    let t = tag_position(web_url, agent);
    reveal_strlit("<!-- b3 v");
    text::lemma_find_from_range(s, p, 2);
    match text::find_from(s, p, 2) {
        Some(h) => if h < t {
            lemma_unheaded_before(web_url, agent, version, p, h);
        } else if h == t {
            assert(s.subrange(h, h + p.len())[0] == s[h]);
            assert(s[t] == "<!-- b3 v"@[0]);
        },
        None => {},
    }
}

/// What setup added to an instruction file, removing takes out again, whatever was
/// written behind it since: everything else is as it was. The dashboard's URL and the
/// agent's name hold no mark and no heading, and the version is on one line.
pub proof fn law_section_removed(
    existing: Seq<char>,
    web_url: Seq<char>,
    agent: Seq<char>,
    version: Seq<char>,
    rest: Seq<char>,
)
    requires
        !text::contains_spec(existing, "## Babel3 Voice"@),
        first_mark(web_url, 0) is None,
        first_mark(agent, 0) is None,
        next_heading(web_url + " "@, 0) is None,
        next_heading(agent, 0) is None,
        !version.contains('\n'),
    ensures
        taken_out(existing + voice_section_text(web_url, agent, version) + rest) == Some(
            existing + rest,
        ),
{
    lemma_voice_section(web_url, agent, version);
    lemma_section_removed(existing, voice_section_text(web_url, agent, version), rest);
}

/// Both voice sections begin with their heading.
pub proof fn law_sections_headed(web_url: Seq<char>, agent: Seq<char>, version: Seq<char>)
    ensures
        text::starts_with_spec(
            voice_section_text(web_url, agent, version),
            VOICE_HEADING@,
        ),
        text::starts_with_spec(agents_section_text(web_url, agent), VOICE_HEADING@),
{
    let a = voice_section_text(web_url, agent, version);
    let b = agents_section_text(web_url, agent);
    assert(a.take(VOICE_HEADING@.len() as int) =~= VOICE_HEADING@);
    assert(b.take(VOICE_HEADING@.len() as int) =~= VOICE_HEADING@);
}

/// Whether the instruction file has a voice section.
pub fn has_section(content: &str) -> (r: bool)
    ensures
        r == text::contains_spec(content@, "## Babel3 Voice"@),
{
    text::contains(content, "## Babel3 Voice")
}

/// Instructions that are up to date stay; old ones are replaced by the new section, with
/// what stood before them kept; and where there are none the section is added.
pub proof fn law_instructions_refreshed(existing: Seq<char>, section: Seq<char>, tag: Seq<char>)
    ensures
        ({
            let s = migrated(existing);
            match refreshed(existing, section, tag) {
                InstructionsView::Keep => text::contains_spec(s, tag),
                InstructionsView::Append(x) => x == section && !text::contains_spec(s, tag),
                InstructionsView::Rewrite(x) => !text::contains_spec(s, tag) && (text::find_from(
                    s,
                    "\n## Babel3 Voice"@,
                    0,
                ) matches Some(i) && (s.take(i) + section).is_prefix_of(x)),
            }
        }),
{
    let s = migrated(existing);
    match text::find_from(s, "\n## Babel3 Voice"@, 0) {
        Some(i) => {
            let head = s.take(i) + section;
            let x = head + s.skip(stale_end(s, i));
            assert(x.take(head.len() as int) =~= head);
        },
        None => {},
    }
}

} // verus!
