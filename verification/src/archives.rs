//! What the daemon keeps for browsers that come later.

use vstd::prelude::*;

use crate::config;
use crate::paths;
use crate::text;

verus! {

/// What is kept after one more entry: the oldest go so that there are at most
/// `max`.
pub open spec fn kept<T>(s: Seq<T>, x: T, max: int) -> Seq<T> {
    if s.len() >= max {
        s.skip(s.len() - max + 1).push(x)
    } else {
        s.push(x)
    }
}

/// There are never more than `max` entries, the newest is the last, and those
/// before it are the newest of the earlier ones.
pub proof fn law_kept<T>(s: Seq<T>, x: T, max: int)
    requires
        max > 0,
    ensures
        kept(s, x, max).len() <= max,
        kept(s, x, max).last() == x,
        forall|i: int|
            0 <= i < kept(s, x, max).len() - 1 ==> #[trigger] kept(s, x, max)[i] == s[i + s.len() + 1
                - kept(s, x, max).len()],
{
}

// ── Spoken messages ─────────────────────────────────────────────────

/// A spoken message that is kept. How long it lasts, in seconds, is kept as its JSON text.
#[derive(Debug)]
pub struct TtsEntry {
    pub msg_id: String,
    pub text: String,
    pub original_text: String,
    pub voice: String,
    pub emotion: String,
    pub replying_to: String,
    pub timestamp: u64,
    pub duration_sec: String,
    pub size_bytes: u64,
}

/// The mathematical value of a [`TtsEntry`].
#[verifier::ext_equal]
pub struct TtsEntryView {
    pub msg_id: Seq<char>,
    pub text: Seq<char>,
    pub original_text: Seq<char>,
    pub voice: Seq<char>,
    pub emotion: Seq<char>,
    pub replying_to: Seq<char>,
    pub timestamp: u64,
    pub duration_sec: Seq<char>,
    pub size_bytes: u64,
}

impl View for TtsEntry {
    type V = TtsEntryView;

    open spec fn view(&self) -> TtsEntryView {
        TtsEntryView {
            msg_id: self.msg_id@,
            text: self.text@,
            original_text: self.original_text@,
            voice: self.voice@,
            emotion: self.emotion@,
            replying_to: self.replying_to@,
            timestamp: self.timestamp,
            duration_sec: self.duration_sec@,
            size_bytes: self.size_bytes,
        }
    }
}

impl TtsEntry {
    /// A copy.
    pub fn copy(&self) -> (r: TtsEntry)
        ensures
            r@ == self@,
    {
        TtsEntry {
            msg_id: self.msg_id.clone(),
            text: self.text.clone(),
            original_text: self.original_text.clone(),
            voice: self.voice.clone(),
            emotion: self.emotion.clone(),
            replying_to: self.replying_to.clone(),
            timestamp: self.timestamp,
            duration_sec: self.duration_sec.clone(),
            size_bytes: self.size_bytes,
        }
    }
}

/// The views of entries.
pub open spec fn tts_views(v: Seq<TtsEntry>) -> Seq<TtsEntryView> {
    v.map_values(|e: TtsEntry| e@)
}

/// How many spoken messages are kept.
pub const MAX_TTS_ENTRIES: usize = 50;

/// The spoken messages that are kept, the oldest first.
#[derive(Debug)]
pub struct TtsArchive {
    entries: Vec<TtsEntry>,
}

impl View for TtsArchive {
    type V = Seq<TtsEntryView>;

    closed spec fn view(&self) -> Seq<TtsEntryView> {
        tts_views(self.entries@)
    }
}

/// Whether a message is among the entries.
pub open spec fn holds(s: Seq<TtsEntryView>, msg_id: Seq<char>) -> bool {
    exists|i: int| 0 <= i < s.len() && (#[trigger] s[i]).msg_id == msg_id
}

/// The file of a message.
pub open spec fn wav_name(msg_id: Seq<char>) -> Seq<char> {
    msg_id + ".wav"@
}

impl TtsArchive {
    /// The messages that were kept before.
    pub fn open(entries: Vec<TtsEntry>) -> (r: Self)
        ensures
            r@ == tts_views(entries@),
    {
        TtsArchive { entries }
    }

    /// Keeps a message. The result holds the files of those that are no longer kept.
    pub fn store(&mut self, entry: TtsEntry) -> (r: Vec<String>)
        ensures
            final(self)@ == kept(old(self)@, entry@, MAX_TTS_ENTRIES as int),
            r@.len() == old(self)@.len() + 1 - final(self)@.len(),
            forall|i: int|
                0 <= i < r@.len() ==> (#[trigger] r@[i])@ == wav_name(old(self)@[i].msg_id),
    {
        let ghost before = tts_views(self.entries@);
        let mut gone: Vec<String> = Vec::new();
        while self.entries.len() >= MAX_TTS_ENTRIES
            invariant
                gone@.len() <= before.len(),
                gone@.len() == 0 || before.len() - gone@.len() >= MAX_TTS_ENTRIES - 1,
                tts_views(self.entries@) == before.skip(gone@.len() as int),
                forall|i: int|
                    0 <= i < gone@.len() ==> (#[trigger] gone@[i])@ == wav_name(before[i].msg_id),
            decreases self.entries.len(),
        {
            let ghost now = tts_views(self.entries@);
            let ghost n = gone@.len() as int;
            let old_entry = self.entries.remove(0);
            assert(old_entry@ == now[0]);
            gone.push(text::cat2(old_entry.msg_id.as_str(), ".wav"));
            assert(tts_views(self.entries@) =~= now.skip(1));
            assert(now.skip(1) =~= before.skip(n + 1));
        }
        let ghost now = tts_views(self.entries@);
        self.entries.push(entry);
        assert(tts_views(self.entries@) =~= now.push(entry@));
        assert(before.skip(0) =~= before);
        gone
    }

    /// The messages, the newest first.
    pub fn list(&self) -> (r: Vec<TtsEntry>)
        ensures
            tts_views(r@) == self@.reverse(),
    {
        let ghost all = tts_views(self.entries@);
        let mut out: Vec<TtsEntry> = Vec::new();
        let mut i: usize = self.entries.len();
        while i > 0
            invariant
                i <= self.entries@.len(),
                all == tts_views(self.entries@),
                out@.len() == all.len() - i,
                forall|k: int| 0 <= k < out@.len() ==> (#[trigger] out@[k])@ == all[all.len() - 1 - k],
            decreases i,
        {
            assert(all[i - 1] == self.entries@[i - 1]@);
            out.push(self.entries[i - 1].copy());
            i = i - 1;
        }
        assert(tts_views(out@) =~= all.reverse());
        out
    }

    /// Whether a message is kept.
    pub fn contains(&self, msg_id: &str) -> (r: bool)
        ensures
            r == holds(self@, msg_id@),
    {
        let ghost all = tts_views(self.entries@);
        let mut i: usize = 0;
        while i < self.entries.len()
            invariant
                i <= self.entries@.len(),
                all == tts_views(self.entries@),
                forall|k: int| 0 <= k < i ==> (#[trigger] all[k]).msg_id != msg_id@,
            decreases self.entries.len() - i,
        {
            assert(all[i as int] == self.entries@[i as int]@);
            if text::same(self.entries[i].msg_id.as_str(), msg_id) {
                assert(all[i as int].msg_id == msg_id@);
                return true;
            }
            i = i + 1;
        }
        false
    }

    /// The path at which the audio of a message is kept, where it is.
    pub fn audio_path(&self, dir: &str, msg_id: &str) -> (r: Option<String>)
        ensures
            config::opt_string(r) == (if holds(self@, msg_id@) {
                Some(paths::joined(dir@, wav_name(msg_id@)))
            } else {
                None
            }),
    {
        if self.contains(msg_id) {
            let file = text::cat2(msg_id, ".wav");
            Some(paths::join(dir, file.as_str()))
        } else {
            None
        }
    }
}

/// A message is kept right after it was stored.
pub proof fn law_stored_held(s: Seq<TtsEntryView>, x: TtsEntryView)
    ensures
        holds(kept(s, x, MAX_TTS_ENTRIES as int), x.msg_id),
{
    let k = kept(s, x, MAX_TTS_ENTRIES as int);
    assert(k[k.len() - 1].msg_id == x.msg_id);
}

// ── Shared content ──────────────────────────────────────────────────

/// Content that the agent shared with its browsers.
#[derive(Debug)]
pub struct InfoEntry {
    /// When it was shared, in milliseconds.
    pub ts: u64,
    pub title: String,
    pub html: String,
}

/// The mathematical value of an [`InfoEntry`].
#[verifier::ext_equal]
pub struct InfoEntryView {
    pub ts: u64,
    pub title: Seq<char>,
    pub html: Seq<char>,
}

impl View for InfoEntry {
    type V = InfoEntryView;

    open spec fn view(&self) -> InfoEntryView {
        InfoEntryView {
            ts: self.ts,
            title: self.title@,
            html: self.html@,
        }
    }
}

/// What is listed of an [`InfoEntry`].
#[derive(Debug)]
pub struct InfoEntrySummary {
    pub ts: u64,
    pub title: String,
    pub index: usize,
}

/// The mathematical value of an [`InfoEntrySummary`].
#[verifier::ext_equal]
pub struct InfoEntrySummaryView {
    pub ts: u64,
    pub title: Seq<char>,
    pub index: usize,
}

impl View for InfoEntrySummary {
    type V = InfoEntrySummaryView;

    open spec fn view(&self) -> InfoEntrySummaryView {
        InfoEntrySummaryView {
            ts: self.ts,
            title: self.title@,
            index: self.index,
        }
    }
}

/// The views of entries.
pub open spec fn info_entry_views(v: Seq<InfoEntry>) -> Seq<InfoEntryView> {
    v.map_values(|e: InfoEntry| e@)
}

/// How much shared content is kept.
pub const MAX_INFO_ENTRIES: usize = 1000;

/// The shared content that is kept, the oldest first.
#[derive(Debug)]
pub struct InfoArchive {
    entries: Vec<InfoEntry>,
}

impl View for InfoArchive {
    type V = Seq<InfoEntryView>;

    closed spec fn view(&self) -> Seq<InfoEntryView> {
        info_entry_views(self.entries@)
    }
}

impl InfoArchive {
    /// The content that was kept before.
    pub fn open(entries: Vec<InfoEntry>) -> (r: Self)
        ensures
            r@ == info_entry_views(entries@),
    {
        InfoArchive { entries }
    }

    /// Keeps content.
    pub fn store(&mut self, ts: u64, title: String, html: String)
        ensures
            final(self)@ == kept(
                old(self)@,
                (InfoEntryView { ts, title: title@, html: html@ }),
                MAX_INFO_ENTRIES as int,
            ),
    {
        let ghost before = info_entry_views(self.entries@);
        let ghost mut n: int = 0;
        assert(before.skip(0) =~= before);
        while self.entries.len() >= MAX_INFO_ENTRIES
            invariant
                0 <= n <= before.len(),
                n == 0 || before.len() - n >= MAX_INFO_ENTRIES - 1,
                info_entry_views(self.entries@) == before.skip(n),
            decreases self.entries.len(),
        {
            let ghost now = info_entry_views(self.entries@);
            let _ = self.entries.remove(0);
            assert(info_entry_views(self.entries@) =~= now.skip(1));
            assert(now.skip(1) =~= before.skip(n + 1));
            proof {
                n = n + 1;
            }
        }
        let ghost now = info_entry_views(self.entries@);
        self.entries.push(InfoEntry { ts, title, html });
        assert(info_entry_views(self.entries@) =~= now.push(
            (InfoEntryView { ts, title: title@, html: html@ }),
        ));
    }

    /// What is kept, the newest first, each with its number counted from the oldest.
    pub fn list(&self) -> (r: Vec<InfoEntrySummary>)
        ensures
            r@.len() == self@.len(),
            forall|i: int|
                #![trigger r@[i]]
                0 <= i < r@.len() ==> r@[i]@ == (InfoEntrySummaryView {
                    ts: self@[r@.len() - 1 - i].ts,
                    title: self@[r@.len() - 1 - i].title,
                    index: (r@.len() - 1 - i) as usize,
                }),
    {
        let ghost all = info_entry_views(self.entries@);
        let mut out: Vec<InfoEntrySummary> = Vec::new();
        let mut i: usize = self.entries.len();
        while i > 0
            invariant
                i <= self.entries@.len(),
                all == info_entry_views(self.entries@),
                out@.len() == all.len() - i,
                forall|k: int|
                    #![trigger out@[k]]
                    0 <= k < out@.len() ==> out@[k]@ == (InfoEntrySummaryView {
                        ts: all[all.len() - 1 - k].ts,
                        title: all[all.len() - 1 - k].title,
                        index: (all.len() - 1 - k) as usize,
                    }),
            decreases i,
        {
            i = i - 1;
            assert(all[i as int] == self.entries@[i as int]@);
            out.push(
                InfoEntrySummary {
                    ts: self.entries[i].ts,
                    title: self.entries[i].title.clone(),
                    index: i,
                },
            );
        }
        out
    }

    /// The content with the given number, counted from the oldest.
    pub fn get(&self, idx: usize) -> (r: Option<InfoEntry>)
        ensures
            match r {
                Some(e) => idx < self@.len() && e@ == self@[idx as int],
                None => idx >= self@.len(),
            },
    {
        if idx < self.entries.len() {
            let e = &self.entries[idx];
            assert(info_entry_views(self.entries@)[idx as int] == e@);
            Some(InfoEntry { ts: e.ts, title: e.title.clone(), html: e.html.clone() })
        } else {
            None
        }
    }

    /// The newest content.
    pub fn latest(&self) -> (r: Option<InfoEntry>)
        ensures
            match r {
                Some(e) => self@.len() > 0 && e@ == self@.last(),
                None => self@.len() == 0,
            },
    {
        let n: usize = self.entries.len();
        if n == 0 {
            None
        } else {
            self.get(n - 1)
        }
    }

    /// How much is kept.
    pub fn len(&self) -> (r: usize)
        ensures
            r == self@.len(),
    {
        self.entries.len()
    }
}

// ── Titles ──────────────────────────────────────────────────────────

/// The text between the first opening and the next closing of a tag, without the tags
/// in it and without white space around it.
pub open spec fn tagged(html: Seq<char>, open: Seq<char>, close: Seq<char>) -> Option<Seq<char>> {
    match text::find_from(html, open, 0) {
        None => None,
        Some(start) => {
            let end_of_tag = text::scan(html, '>', start);
            if end_of_tag >= html.len() {
                None
            } else {
                match text::find_from(html, close, end_of_tag + 1) {
                    None => None,
                    Some(end) => Some(
                        text::trim_spec(
                            untagged(html.subrange(end_of_tag + 1, end), 0, false),
                        ),
                    ),
                }
            }
        },
    }
}

/// Text without its tags.
pub open spec fn untagged(html: Seq<char>, i: int, inside: bool) -> Seq<char>
    decreases html.len() - i,
{
    if i >= html.len() {
        Seq::empty()
    } else if html[i] == '<' {
        untagged(html, i + 1, true)
    } else if html[i] == '>' {
        untagged(html, i + 1, false)
    } else if inside {
        untagged(html, i + 1, true)
    } else {
        seq![html[i]] + untagged(html, i + 1, false)
    }
}

/// The first sixty characters.
pub open spec fn shortened(s: Seq<char>) -> Seq<char> {
    if s.len() >= 60 {
        s.take(60)
    } else {
        s
    }
}

/// The title that a tag gives, unless it is empty.
pub open spec fn tag_title(html: Seq<char>, open: Seq<char>, close: Seq<char>) -> Option<Seq<char>> {
    match tagged(html, open, close) {
        Some(t) => if t.len() > 0 {
            Some(shortened(t))
        } else {
            None
        },
        None => None,
    }
}

/// The title of content: that of its first heading or its first bold text, or how it
/// begins.
pub open spec fn title_of(html: Seq<char>) -> Seq<char> {
    match tag_title(html, "<h1"@, "</h1>"@) {
        Some(t) => t,
        None => match tag_title(html, "<h2"@, "</h2>"@) {
            Some(t) => t,
            None => match tag_title(html, "<h3"@, "</h3>"@) {
                Some(t) => t,
                None => match tag_title(html, "<h4"@, "</h4>"@) {
                    Some(t) => t,
                    None => match tag_title(html, "<strong"@, "</strong>"@) {
                        Some(t) => t,
                        None => match tag_title(html, "<b"@, "</b>"@) {
                            Some(t) => t,
                            None => {
                                let plain = text::trim_spec(untagged(html, 0, false));
                                if plain.len() == 0 {
                                    "Info"@
                                } else {
                                    shortened(plain)
                                }
                            },
                        },
                    },
                },
            },
        },
    }
}

/// Text without its tags.
fn strip_tags(html: &str) -> (r: String)
    ensures
        r@ == untagged(html@, 0, false),
{
    let x = text::chars_of(html);
    let mut out: String = String::new();
    let mut inside: bool = false;
    let mut i: usize = 0;
    assert(out@ + untagged(html@, 0, false) =~= untagged(html@, 0, false));
    while i < x.len()
        invariant
            i <= x@.len(),
            x@ == html@,
            out@ + untagged(html@, i as int, inside) == untagged(html@, 0, false),
        decreases x.len() - i,
    {
        let c: char = x[i];
        let ghost before = out@;
        if c == '<' {
            inside = true;
        } else if c == '>' {
            inside = false;
        } else if !inside {
            out.push(c);
            assert(out@ + untagged(html@, i + 1, false) =~= before + (seq![c] + untagged(
                html@,
                i + 1,
                false,
            )));
        }
        i = i + 1;
    }
    assert(out@ + Seq::empty() =~= out@);
    out
}

/// The title that a tag gives, unless it is empty.
fn find_title(html: &str, open: &str, close: &str) -> (r: Option<String>)
    requires
        open@.len() > 0,
    ensures
        config::opt_string(r) == tag_title(html@, open@, close@),
{
    let start: usize = match text::find(html, open) {
        Some(i) => i,
        None => {
            return None;
        },
    };
    let x = text::chars_of(html);
    let mut i: usize = start;
    while i < x.len() && x[i] != '>'
        invariant
            i <= x@.len(),
            x@ == html@,
            text::scan(html@, '>', start as int) == text::scan(html@, '>', i as int),
        decreases x.len() - i,
    {
        i = i + 1;
    }
    if i >= x.len() {
        return None;
    }
    proof {
        text::lemma_find_from_range(html@, close@, i + 1);
    }
    let end: usize = match text::find_at(html, close, i + 1) {
        Some(e) => e,
        None => {
            return None;
        },
    };
    let head = text::take(html, end);
    let inner = text::skip(head.as_str(), i + 1);
    assert(inner@ =~= html@.subrange(i + 1, end as int));
    let out = strip_tags(inner.as_str());
    let clean = text::trim(out.as_str());
    if clean.as_str().is_empty() {
        None
    } else {
        Some(text::take(clean.as_str(), 60))
    }
}

/// The title of content: that of its first heading or its first bold text, or how it
/// begins.
pub fn extract_info_title(html: &str) -> (r: String)
    ensures
        r@ == title_of(html@),
{
    proof {
        reveal_strlit("<h1");
        reveal_strlit("<h2");
        reveal_strlit("<h3");
        reveal_strlit("<h4");
        reveal_strlit("<strong");
        reveal_strlit("<b");
    }
    if let Some(t) = find_title(html, "<h1", "</h1>") {
        return t;
    }
    if let Some(t) = find_title(html, "<h2", "</h2>") {
        return t;
    }
    if let Some(t) = find_title(html, "<h3", "</h3>") {
        return t;
    }
    if let Some(t) = find_title(html, "<h4", "</h4>") {
        return t;
    }
    if let Some(t) = find_title(html, "<strong", "</strong>") {
        return t;
    }
    if let Some(t) = find_title(html, "<b", "</b>") {
        return t;
    }
    let stripped = strip_tags(html);
    let plain = text::trim(stripped.as_str());
    if plain.as_str().is_empty() {
        "Info".to_owned()
    } else {
        text::take(plain.as_str(), 60)
    }
}

// ── Laws ────────────────────────────────────────────────────────────

/// A text without tags is its own, and a tag is left out of it.
pub proof fn law_tags_left_out(s: Seq<char>, i: int, inside: bool)
    requires
        0 <= i <= s.len(),
    ensures
        !inside && (forall|k: int| i <= k < s.len() ==> #[trigger] s[k] != '<' && s[k] != '>')
            ==> untagged(s, i, inside) == s.skip(i),
        inside && (forall|k: int| i <= k < s.len() ==> #[trigger] s[k] != '<' && s[k] != '>')
            ==> untagged(s, i, inside).len() == 0,
        forall|k: int|
            0 <= k < untagged(s, i, inside).len() ==> #[trigger] untagged(s, i, inside)[k] != '<'
                && untagged(s, i, inside)[k] != '>',
    decreases s.len() - i,
{
    if i < s.len() {
        law_tags_left_out(s, i + 1, true);
        law_tags_left_out(s, i + 1, false);
        assert(seq![s[i]] + s.skip(i + 1) =~= s.skip(i));
        let rest = untagged(s, i + 1, false);
        if s[i] != '<' && s[i] != '>' && !inside {
            assert forall|k: int| 0 <= k < untagged(s, i, inside).len() implies #[trigger] untagged(
                s,
                i,
                inside,
            )[k] != '<' && untagged(s, i, inside)[k] != '>' by {
                assert(k > 0 ==> untagged(s, i, inside)[k] == rest[k - 1]);
            }
        } else {
            let b = s[i] == '<' || (s[i] != '>' && inside);
            assert(untagged(s, i, inside) == untagged(s, i + 1, b));
            assert forall|k: int| 0 <= k < untagged(s, i, inside).len() implies #[trigger] untagged(
                s,
                i,
                inside,
            )[k] != '<' && untagged(s, i, inside)[k] != '>' by {
                assert(untagged(s, i + 1, b)[k] == untagged(s, i, inside)[k]);
            }
        }
    } else {
        assert(untagged(s, i, inside) =~= s.skip(i));
    }
}

/// What is shown of a title is its beginning, sixty characters at most.
pub proof fn law_title_shortened(s: Seq<char>)
    ensures
        shortened(s).len() <= 60,
        shortened(s) == s.take(shortened(s).len() as int),
        s.len() <= 60 ==> shortened(s) == s,
{
    assert(s.take(s.len() as int) =~= s);
}

/// The first heading is the title.
pub proof fn law_heading_is_title(words: Seq<char>, rest: Seq<char>)
    requires
        words.len() > 0,
        words.len() <= 60,
        forall|k: int| 0 <= k < words.len() ==> #[trigger] words[k] != '<' && words[k] != '>',
        !text::is_space(words[0]),
        !text::is_space(words.last()),
    ensures
        title_of("<h1>"@ + words + "</h1>"@ + rest) == words,
{
    let html = "<h1>"@ + words + "</h1>"@ + rest;
    let open = "<h1"@;
    let close = "</h1>"@;
    reveal_strlit("<h1>");
    reveal_strlit("<h1");
    reveal_strlit("</h1>");
    assert(html.subrange(0, 3) =~= open);
    assert(text::find_from(html, open, 0) == Some(0int));
    assert(html[0] == '<' && html[1] == 'h' && html[2] == '1' && html[3] == '>');
    reveal_with_fuel(text::scan, 5);
    assert(text::scan(html, '>', 0) == 3);
    let e = 4 + words.len() as int;
    assert(html.subrange(e, e + 5) =~= close);
    lemma_close_found(html, close, words, 4);
    assert(html.subrange(4, e) =~= words);
    law_tags_left_out(words, 0, false);
    assert(words.skip(0) =~= words);
    text::law_trim(' ', words);
    law_title_shortened(words);
}

proof fn lemma_close_found(html: Seq<char>, close: Seq<char>, words: Seq<char>, i: int)
    requires
        close.len() == 5,
        close[0] == '<',
        4 <= i <= 4 + words.len(),
        html.len() >= 9 + words.len(),
        forall|k: int| 0 <= k < words.len() ==> html[k + 4] == #[trigger] words[k],
        forall|k: int| 0 <= k < words.len() ==> #[trigger] words[k] != '<',
        html.subrange(4 + words.len() as int, 9 + words.len() as int) == close,
    ensures
        text::find_from(html, close, i) == Some(4 + words.len() as int),
    decreases 4 + words.len() - i,
{
    if i < 4 + words.len() {
        assert(html.subrange(i, i + 5)[0] == html[i]);
        assert(html[i - 4 + 4] == words[i - 4]);
        lemma_close_found(html, close, words, i + 1);
    }
}

} // verus!
