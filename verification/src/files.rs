//! Files that a browser looks at, changes and sends.

use vstd::prelude::*;

use crate::bytes;
use crate::config;
use crate::crypto;
use crate::json;
use crate::json::{Json, JsonView};
use crate::paths;
use crate::text;

verus! {

/// An answer to a request: its status and its JSON body.
#[derive(Debug)]
pub struct Reply {
    pub status: u16,
    pub body: Json,
}

/// The mathematical value of a [`Reply`].
#[verifier::ext_equal]
pub struct ReplyView {
    pub status: u16,
    pub body: JsonView,
}

impl View for Reply {
    type V = ReplyView;

    open spec fn view(&self) -> ReplyView {
        ReplyView {
            status: self.status,
            body: self.body@,
        }
    }
}

impl ReplyView {
    /// An answer that says what went wrong.
    pub open spec fn error(status: u16, message: Seq<char>) -> ReplyView {
        ReplyView { status, body: JsonView::object().put_text("error"@, message) }
    }
}

impl Reply {
    /// An answer that says what went wrong.
    pub fn error(status: u16, message: &str) -> (r: Reply)
        ensures
            r@ == ReplyView::error(status, message@),
    {
        Reply { status, body: Json::object().put_text("error", message) }
    }
}

// ── Paths ───────────────────────────────────────────────────────────

/// The path that a browser means: absolute, or seen from the home directory.
pub open spec fn user_path(home: Seq<char>, raw: Seq<char>) -> Seq<char> {
    if text::starts_with_spec(raw, "/"@) {
        raw
    } else if text::starts_with_spec(raw, "~/"@) {
        paths::joined(home, raw.skip(2))
    } else {
        paths::joined(home, raw)
    }
}

/// The path that a browser means.
pub fn resolve(home: &str, raw: &str) -> (r: String)
    ensures
        r@ == user_path(home@, raw@),
{
    if text::starts_with(raw, "/") {
        raw.to_owned()
    } else if text::starts_with(raw, "~/") {
        proof {
            reveal_strlit("~/");
        }
        let rest = text::skip(raw, 2);
        paths::join(home, rest.as_str())
    } else {
        paths::join(home, raw)
    }
}

/// The directory that a browser means; the home directory where it names none.
pub open spec fn user_dir(home: Seq<char>, raw: Option<Seq<char>>) -> Seq<char> {
    match raw {
        None => home,
        Some(p) => if p == "."@ || p == "~"@ || p.len() == 0 {
            home
        } else {
            user_path(home, p)
        },
    }
}

/// The directory that a browser means; the home directory where it names none.
pub fn resolve_dir(home: &str, raw: Option<&str>) -> (r: String)
    ensures
        r@ == user_dir(home@, config::opt(raw)),
{
    match raw {
        None => home.to_owned(),
        Some(p) => if text::same(p, ".") || text::same(p, "~") || p.is_empty() {
            home.to_owned()
        } else {
            resolve(home, p)
        },
    }
}

/// Whether a name is that of a file in the same directory.
pub open spec fn simple_name(n: Seq<char>) -> bool {
    !text::contains_spec(n, "/"@) && !text::contains_spec(n, ".."@)
}

/// Text that holds a character holds the text of that character alone.
proof fn lemma_contains_char(s: Seq<char>, p: Seq<char>, c: char, i: int)
    requires
        p == seq![c],
        0 <= i,
    ensures
        text::find_from(s, p, i) is None ==> forall|k: int| i <= k < s.len() ==> #[trigger] s[k] != c,
    decreases s.len() + 1 - i,
{
    if i + 1 <= s.len() {
        if s.subrange(i, i + 1) != p {
            lemma_contains_char(s, p, c, i + 1);
            assert(s.subrange(i, i + 1) =~= seq![s[i]]);
        }
    }
}

/// A file under a simple name lies in the directory itself: what follows the last
/// `/` of its path is the name.
pub proof fn law_simple_name_stays(dir: Seq<char>, n: Seq<char>)
    requires
        simple_name(n),
        dir.len() > 0,
    ensures
        text::after_last_spec(paths::joined(dir, n), '/') == n,
        text::starts_with_spec(paths::joined(dir, n), dir),
{
    reveal_strlit("/");
    assert("/"@ =~= seq!['/']);
    lemma_contains_char(n, "/"@, '/', 0);
    let j = paths::joined(dir, n);
    let d = j.len() - n.len();
    assert(j[d - 1] == '/');
    lemma_rscan(j, '/', j.len() as int, d);
    assert(j.skip(d) =~= n);
    assert(j.take(dir.len() as int) =~= dir);
}

/// The last `c` before which none stands after `d`.
proof fn lemma_rscan(s: Seq<char>, c: char, i: int, d: int)
    requires
        0 < d <= i <= s.len(),
        s[d - 1] == c,
        forall|k: int| d <= k < i ==> #[trigger] s[k] != c,
    ensures
        text::rscan(s, c, i) == d,
    decreases i,
{
    if i > d {
        assert(s[i - 1] != c);
        lemma_rscan(s, c, i - 1, d);
    }
}

// ── Directories ─────────────────────────────────────────────────────

/// An entry of a directory.
#[derive(Debug)]
pub struct FileInfo {
    pub name: String,
    pub is_dir: bool,
    pub size: u64,
    /// When it was changed last, in seconds.
    pub modified: u64,
}

/// The mathematical value of a [`FileInfo`].
#[verifier::ext_equal]
pub struct FileInfoView {
    pub name: Seq<char>,
    pub is_dir: bool,
    pub size: u64,
    pub modified: u64,
}

impl View for FileInfo {
    type V = FileInfoView;

    open spec fn view(&self) -> FileInfoView {
        FileInfoView {
            name: self.name@,
            is_dir: self.is_dir,
            size: self.size,
            modified: self.modified,
        }
    }
}

/// Whether an entry is shown; those that begin with a dot are, if asked for.
pub open spec fn shown(name: Seq<char>, hidden: Option<Seq<char>>) -> bool {
    !text::starts_with_spec(name, "."@) || hidden == Some("true"@)
}

/// Whether an entry is shown; those that begin with a dot are, if asked for.
pub fn is_shown(name: &str, hidden: Option<&str>) -> (r: bool)
    ensures
        r == shown(name@, config::opt(hidden)),
{
    let all: bool = match hidden {
        Some(h) => text::same(h, "true"),
        None => false,
    };
    !text::starts_with(name, ".") || all
}

/// The views of entries.
pub open spec fn info_views(v: Seq<FileInfo>) -> Seq<FileInfoView> {
    v.map_values(|f: FileInfo| f@)
}

/// Whether `a` is listed strictly before `b`: directories come first, and entries of
/// one sort by their names without regard to case.
pub open spec fn listed_before(a: FileInfoView, b: FileInfoView) -> bool {
    if a.is_dir != b.is_dir {
        a.is_dir
    } else {
        text::lt_spec(text::lowercase(a.name), text::lowercase(b.name))
    }
}

/// Where `x` goes in a list: behind the last entry that is not to stand after it.
pub open spec fn slot(s: Seq<FileInfoView>, x: FileInfoView, n: int) -> int
    decreases n,
{
    if n <= 0 {
        0
    } else if listed_before(x, s[n - 1]) {
        slot(s, x, n - 1)
    } else {
        n
    }
}

/// The entries in the order in which they are listed; those that are equal in it
/// keep their order.
pub open spec fn in_order(s: Seq<FileInfoView>) -> Seq<FileInfoView>
    decreases s.len(),
{
    if s.len() == 0 {
        s
    } else {
        let t = in_order(s.drop_last());
        t.insert(slot(t, s.last(), t.len() as int), s.last())
    }
}

/// Whether `x` is listed strictly before `y`.
fn is_before(x: &FileInfo, y: &FileInfo) -> (r: bool)
    ensures
        r == listed_before(x@, y@),
{
    if x.is_dir != y.is_dir {
        x.is_dir
    } else {
        let a = text::to_lowercase(x.name.as_str());
        let b = text::to_lowercase(y.name.as_str());
        text::le(a.as_str(), b.as_str()) && !text::same(a.as_str(), b.as_str())
    }
}

proof fn lemma_slot_range(s: Seq<FileInfoView>, x: FileInfoView, n: int)
    requires
        0 <= n <= s.len(),
    ensures
        0 <= slot(s, x, n) <= n,
    decreases n,
{
    if n > 0 {
        lemma_slot_range(s, x, n - 1);
    }
}

/// Puts the entries in the order in which they are listed.
pub fn sort_entries(entries: Vec<FileInfo>) -> (r: Vec<FileInfo>)
    ensures
        info_views(r@) == in_order(info_views(entries@)),
{
    let ghost all = info_views(entries@);
    let mut rest = entries;
    let mut out: Vec<FileInfo> = Vec::new();
    let ghost mut n: int = 0;
    assert(info_views(out@) =~= in_order(all.take(0)));
    while rest.len() > 0
        invariant
            n + rest@.len() == all.len(),
            0 <= n,
            info_views(rest@) == all.skip(n),
            info_views(out@) == in_order(all.take(n)),
        decreases rest.len(),
    {
        let ghost before = rest@;
        let x = rest.remove(0);
        assert(info_views(rest@) =~= info_views(before).skip(1));
        assert(info_views(before).skip(1) =~= all.skip(n + 1));
        assert(x@ == info_views(before)[0]);
        assert(x@ == all[n]);
        let ghost t = info_views(out@);
        let mut i: usize = out.len();
        while i > 0 && is_before(&x, &out[i - 1])
            invariant
                i <= out@.len(),
                t == info_views(out@),
                slot(t, x@, t.len() as int) == slot(t, x@, i as int),
            decreases i,
        {
            assert(t[i - 1] == out@[i - 1]@);
            i = i - 1;
        }
        if i > 0 {
            assert(t[i - 1] == out@[i - 1]@);
        }
        assert(slot(t, x@, t.len() as int) == i);
        out.insert(i, x);
        assert(info_views(out@) =~= t.insert(i as int, x@));
        assert(all.take(n + 1).drop_last() =~= all.take(n));
        proof {
            n = n + 1;
        }
    }
    assert(all.take(n) =~= all);
    out
}

/// Sorting keeps the entries.
pub proof fn law_sorted_same(s: Seq<FileInfoView>)
    ensures
        in_order(s).to_multiset() == s.to_multiset(),
        in_order(s).len() == s.len(),
    decreases s.len(),
{
    if s.len() > 0 {
        law_sorted_same(s.drop_last());
        let t = in_order(s.drop_last());
        lemma_slot_range(t, s.last(), t.len() as int);
        let i = slot(t, s.last(), t.len() as int);
        vstd::seq_lib::to_multiset_insert(t, i, s.last());
        vstd::seq_lib::to_multiset_build(s.drop_last(), s.last());
        assert(s.drop_last().push(s.last()) =~= s);
    }
}

/// What is not after `y`, which is not after `z`, is not after `z`.
proof fn lemma_order_trans(x: FileInfoView, y: FileInfoView, z: FileInfoView)
    requires
        !listed_before(y, x),
        !listed_before(z, y),
    ensures
        !listed_before(z, x),
{
    let a = text::lowercase(x.name);
    let b = text::lowercase(y.name);
    let c = text::lowercase(z.name);
    text::lemma_le_total(a, b);
    text::lemma_le_total(b, c);
    text::lemma_le_total(a, c);
    if text::lt_spec(c, a) && !text::lt_spec(b, a) && !text::lt_spec(c, b) {
        if a == b || b == c {
        } else {
            text::lemma_lt_trans(a, b, c);
            text::lemma_lt_trans(a, c, a);
        }
    }
}

/// In a sorted list no entry stands before one that is to be listed before it.
pub proof fn law_sorted_ordered(s: Seq<FileInfoView>)
    ensures
        forall|i: int, j: int|
            0 <= i < j < in_order(s).len() ==> !listed_before(
                #[trigger] in_order(s)[j],
                #[trigger] in_order(s)[i],
            ),
    decreases s.len(),
{
    if s.len() > 0 {
        law_sorted_ordered(s.drop_last());
        let t = in_order(s.drop_last());
        let x = s.last();
        let n = slot(t, x, t.len() as int);
        lemma_slot_range(t, x, t.len() as int);
        lemma_slot_splits(t, x, t.len() as int);
        let r = t.insert(n, x);
        assert(r == in_order(s));
        assert forall|i: int, j: int| 0 <= i < j < r.len() implies !listed_before(
            #[trigger] r[j],
            #[trigger] r[i],
        ) by {
            if j == n {
                assert(r[i] == t[i]);
                if i < n - 1 {
                    lemma_order_trans(t[i], t[n - 1], x);
                }
            } else if i == n {
                assert(r[j] == t[j - 1]);
                if listed_before(t[j - 1], x) {
                    lemma_before_asym(x, t[j - 1]);
                }
            } else {
                let a = if i < n {
                    i
                } else {
                    i - 1
                };
                let b = if j < n {
                    j
                } else {
                    j - 1
                };
                assert(r[i] == t[a] && r[j] == t[b]);
            }
        }
    }
}

proof fn lemma_before_asym(x: FileInfoView, y: FileInfoView)
    requires
        listed_before(x, y),
    ensures
        !listed_before(y, x),
{
    let a = text::lowercase(x.name);
    let b = text::lowercase(y.name);
    if x.is_dir == y.is_dir && text::lt_spec(b, a) {
        text::lemma_lt_trans(a, b, a);
    }
}

/// What stands behind the slot of `x` is to be listed after it, and what stands
/// before it is not.
proof fn lemma_slot_splits(t: Seq<FileInfoView>, x: FileInfoView, n: int)
    requires
        0 <= n <= t.len(),
    ensures
        slot(t, x, n) > 0 ==> !listed_before(x, t[slot(t, x, n) - 1]),
        forall|k: int| slot(t, x, n) <= k < n ==> listed_before(x, #[trigger] t[k]),
    decreases n,
{
    if n > 0 && listed_before(x, t[n - 1]) {
        lemma_slot_splits(t, x, n - 1);
    }
}

/// What a browser is told of an entry.
pub open spec fn entry_json(f: FileInfoView) -> JsonView {
    JsonView::object().put_text("name"@, f.name).put_text(
        "type"@,
        if f.is_dir {
            "dir"@
        } else {
            "file"@
        },
    ).put_uint("size"@, f.size).put_uint("modified"@, f.modified)
}

/// How a directory is shown: `~` for the home directory and what lies under it.
pub open spec fn shown_path(
    is_home: bool,
    relative: Option<Seq<char>>,
    absolute: Seq<char>,
) -> Seq<char> {
    if is_home {
        "~"@
    } else {
        match relative {
            Some(r) => "~/"@ + r,
            None => absolute,
        }
    }
}

/// The contents of a directory.
pub open spec fn listing_json(
    path: Seq<char>,
    absolute: Seq<char>,
    entries: Seq<FileInfoView>,
) -> JsonView {
    JsonView::object().put_text("path"@, path).put_text("absolute"@, absolute).put(
        "entries"@,
        JsonView::Array(in_order(entries).map_values(|f: FileInfoView| entry_json(f))),
    ).put_uint("count"@, entries.len() as u64)
}

/// The answer with the contents of a directory, in the order in which they are
/// listed. `relative` is its path below the home directory.
pub fn list_files(
    is_home: bool,
    relative: Option<&str>,
    absolute: &str,
    entries: Vec<FileInfo>,
) -> (r: Reply)
    ensures
        r@ == (ReplyView {
            status: 200,
            body: listing_json(
                shown_path(is_home, config::opt(relative), absolute@),
                absolute@,
                info_views(entries@),
            ),
        }),
{
    let ghost all = info_views(entries@);
    let sorted = sort_entries(entries);
    proof {
        law_sorted_same(all);
    }
    let ghost order = info_views(sorted@);
    let mut items: Vec<Json> = Vec::new();
    let mut i: usize = 0;
    while i < sorted.len()
        invariant
            i <= sorted@.len(),
            order == info_views(sorted@),
            items@.len() == i,
            forall|k: int| 0 <= k < i ==> (#[trigger] items@[k])@ == entry_json(order[k]),
        decreases sorted.len() - i,
    {
        assert(order[i as int] == sorted@[i as int]@);
        let f = &sorted[i];
        let sort = if f.is_dir {
            "dir"
        } else {
            "file"
        };
        items.push(
            Json::object().put_text("name", f.name.as_str()).put_text("type", sort).put_uint(
                "size",
                f.size,
            ).put_uint("modified", f.modified),
        );
        i = i + 1;
    }
    assert(json::json_views(items@) =~= order.map_values(|f: FileInfoView| entry_json(f)));
    let path = if is_home {
        "~".to_owned()
    } else {
        match relative {
            Some(rel) => text::cat2("~/", rel),
            None => absolute.to_owned(),
        }
    };
    let count: u64 = sorted.len() as u64;
    Reply {
        status: 200,
        body: Json::object().put_text("path", path.as_str()).put_text("absolute", absolute).put(
            "entries",
            Json::array(items),
        ).put_uint("count", count),
    }
}

/// The answer where a directory is not there or cannot be read.
pub fn no_directory(found: bool, error: &str) -> (r: Reply)
    ensures
        r@ == (if found {
            ReplyView::error(400, "cannot read directory: "@ + error@)
        } else {
            ReplyView::error(404, "path not found: "@ + error@)
        }),
{
    if found {
        let m = text::cat2("cannot read directory: ", error);
        Reply::error(400, m.as_str())
    } else {
        let m = text::cat2("path not found: ", error);
        Reply::error(404, m.as_str())
    }
}

// ── Reading ─────────────────────────────────────────────────────────

/// The media type of an image, by the ending of its name.
pub open spec fn image_type(e: Seq<char>) -> Option<Seq<char>> {
    if e == "png"@ {
        Some("image/png"@)
    } else if e == "jpg"@ {
        Some("image/jpeg"@)
    } else if e == "jpeg"@ {
        Some("image/jpeg"@)
    } else if e == "gif"@ {
        Some("image/gif"@)
    } else if e == "svg"@ {
        Some("image/svg+xml"@)
    } else if e == "webp"@ {
        Some("image/webp"@)
    } else if e == "ico"@ {
        Some("image/x-icon"@)
    } else if e == "bmp"@ {
        Some("image/bmp"@)
    } else {
        None
    }
}

/// The media type of an image, by the ending of its name.
pub fn image_mime(e: &str) -> (r: Option<&'static str>)
    ensures
        match r {
            Some(m) => image_type(e@) == Some(m@),
            None => image_type(e@) is None,
        },
{
    if text::same(e, "png") {
        Some("image/png")
    } else if text::same(e, "jpg") {
        Some("image/jpeg")
    } else if text::same(e, "jpeg") {
        Some("image/jpeg")
    } else if text::same(e, "gif") {
        Some("image/gif")
    } else if text::same(e, "svg") {
        Some("image/svg+xml")
    } else if text::same(e, "webp") {
        Some("image/webp")
    } else if text::same(e, "ico") {
        Some("image/x-icon")
    } else if text::same(e, "bmp") {
        Some("image/bmp")
    } else {
        None
    }
}

/// The language of a text, by the ending of its name.
pub open spec fn language_of(e: Seq<char>) -> Seq<char> {
    if e == "rs"@ {
        "rust"@
    } else if e == "py"@ {
        "python"@
    } else if e == "js"@ {
        "javascript"@
    } else if e == "mjs"@ {
        "javascript"@
    } else if e == "cjs"@ {
        "javascript"@
    } else if e == "ts"@ {
        "typescript"@
    } else if e == "mts"@ {
        "typescript"@
    } else if e == "cts"@ {
        "typescript"@
    } else if e == "tsx"@ {
        "tsx"@
    } else if e == "jsx"@ {
        "jsx"@
    } else if e == "json"@ {
        "json"@
    } else if e == "toml"@ {
        "toml"@
    } else if e == "yaml"@ {
        "yaml"@
    } else if e == "yml"@ {
        "yaml"@
    } else if e == "md"@ {
        "markdown"@
    } else if e == "html"@ {
        "html"@
    } else if e == "htm"@ {
        "html"@
    } else if e == "css"@ {
        "css"@
    } else if e == "sh"@ {
        "bash"@
    } else if e == "bash"@ {
        "bash"@
    } else if e == "sql"@ {
        "sql"@
    } else if e == "xml"@ {
        "xml"@
    } else if e == "go"@ {
        "go"@
    } else if e == "java"@ {
        "java"@
    } else if e == "c"@ {
        "c"@
    } else if e == "h"@ {
        "c"@
    } else if e == "cpp"@ {
        "cpp"@
    } else if e == "cc"@ {
        "cpp"@
    } else if e == "cxx"@ {
        "cpp"@
    } else if e == "hpp"@ {
        "cpp"@
    } else if e == "svelte"@ {
        "svelte"@
    } else if e == "dockerfile"@ {
        "dockerfile"@
    } else {
        "text"@
    }
}

/// The language of a text, by the ending of its name.
pub fn language(e: &str) -> (r: &'static str)
    ensures
        r@ == language_of(e@),
{
    if text::same(e, "rs") {
        "rust"
    } else if text::same(e, "py") {
        "python"
    } else if text::same(e, "js") {
        "javascript"
    } else if text::same(e, "mjs") {
        "javascript"
    } else if text::same(e, "cjs") {
        "javascript"
    } else if text::same(e, "ts") {
        "typescript"
    } else if text::same(e, "mts") {
        "typescript"
    } else if text::same(e, "cts") {
        "typescript"
    } else if text::same(e, "tsx") {
        "tsx"
    } else if text::same(e, "jsx") {
        "jsx"
    } else if text::same(e, "json") {
        "json"
    } else if text::same(e, "toml") {
        "toml"
    } else if text::same(e, "yaml") {
        "yaml"
    } else if text::same(e, "yml") {
        "yaml"
    } else if text::same(e, "md") {
        "markdown"
    } else if text::same(e, "html") {
        "html"
    } else if text::same(e, "htm") {
        "html"
    } else if text::same(e, "css") {
        "css"
    } else if text::same(e, "sh") {
        "bash"
    } else if text::same(e, "bash") {
        "bash"
    } else if text::same(e, "sql") {
        "sql"
    } else if text::same(e, "xml") {
        "xml"
    } else if text::same(e, "go") {
        "go"
    } else if text::same(e, "java") {
        "java"
    } else if text::same(e, "c") {
        "c"
    } else if text::same(e, "h") {
        "c"
    } else if text::same(e, "cpp") {
        "cpp"
    } else if text::same(e, "cc") {
        "cpp"
    } else if text::same(e, "cxx") {
        "cpp"
    } else if text::same(e, "hpp") {
        "cpp"
    } else if text::same(e, "svelte") {
        "svelte"
    } else if text::same(e, "dockerfile") {
        "dockerfile"
    } else {
        "text"
    }
}

/// The largest file that is shown, in bytes.
pub open spec fn size_limit(e: Seq<char>) -> u64 {
    if image_type(e) is Some {
        10_485_760
    } else {
        1_048_576
    }
}

/// How many line breaks a text holds.
pub open spec fn breaks(s: Seq<char>) -> nat
    decreases s.len(),
{
    if s.len() == 0 {
        0
    } else {
        breaks(s.drop_last()) + (if s.last() == '\n' {
            1nat
        } else {
            0nat
        })
    }
}

/// How many lines a text has; a line break ends the line before it.
pub open spec fn line_count(s: Seq<char>) -> nat {
    breaks(s) + (if s.len() > 0 && s.last() != '\n' {
        1nat
    } else {
        0nat
    })
}

proof fn lemma_breaks(s: Seq<char>)
    ensures
        breaks(s) <= s.len(),
    decreases s.len(),
{
    if s.len() > 0 {
        lemma_breaks(s.drop_last());
    }
}

/// How many lines a text has.
fn count_lines(s: &str) -> (r: u64)
    ensures
        r == line_count(s@),
{
    let x = text::chars_of(s);
    let mut n: u64 = 0;
    let mut i: usize = 0;
    while i < x.len()
        invariant
            i <= x@.len(),
            x@ == s@,
            n == breaks(s@.take(i as int)),
            n <= i,
        decreases x.len() - i,
    {
        assert(s@.take(i + 1).drop_last() =~= s@.take(i as int));
        if x[i] == '\n' {
            n = n + 1;
        }
        i = i + 1;
    }
    assert(s@.take(i as int) =~= s@);
    if x.len() > 0 && x[x.len() - 1] != '\n' {
        proof {
            lemma_breaks(s@.drop_last());
        }
        n + 1
    } else {
        n
    }
}

/// How many bytes of a file tell whether it is binary.
pub const BINARY_PROBE: usize = 8192;

/// Whether a file is binary: a zero stands near its start.
pub open spec fn is_binary(b: Seq<u8>) -> bool {
    exists|i: int| 0 <= i < b.len() && i < BINARY_PROBE && #[trigger] b[i] == 0
}

/// Whether a file is binary.
pub fn looks_binary(b: &[u8]) -> (r: bool)
    ensures
        r == is_binary(b@),
{
    let mut i: usize = 0;
    while i < b.len() && i < BINARY_PROBE
        invariant
            i <= b@.len(),
            i <= BINARY_PROBE,
            forall|k: int| 0 <= k < i ==> #[trigger] b@[k] != 0,
        decreases b.len() - i,
    {
        if b[i] == 0 {
            assert(b@[i as int] == 0);
            return true;
        }
        i = i + 1;
    }
    false
}

/// The path that is to be read, or the answer where none is named.
pub fn read_path(home: &str, raw: Option<&str>) -> (r: Result<String, Reply>)
    ensures
        match raw {
            Some(p) => r matches Ok(s) && s@ == user_path(home@, p@),
            None => r matches Err(e) && e@ == ReplyView::error(400, "path parameter required"@),
        },
{
    match raw {
        Some(p) => Ok(resolve(home, p)),
        None => Err(Reply::error(400, "path parameter required")),
    }
}

/// Why a file is not shown, where that is so before it is read.
pub open spec fn refusal(is_dir: bool, e: Seq<char>, size: u64) -> Option<ReplyView> {
    if is_dir {
        Some(ReplyView::error(400, "path is a directory, use /api/files instead"@))
    } else if size > size_limit(e) {
        Some(
            ReplyView {
                status: 400,
                body: JsonView::object().put_text("error"@, "file too large"@).put_uint(
                    "size"@,
                    size,
                ).put_uint("max"@, size_limit(e)),
            },
        )
    } else {
        None
    }
}

/// Why a file is not shown, where that is so before it is read; `extension` is
/// the ending of its name.
pub fn refuse(is_dir: bool, extension: &str, size: u64) -> (r: Option<Reply>)
    ensures
        match r {
            Some(x) => refusal(is_dir, text::lowercase(extension@), size) == Some(x@),
            None => refusal(is_dir, text::lowercase(extension@), size) is None,
        },
{
    if is_dir {
        return Some(Reply::error(400, "path is a directory, use /api/files instead"));
    }
    let e = text::to_lowercase(extension);
    let max: u64 = match image_mime(e.as_str()) {
        Some(_) => 10_485_760,
        None => 1_048_576,
    };
    if size > max {
        Some(
            Reply {
                status: 400,
                body: Json::object().put_text("error", "file too large").put_uint(
                    "size",
                    size,
                ).put_uint("max", max),
            },
        )
    } else {
        None
    }
}

/// What a browser is told of a file: an image as a URL that holds it, a text with
/// its language and its lines, anything else with its name.
pub open spec fn file_json(
    raw: Seq<char>,
    name: Seq<char>,
    e: Seq<char>,
    b: Seq<u8>,
    size: u64,
    modified: u64,
) -> JsonView {
    let base = JsonView::object().put_text("path"@, raw);
    match image_type(e) {
        Some(mime) => base.put_text("type"@, "image"@).put_text("mime"@, mime).put_text(
            "data_url"@,
            "data:"@ + mime + ";base64,"@ + crypto::b64(b),
        ).put_uint("size"@, size).put_uint("modified"@, modified),
        None => if is_binary(b) {
            base.put_text("type"@, "binary"@).put_uint("size"@, size).put_text(
                "name"@,
                name,
            ).put_uint("modified"@, modified)
        } else {
            base.put_text("type"@, "text"@).put_text("content"@, bytes::shown_text(b)).put_text(
                "language"@,
                language_of(e),
            ).put_uint("size"@, size).put_uint(
                "lines"@,
                line_count(bytes::shown_text(b)) as u64,
            ).put_uint("modified"@, modified)
        },
    }
}

/// The answer with a file.
pub fn read_file(
    raw_path: &str,
    name: &str,
    extension: &str,
    contents: &[u8],
    size: u64,
    modified: u64,
) -> (r: Reply)
    ensures
        r@ == (ReplyView {
            status: 200,
            body: file_json(
                raw_path@,
                name@,
                text::lowercase(extension@),
                contents@,
                size,
                modified,
            ),
        }),
{
    let e = text::to_lowercase(extension);
    let base = Json::object().put_text("path", raw_path);
    let body = match image_mime(e.as_str()) {
        Some(mime) => {
            let data = crypto::b64_encode(contents);
            let url = text::cat4("data:", mime, ";base64,", data.as_str());
            base.put_text("type", "image").put_text("mime", mime).put_text(
                "data_url",
                url.as_str(),
            ).put_uint("size", size).put_uint("modified", modified)
        },
        None => if looks_binary(contents) {
            base.put_text("type", "binary").put_uint("size", size).put_text(
                "name",
                name,
            ).put_uint("modified", modified)
        } else {
            let content = bytes::utf8_lossy(contents);
            let lines: u64 = count_lines(content.as_str());
            base.put_text("type", "text").put_text("content", content.as_str()).put_text(
                "language",
                language(e.as_str()),
            ).put_uint("size", size).put_uint("lines", lines).put_uint("modified", modified)
        },
    };
    Reply { status: 200, body }
}

/// The largest file that is served as it is, in bytes.
pub const MAX_RAW_BYTES: u64 = 20_971_520;

/// The media type under which a file is served as it is, by the ending of its name.
pub open spec fn raw_type(e: Seq<char>) -> Seq<char> {
    if e == "pdf"@ {
        "application/pdf"@
    } else if e == "png"@ {
        "image/png"@
    } else if e == "jpg"@ {
        "image/jpeg"@
    } else if e == "jpeg"@ {
        "image/jpeg"@
    } else if e == "gif"@ {
        "image/gif"@
    } else if e == "svg"@ {
        "image/svg+xml"@
    } else if e == "webp"@ {
        "image/webp"@
    } else if e == "mp3"@ {
        "audio/mpeg"@
    } else if e == "wav"@ {
        "audio/wav"@
    } else if e == "mp4"@ {
        "video/mp4"@
    } else {
        "application/octet-stream"@
    }
}

/// The media type under which a file is served as it is, by the ending of its
/// name; nothing where the file is too large.
pub fn read_file_raw(extension: &str, size: u64) -> (r: Option<&'static str>)
    ensures
        if size > MAX_RAW_BYTES {
            r is None
        } else {
            r matches Some(m) && m@ == raw_type(text::lowercase(extension@))
        },
{
    if size > MAX_RAW_BYTES {
        return None;
    }
    let lower = text::to_lowercase(extension);
    Some(raw_media(lower.as_str()))
}

fn raw_media(e: &str) -> (r: &'static str)
    ensures
        r@ == raw_type(e@),
{
    if text::same(e, "pdf") {
        "application/pdf"
    } else if text::same(e, "png") {
        "image/png"
    } else if text::same(e, "jpg") {
        "image/jpeg"
    } else if text::same(e, "jpeg") {
        "image/jpeg"
    } else if text::same(e, "gif") {
        "image/gif"
    } else if text::same(e, "svg") {
        "image/svg+xml"
    } else if text::same(e, "webp") {
        "image/webp"
    } else if text::same(e, "mp3") {
        "audio/mpeg"
    } else if text::same(e, "wav") {
        "audio/wav"
    } else if text::same(e, "mp4") {
        "video/mp4"
    } else {
        "application/octet-stream"
    }
}

// ── Changing ────────────────────────────────────────────────────────

/// A change that a browser asks for.
#[derive(Debug)]
pub struct Change {
    /// The file, as the browser named it.
    pub raw_path: String,
    /// The file.
    pub path: String,
    /// What to write, or the new name.
    pub value: String,
    /// The directory to copy to.
    pub dest_dir: Option<String>,
}

/// Whether a change is the one that a body asks for.
pub open spec fn asks(c: Change, home: Seq<char>, body: JsonView, key: Seq<char>) -> bool {
    &&& body.text("path"@) == Some(c.raw_path@)
    &&& c.path@ == user_path(home, c.raw_path@)
    &&& body.text(key) == Some(c.value@)
    &&& config::opt_string(c.dest_dir) == (match body.text("dest_dir"@) {
        Some(d) => Some(user_path(home, d)),
        None => None,
    })
}

/// What a body asks for, under the given key.
fn change_of(home: &str, raw_path: String, value: String, body: &Json) -> (r: Change)
    ensures
        r.raw_path@ == raw_path@,
        r.path@ == user_path(home@, raw_path@),
        r.value@ == value@,
        config::opt_string(r.dest_dir) == (match body@.text("dest_dir"@) {
            Some(d) => Some(user_path(home@, d)),
            None => None,
        }),
{
    let path = resolve(home, raw_path.as_str());
    let dest_dir = match body.text("dest_dir") {
        Some(d) => Some(resolve(home, d.as_str())),
        None => None,
    };
    Change { raw_path, path, value, dest_dir }
}

/// What to write where.
pub fn write_request(home: &str, body: &Json) -> (r: Result<Change, Reply>)
    ensures
        match body@.text("path"@) {
            None => r matches Err(e) && e@ == ReplyView::error(400, "path required"@),
            Some(_) => match body@.text("content"@) {
                None => r matches Err(e) && e@ == ReplyView::error(400, "content required"@),
                Some(_) => r matches Ok(c) && asks(c, home@, body@, "content"@),
            },
        },
{
    match body.text("path") {
        None => Err(Reply::error(400, "path required")),
        Some(p) => match body.text("content") {
            None => Err(Reply::error(400, "content required")),
            Some(v) => Ok(change_of(home, p, v, body)),
        },
    }
}

/// What a body that names a file and a new name asks for, or why not.
pub open spec fn name_refusal(body: JsonView) -> Option<ReplyView> {
    match body.text("path"@) {
        None => Some(ReplyView::error(400, "path required"@)),
        Some(_) => match body.text("new_name"@) {
            None => Some(ReplyView::error(400, "new_name required"@)),
            Some(n) => if simple_name(n) {
                None
            } else {
                Some(ReplyView::error(400, "new_name must be a simple filename"@))
            },
        },
    }
}

/// What to rename or to copy. The new name is that of a file in a directory, never
/// a path.
pub fn name_request(home: &str, body: &Json) -> (r: Result<Change, Reply>)
    ensures
        match name_refusal(body@) {
            Some(x) => r matches Err(e) && e@ == x,
            None => r matches Ok(c) && asks(c, home@, body@, "new_name"@) && simple_name(c.value@),
        },
{
    match body.text("path") {
        None => Err(Reply::error(400, "path required")),
        Some(p) => match body.text("new_name") {
            None => Err(Reply::error(400, "new_name required")),
            Some(n) => if text::contains(n.as_str(), "/") || text::contains(n.as_str(), "..") {
                Err(Reply::error(400, "new_name must be a simple filename"))
            } else {
                Ok(change_of(home, p, n, body))
            },
        },
    }
}

/// What to delete.
pub fn delete_request(home: &str, body: &Json) -> (r: Result<String, Reply>)
    ensures
        match body@.text("path"@) {
            None => r matches Err(e) && e@ == ReplyView::error(400, "path required"@),
            Some(p) => r matches Ok(s) && s@ == user_path(home@, p),
        },
{
    match body.text("path") {
        None => Err(Reply::error(400, "path required")),
        Some(p) => Ok(resolve(home, p.as_str())),
    }
}

/// Where a file goes: the directory asked for, else that of the file, else the home
/// directory.
pub open spec fn target_of(
    dest_dir: Option<Seq<char>>,
    parent: Option<Seq<char>>,
    home: Seq<char>,
    name: Seq<char>,
) -> Seq<char> {
    paths::joined(
        match dest_dir {
            Some(d) => d,
            None => match parent {
                Some(p) => p,
                None => home,
            },
        },
        name,
    )
}

/// Where a file goes: the directory asked for, else that of the file, else the home
/// directory.
pub fn target(dest_dir: Option<&str>, parent: Option<&str>, home: &str, name: &str) -> (r: String)
    ensures
        r@ == target_of(config::opt(dest_dir), config::opt(parent), home@, name@),
{
    let dir = match dest_dir {
        Some(d) => d,
        None => match parent {
            Some(p) => p,
            None => home,
        },
    };
    paths::join(dir, name)
}

/// The answer to a request that the state of the files forbids.
pub fn obstacle(present: bool, is_file: bool, verb: &str) -> (r: Option<Reply>)
    ensures
        if !present {
            r matches Some(x) && x@ == ReplyView::error(404, "file does not exist"@)
        } else if !is_file {
            r matches Some(x) && x@ == ReplyView::error(
                400,
                "can only "@ + verb@ + " files, not directories"@,
            )
        } else {
            r is None
        },
{
    if !present {
        Some(Reply::error(404, "file does not exist"))
    } else if !is_file {
        let m = text::cat3("can only ", verb, " files, not directories");
        Some(Reply::error(400, m.as_str()))
    } else {
        None
    }
}

/// The answer where the target is there already.
pub fn conflict() -> (r: Reply)
    ensures
        r@ == ReplyView::error(409, "target already exists"@),
{
    Reply::error(409, "target already exists")
}

/// The answer where a change failed.
pub fn change_failed(verb: &str, error: &str) -> (r: Reply)
    ensures
        r@ == ReplyView::error(500, verb@ + " failed: "@ + error@),
{
    let m = text::cat3(verb, " failed: ", error);
    Reply::error(500, m.as_str())
}

/// The answer after a file was written.
pub fn written(raw_path: &str, content: &str) -> (r: Reply)
    ensures
        r@ == (ReplyView {
            status: 200,
            body: JsonView::object().put_bool("ok"@, true).put_text("path"@, raw_path@).put_uint(
                "size"@,
                vstd::utf8::encode_utf8(content@).len() as u64,
            ),
        }),
{
    let b = bytes::bytes_of(content);
    let n: u64 = b.len() as u64;
    Reply {
        status: 200,
        body: Json::object().put_bool("ok", true).put_text("path", raw_path).put_uint("size", n),
    }
}

/// The answer after a file was renamed.
pub fn renamed(old_path: &str, new_path: &str) -> (r: Reply)
    ensures
        r@ == (ReplyView {
            status: 200,
            body: JsonView::object().put_bool("ok"@, true).put_text(
                "old_path"@,
                old_path@,
            ).put_text("new_path"@, new_path@),
        }),
{
    Reply {
        status: 200,
        body: Json::object().put_bool("ok", true).put_text("old_path", old_path).put_text(
            "new_path",
            new_path,
        ),
    }
}

/// The answer after a file was copied.
pub fn copied(source: &str, dest: &str, size: u64) -> (r: Reply)
    ensures
        r@ == (ReplyView {
            status: 200,
            body: JsonView::object().put_bool("ok"@, true).put_text("source"@, source@).put_text(
                "dest"@,
                dest@,
            ).put_uint("size"@, size),
        }),
{
    Reply {
        status: 200,
        body: Json::object().put_bool("ok", true).put_text("source", source).put_text(
            "dest",
            dest,
        ).put_uint("size", size),
    }
}

/// The answer after a file was deleted.
pub fn deleted(path: &str) -> (r: Reply)
    ensures
        r@ == (ReplyView {
            status: 200,
            body: JsonView::object().put_bool("ok"@, true).put_text("deleted"@, path@),
        }),
{
    Reply {
        status: 200,
        body: Json::object().put_bool("ok", true).put_text("deleted", path),
    }
}

// ── Uploads ─────────────────────────────────────────────────────────

/// The largest file that can be sent, in bytes.
pub const MAX_UPLOAD_BYTES: usize = 52_428_800;

/// The largest recording that can be sent, in bytes.
pub const MAX_AUDIO_BYTES: usize = 20_971_520;

/// A name without anything that leads out of its directory.
pub open spec fn safe_name_of(name: Seq<char>) -> Seq<char> {
    text::replaced(
        text::replaced(text::replaced(name, "/"@, "_"@), "\\"@, "_"@),
        ".."@,
        "_"@,
    )
}

/// A name without anything that leads out of its directory.
pub fn safe_name(name: &str) -> (r: String)
    ensures
        r@ == safe_name_of(name@),
{
    proof {
        reveal_strlit("/");
        reveal_strlit("\\");
        reveal_strlit("..");
    }
    let a = text::replace(name, "/", "_");
    let b = text::replace(a.as_str(), "\\", "_");
    text::replace(b.as_str(), "..", "_")
}

/// Replacing a character takes it out.
proof fn lemma_replaced_gone(s: Seq<char>, p: Seq<char>, r: Seq<char>, c: char)
    requires
        p == seq![c],
        !r.contains(c),
    ensures
        !text::replaced(s, p, r).contains(c),
    decreases s.len(),
{
    match text::find_from(s, p, 0) {
        None => {
            lemma_contains_char(s, p, c, 0);
        },
        Some(i) => {
            text::lemma_find_from_range(s, p, 0);
            lemma_first(s, p, c, 0);
            let tail = s.skip(i + 1);
            lemma_replaced_gone(tail, p, r, c);
            let t = text::replaced(tail, p, r);
            let all = text::replaced(s, p, r);
            assert(all == s.take(i) + r + t);
            if all.contains(c) {
                let k = choose|k: int| 0 <= k < all.len() && all[k] == c;
                if k < i {
                    assert(s[k] == c);
                } else if k < i + r.len() {
                    assert(r[k - i] == c);
                } else {
                    assert(t[k - i - r.len()] == c);
                }
            }
        },
    }
}

/// Before the first place of a character it does not stand.
proof fn lemma_first(s: Seq<char>, p: Seq<char>, c: char, i: int)
    requires
        p == seq![c],
        0 <= i,
    ensures
        text::find_from(s, p, i) matches Some(n) ==> forall|k: int| i <= k < n ==> #[trigger] s[k] != c,
    decreases s.len() + 1 - i,
{
    if i + 1 <= s.len() && s.subrange(i, i + 1) != p {
        lemma_first(s, p, c, i + 1);
        assert(s.subrange(i, i + 1) =~= seq![s[i]]);
    }
}

/// A safe name holds no separator, so that the file lies in the directory itself.
pub proof fn law_safe_name(name: Seq<char>)
    ensures
        !safe_name_of(name).contains('/'),
        !safe_name_of(name).contains('\\'),
{
    reveal_strlit("/");
    reveal_strlit("\\");
    reveal_strlit("..");
    reveal_strlit("_");
    assert("/"@ =~= seq!['/']);
    assert("\\"@ =~= seq!['\\']);
    let u = "_"@;
    assert(!u.contains('/') && !u.contains('\\'));
    let a = text::replaced(name, "/"@, u);
    lemma_replaced_gone(name, "/"@, u, '/');
    let b = text::replaced(a, "\\"@, u);
    lemma_replaced_gone(a, "\\"@, u, '\\');
    text::lemma_replaced_without(a, "\\"@, u, '/');
    text::lemma_replaced_without(b, ".."@, u, '/');
    text::lemma_replaced_without(b, ".."@, u, '\\');
}

/// A file that was sent to the agent.
#[derive(Debug)]
pub struct Upload {
    /// The name under which it is stored.
    pub name: String,
    pub path: String,
}

/// The mathematical value of an [`Upload`].
#[verifier::ext_equal]
pub struct UploadView {
    pub name: Seq<char>,
    pub path: Seq<char>,
}

impl View for Upload {
    type V = UploadView;

    open spec fn view(&self) -> UploadView {
        UploadView {
            name: self.name@,
            path: self.path@,
        }
    }
}

/// Where an upload is stored: in the directory asked for, or in the agent's own
/// one, with the time in front of its name.
pub open spec fn upload_of(
    name: Seq<char>,
    dest_dir: Option<Seq<char>>,
    home: Seq<char>,
    now: u64,
) -> UploadView {
    let safe = safe_name_of(name);
    UploadView {
        name: safe,
        path: match dest_dir {
            Some(d) => paths::joined(d, safe),
            None => paths::joined(
                paths::joined(home, "uploads"@),
                text::decimal(now as nat) + "_"@ + safe,
            ),
        },
    }
}

/// Where an upload is stored.
pub fn place_upload(name: &str, dest_dir: Option<&str>, home: &str, now: u64) -> (r: Upload)
    ensures
        r@ == upload_of(name@, config::opt(dest_dir), home@, now),
{
    let safe = safe_name(name);
    let path = match dest_dir {
        Some(d) => paths::join(d, safe.as_str()),
        None => {
            let n = text::to_decimal(now);
            let file = text::cat3(n.as_str(), "_", safe.as_str());
            let dir = paths::join(home, "uploads");
            paths::join(dir.as_str(), file.as_str())
        },
    };
    Upload { name: safe, path }
}

/// The status of an upload that is not taken: without a file, or too large.
pub fn upload_refusal(len: Option<usize>) -> (r: Option<u16>)
    ensures
        r == (match len {
            None => Some(400u16),
            Some(n) => if n > MAX_UPLOAD_BYTES {
                Some(413u16)
            } else {
                None
            },
        }),
{
    match len {
        None => Some(400),
        Some(n) => if n > MAX_UPLOAD_BYTES {
            Some(413)
        } else {
            None
        },
    }
}

/// A file that was sent as JSON.
#[derive(Debug)]
pub struct JsonUpload {
    pub file_name: String,
    pub data: Vec<u8>,
    pub dest_dir: Option<String>,
}

/// The bytes that a JSON upload holds, or the status with which it is refused.
pub open spec fn upload_data(body: JsonView, key: Seq<char>, max: usize) -> Result<Seq<u8>, u16> {
    match body.text(key) {
        None => Err(400),
        Some(s) => match crypto::b64_decoded(s) {
            Err(_) => Err(400),
            Ok(b) => if b.len() > max {
                Err(413)
            } else {
                Ok(b)
            },
        },
    }
}

/// The bytes under a key, or the status with which they are refused.
fn take_data(body: &Json, key: &str, max: usize) -> (r: Result<Vec<u8>, u16>)
    ensures
        match r {
            Ok(b) => upload_data(body@, key@, max) == Ok::<Seq<u8>, u16>(b@),
            Err(s) => upload_data(body@, key@, max) == Err::<Seq<u8>, u16>(s),
        },
{
    match body.text(key) {
        None => Err(400),
        Some(s) => match crypto::b64_decode(s.as_str()) {
            Err(_) => Err(400),
            Ok(b) => if b.len() > max {
                Err(413)
            } else {
                Ok(b)
            },
        },
    }
}

/// A file that was sent as JSON, or the status with which it is refused.
pub fn file_upload_json(body: &Json) -> (r: Result<JsonUpload, u16>)
    ensures
        match upload_data(body@, "data_b64"@, MAX_UPLOAD_BYTES) {
            Err(s) => r matches Err(e) && e == s,
            Ok(b) => r matches Ok(u) && u.data@ == b && u.file_name@ == body@.text_or(
                "filename"@,
                "upload"@,
            ) && config::opt_string(u.dest_dir) == body@.text("dest_dir"@),
        },
{
    match take_data(body, "data_b64", MAX_UPLOAD_BYTES) {
        Err(s) => Err(s),
        Ok(data) => Ok(
            JsonUpload {
                file_name: body.text_or("filename", "upload"),
                data,
                dest_dir: body.text("dest_dir"),
            },
        ),
    }
}

/// A size in kilobytes, to the nearest whole number; half of one goes to the even
/// side.
pub open spec fn kilobytes(len: nat) -> nat {
    let q = len / 1024;
    let rem = len % 1024;
    if rem > 512 || (rem == 512 && q % 2 == 1) {
        q + 1
    } else {
        q
    }
}

/// A size in kilobytes, to the nearest whole number.
pub fn rounded_kb(len: usize) -> (r: u64)
    ensures
        r == kilobytes(len as nat),
{
    let q: u64 = (len / 1024) as u64;
    let rem: usize = len % 1024;
    if rem > 512 || (rem == 512 && q % 2 == 1) {
        q + 1
    } else {
        q
    }
}

/// The notice of an upload.
pub fn upload_notice(path: &str, len: usize) -> (r: String)
    ensures
        r@ == "[file-upload] "@ + path@ + " ("@ + text::decimal(kilobytes(len as nat)) + " KB)"@,
{
    let kb = text::to_decimal(rounded_kb(len));
    text::cat5("[file-upload] ", path, " (", kb.as_str(), " KB)")
}

/// The answer to an upload.
pub fn uploaded(u: &Upload, len: usize) -> (r: Json)
    ensures
        r@ == JsonView::object().put_text("status"@, "ok"@).put_text(
            "filename"@,
            u@.name,
        ).put_text("path"@, u@.path).put_uint("size_kb"@, (len / 1024) as u64),
{
    Json::object().put_text("status", "ok").put_text("filename", u.name.as_str()).put_text(
        "path",
        u.path.as_str(),
    ).put_uint("size_kb", (len / 1024) as u64)
}

// ── Lost recordings ─────────────────────────────────────────────────

/// A recording that could not be transcribed.
#[derive(Debug)]
pub struct LostAudio {
    pub file_name: String,
    pub path: String,
    pub seq: u64,
    pub audio: Vec<u8>,
}

/// The mathematical value of a [`LostAudio`].
#[verifier::ext_equal]
pub struct LostAudioView {
    pub file_name: Seq<char>,
    pub path: Seq<char>,
    pub seq: u64,
    pub audio: Seq<u8>,
}

impl View for LostAudio {
    type V = LostAudioView;

    open spec fn view(&self) -> LostAudioView {
        LostAudioView {
            file_name: self.file_name@,
            path: self.path@,
            seq: self.seq,
            audio: self.audio@,
        }
    }
}

/// The file name of a lost recording.
pub open spec fn lost_name(seq: u64, now: u64) -> Seq<char> {
    "lost_seq"@ + text::decimal(seq as nat) + "_"@ + text::decimal(now as nat) + ".webm"@
}

/// A recording that could not be transcribed, or the status with which it is refused.
pub fn lost_audio(body: &Json, home: &str, now: u64) -> (r: Result<LostAudio, u16>)
    ensures
        match upload_data(body@, "audio_b64"@, MAX_AUDIO_BYTES) {
            Err(s) => r matches Err(e) && e == s,
            Ok(b) => r matches Ok(l) && l@ == (LostAudioView {
                file_name: lost_name(body@.uint_or("seq"@, 0), now),
                path: paths::joined(
                    paths::joined(paths::joined(home@, ".b3"@), "lost-audio"@),
                    lost_name(body@.uint_or("seq"@, 0), now),
                ),
                seq: body@.uint_or("seq"@, 0),
                audio: b,
            }),
        },
{
    match take_data(body, "audio_b64", MAX_AUDIO_BYTES) {
        Err(s) => Err(s),
        Ok(audio) => {
            let seq: u64 = body.uint_or("seq", 0);
            let a = text::to_decimal(seq);
            let b = text::to_decimal(now);
            let file_name = text::cat5("lost_seq", a.as_str(), "_", b.as_str(), ".webm");
            let dir = paths::join(home, ".b3");
            let dir = paths::join(dir.as_str(), "lost-audio");
            let path = paths::join(dir.as_str(), file_name.as_str());
            Ok(LostAudio { file_name, path, seq, audio })
        },
    }
}

/// Where a lost recording can be transcribed.
pub open spec fn recover_url_of(local_gpu: Seq<char>, gpu_id: Seq<char>) -> Seq<char> {
    if local_gpu.len() > 0 {
        text::strip_end(local_gpu, '/') + "/runsync"@
    } else if gpu_id.len() == 0 {
        "<SET_RUNPOD_GPU_ID_OR_LOCAL_GPU_URL>"@
    } else {
        "https://api.runpod.ai/v2/"@ + gpu_id + "/runsync"@
    }
}

/// Where a lost recording can be transcribed.
pub fn recover_url(local_gpu: &str, gpu_id: &str) -> (r: String)
    ensures
        r@ == recover_url_of(local_gpu@, gpu_id@),
{
    if !local_gpu.is_empty() {
        let base = text::trim_end_matches(local_gpu, '/');
        text::cat2(base.as_str(), "/runsync")
    } else if gpu_id.is_empty() {
        "<SET_RUNPOD_GPU_ID_OR_LOCAL_GPU_URL>".to_owned()
    } else {
        text::cat3("https://api.runpod.ai/v2/", gpu_id, "/runsync")
    }
}

/// The notice of a lost recording, with the command that transcribes it. `duration`
/// is how long it is, in seconds.
pub fn lost_notice(l: &LostAudio, duration: &str, url: &str) -> (r: String)
    ensures
        r@ == "[LOST AUDIO SAVED] seq="@ + text::decimal(l@.seq as nat) + " duration="@ + duration@
            + "s file="@ + l@.path + " ("@ + text::decimal(kilobytes(l@.audio.len()))
            + LOST_NOTICE_A@ + l@.path + LOST_NOTICE_B@ + url@ + " | python3 -m json.tool"@,
{
    let seq = text::to_decimal(l.seq);
    let kb = text::to_decimal(rounded_kb(l.audio.len()));
    let head = text::cat7(
        "[LOST AUDIO SAVED] seq=",
        seq.as_str(),
        " duration=",
        duration,
        "s file=",
        l.path.as_str(),
        " (",
    );
    let tail = text::cat6(
        head.as_str(),
        kb.as_str(),
        LOST_NOTICE_A,
        l.path.as_str(),
        LOST_NOTICE_B,
        url,
    );
    text::cat2(tail.as_str(), " | python3 -m json.tool")
}

/// The part of the notice before the file.
pub const LOST_NOTICE_A: &'static str =
    " KB) \u{2014} RECOVER: python3 -c \"import json,base64;d=base64.b64encode(open('";

/// The part of the notice between the file and the URL.
pub const LOST_NOTICE_B: &'static str =
    "','rb').read()).decode();open('/tmp/rp.json','w').write(json.dumps({'input':{'action':'transcribe','audio_b64':d,'language':'en','preset':'multilingual'}}))\" && curl -s -m 60 -H \"Authorization: Bearer $LOCAL_GPU_TOKEN\" -H \"Content-Type: application/json\" -d @/tmp/rp.json ";

/// The answer to a lost recording. `duration` is what the browser said of it.
pub fn lost_reply(l: &LostAudio, duration: Json) -> (r: Json)
    ensures
        r@ == JsonView::object().put_text("status"@, "ok"@).put_text(
            "filename"@,
            l@.file_name,
        ).put_text("path"@, "~/.b3/lost-audio/"@ + l@.file_name).put_uint(
            "size_kb"@,
            (l@.audio.len() / 1024) as u64,
        ).put_uint("seq"@, l@.seq).put("duration"@, duration@),
{
    let path = text::cat2("~/.b3/lost-audio/", l.file_name.as_str());
    let kb: u64 = (l.audio.len() / 1024) as u64;
    Json::object().put_text("status", "ok").put_text("filename", l.file_name.as_str()).put_text(
        "path",
        path.as_str(),
    ).put_uint("size_kb", kb).put_uint("seq", l.seq).put("duration", duration)
}

// ── Laws ────────────────────────────────────────────────────────────

/// A path that begins at the root is taken as it is; another is looked for at home, with
/// or without a tilde.
pub proof fn law_paths_at_home(home: Seq<char>, p: Seq<char>)
    requires
        home.len() > 0,
        home.last() != '/',
        p.len() > 0,
        p[0] != '/',
    ensures
        user_path(home, "/"@ + p) == "/"@ + p,
        user_path(home, "~/"@ + p) == home + "/"@ + p,
        !text::starts_with_spec(p, "~/"@) ==> user_path(home, p) == home + "/"@ + p,
        user_dir(home, None) == home,
        user_dir(home, Some("~"@)) == home,
        user_dir(home, Some("."@)) == home,
{
    reveal_strlit("/");
    reveal_strlit("~/");
    assert(("/"@ + p).take(1) =~= "/"@);
    assert(("~/"@ + p).take(2) =~= "~/"@);
    assert(("~/"@ + p).skip(2) =~= p);
    assert(("~/"@ + p).take(1)[0] == '~');
    assert(p.take(1)[0] == p[0]);
}

/// A file whose name begins with a dot is shown only where that is asked for; any other
/// always is.
pub proof fn law_hidden_files(name: Seq<char>, hidden: Option<Seq<char>>)
    ensures
        shown("."@ + name, Some("true"@)),
        !shown("."@ + name, None),
        name.len() > 0 && name[0] != '.' ==> shown(name, hidden),
{
    reveal_strlit(".");
    assert(("."@ + name).take(1) =~= "."@);
    assert(name.len() > 0 ==> name.take(1)[0] == name[0]);
}

/// A file is told with its name, its size and its time, and as what it is.
pub proof fn law_entry_told(f: FileInfoView)
    ensures
        entry_json(f).text("name"@) == Some(f.name),
        entry_json(f).is("type"@, "dir"@) <==> f.is_dir,
        entry_json(f).is("type"@, "file"@) <==> !f.is_dir,
        entry_json(f).uint("size"@) == Some(f.size),
        entry_json(f).uint("modified"@) == Some(f.modified),
{
    broadcast use json::lemma_put_field;
    broadcast use json::lemma_object_field;

    reveal_strlit("name");
    reveal_strlit("type");
    reveal_strlit("size");
    reveal_strlit("modified");
    reveal_strlit("dir");
    reveal_strlit("file");
    assert("name"@.len() == 4 && "type"@.len() == 4 && "size"@.len() == 4 && "modified"@.len() == 8 && "dir"@.len() == 3 && "file"@.len() == 4);
    assert("name"@[0] != "type"@[0]);
    assert("name"@[0] != "size"@[0]);
    assert("name"@[0] != "file"@[0]);
    assert("type"@[0] != "size"@[0]);
    assert("type"@[0] != "file"@[0]);
    assert("size"@[0] != "file"@[0]);
}

/// Directories come before files.
pub proof fn law_directories_first(a: FileInfoView, b: FileInfoView)
    requires
        a.is_dir,
        !b.is_dir,
    ensures
        listed_before(a, b),
        !listed_before(b, a),
{
}

/// The content of a text file is told as it is, with its size and its time; nothing of a
/// binary file's content is.
pub proof fn law_content_told(
    raw: Seq<char>,
    name: Seq<char>,
    e: Seq<char>,
    b: Seq<u8>,
    size: u64,
    modified: u64,
)
    ensures
        ({
            let j = file_json(raw, name, e, b, size, modified);
            &&& j.text("path"@) == Some(raw)
            &&& j.uint("size"@) == Some(size)
            &&& j.uint("modified"@) == Some(modified)
            &&& image_type(e) is Some ==> j.is("type"@, "image"@) && j.text("mime"@) == image_type(
                e,
            ) && j.text("data_url"@) == Some(
                "data:"@ + image_type(e).unwrap() + ";base64,"@ + crypto::b64(b),
            )
            &&& image_type(e) is None && is_binary(b) ==> j.is("type"@, "binary"@) && j.text(
                "name"@,
            ) == Some(name) && j.field("content"@) is None
            &&& image_type(e) is None && !is_binary(b) ==> j.is("type"@, "text"@) && j.text(
                "content"@,
            ) == Some(bytes::shown_text(b)) && j.text("language"@) == Some(language_of(e))
        }),
{
    broadcast use json::lemma_put_field;
    broadcast use json::lemma_object_field;

    reveal_strlit("path");
    reveal_strlit("type");
    reveal_strlit("mime");
    reveal_strlit("data_url");
    reveal_strlit("size");
    reveal_strlit("modified");
    reveal_strlit("name");
    reveal_strlit("content");
    reveal_strlit("language");
    reveal_strlit("lines");
    assert("path"@.len() == 4 && "type"@.len() == 4 && "mime"@.len() == 4 && "data_url"@.len() == 8 && "size"@.len() == 4 && "modified"@.len() == 8 && "name"@.len() == 4 && "content"@.len() == 7 && "language"@.len() == 8 && "lines"@.len() == 5);
    assert("path"@[0] != "type"@[0]);
    assert("path"@[0] != "mime"@[0]);
    assert("path"@[0] != "size"@[0]);
    assert("path"@[0] != "name"@[0]);
    assert("type"@[0] != "mime"@[0]);
    assert("type"@[0] != "size"@[0]);
    assert("type"@[0] != "name"@[0]);
    assert("mime"@[0] != "size"@[0]);
    assert("mime"@[0] != "name"@[0]);
    assert("size"@[0] != "name"@[0]);
    assert("data_url"@[0] != "modified"@[0]);
    assert("data_url"@[0] != "language"@[0]);
    assert("modified"@[0] != "language"@[0]);
}

/// Every line counts, and so does the last without a line break.
pub proof fn law_lines_counted(s: Seq<char>, c: char)
    ensures
        line_count(s.push('\n')) == breaks(s) + 1,
        c != '\n' ==> line_count(s.push(c)) == breaks(s) + 1,
        breaks(s.push('\n')) == breaks(s) + 1,
        c != '\n' ==> breaks(s.push(c)) == breaks(s),
{
    assert(s.push('\n').drop_last() =~= s);
    assert(s.push(c).drop_last() =~= s);
}

/// A file that is too large is refused, and so is a directory; what is within the limit
/// of its kind is not.
pub proof fn law_large_refused(e: Seq<char>, size: u64)
    ensures
        refusal(true, e, size) is Some,
        refusal(false, e, size) is Some <==> size > (if image_type(e) is Some {
            10_485_760u64
        } else {
            1_048_576u64
        }),
        refusal(false, e, size) matches Some(r) ==> r.status == 400 && r.body.uint("size"@) == Some(
            size,
        ),
{
    broadcast use json::lemma_put_field;
    broadcast use json::lemma_object_field;

    reveal_strlit("error");
    reveal_strlit("size");
    reveal_strlit("max");
    assert("error"@.len() == 5 && "size"@.len() == 4 && "max"@.len() == 3);
}

/// A name that leads elsewhere is refused.
pub proof fn law_names_refused(body: JsonView, path: Seq<char>, name: Seq<char>)
    requires
        body.text("path"@) == Some(path),
        body.text("new_name"@) == Some(name),
    ensures
        name_refusal(body) is None <==> simple_name(name),
        name_refusal(body) matches Some(r) ==> r.status == 400,
{
}

/// A file is written where it is asked for, else beside the one that it comes from.
pub proof fn law_target(d: Seq<char>, p: Seq<char>, home: Seq<char>, name: Seq<char>)
    requires
        d.len() > 0,
        d.last() != '/',
        p.len() > 0,
        p.last() != '/',
        name.len() > 0,
        name[0] != '/',
    ensures
        target_of(Some(d), Some(p), home, name) == d + "/"@ + name,
        target_of(None, Some(p), home, name) == p + "/"@ + name,
        target_of(None, None, home, name) == paths::joined(home, name),
{
}

/// An upload is decoded whole, unless it is too large.
pub proof fn law_upload_decoded(body: JsonView, key: Seq<char>, max: usize, s: Seq<char>, b: Seq<u8>)
    requires
        body.text(key) == Some(s),
        crypto::b64_decoded(s) == Ok::<Seq<u8>, Seq<char>>(b),
    ensures
        b.len() <= max ==> upload_data(body, key, max) == Ok::<Seq<u8>, u16>(b),
        b.len() > max ==> upload_data(body, key, max) == Err::<Seq<u8>, u16>(413),
{
}

/// Kilobytes are the nearest whole number.
pub proof fn law_kilobytes_nearest(len: nat)
    ensures
        2 * (kilobytes(len) * 1024 - len) <= 1024,
        2 * (len - kilobytes(len) * 1024) <= 1024,
        len % 1024 == 0 ==> kilobytes(len) * 1024 == len,
{
}

/// Where lost speech can be recognised again is the local GPU, where there is one, else
/// the one in the cloud.
pub proof fn law_recovery(url: Seq<char>, id: Seq<char>)
    requires
        url.len() > 0,
        url.last() != '/',
        id.len() > 0,
    ensures
        recover_url_of(url, id) == url + "/runsync"@,
        recover_url_of(Seq::empty(), id) == "https://api.runpod.ai/v2/"@ + id + "/runsync"@,
{
    text::law_strip_end(url, '/');
}

/// An upload keeps its name where it leads nowhere else, and is put where it was asked
/// for, else among the uploads at home under its time.
pub proof fn law_upload_placed(name: Seq<char>, dir: Seq<char>, home: Seq<char>, now: u64)
    requires
        text::lacks(name, '/'),
        text::lacks(name, '\\'),
        text::lacks(name, '.'),
    ensures
        upload_of(name, Some(dir), home, now).name == name,
        upload_of(name, Some(dir), home, now).path == paths::joined(dir, name),
        upload_of(name, None, home, now).path == paths::joined(
            paths::joined(home, "uploads"@),
            text::decimal(now as nat) + "_"@ + name,
        ),
{
    reveal_strlit("/");
    reveal_strlit("\\");
    reveal_strlit("..");
    text::law_replaced_none(name, "/"@, "_"@);
    text::law_replaced_none(name, "\\"@, "_"@);
    text::law_replaced_none(name, ".."@, "_"@);
}

/// A listing names its directory and holds an entry for each file, in the order in which
/// they are listed.
pub proof fn law_listing_told(path: Seq<char>, absolute: Seq<char>, entries: Seq<FileInfoView>)
    requires
        entries.len() <= u64::MAX,
    ensures
        ({
            let j = listing_json(path, absolute, entries);
            &&& j.text("path"@) == Some(path)
            &&& j.text("absolute"@) == Some(absolute)
            &&& j.uint("count"@) == Some(entries.len() as u64)
            &&& j.items("entries"@) == in_order(entries).map_values(
                |f: FileInfoView| entry_json(f),
            )
        }),
        shown_path(true, None, absolute) == "~"@,
        shown_path(false, Some(path), absolute) == "~/"@ + path,
        shown_path(false, None, absolute) == absolute,
{
    broadcast use json::lemma_put_field;
    broadcast use json::lemma_object_field;

    reveal_strlit("path");
    reveal_strlit("absolute");
    reveal_strlit("entries");
    reveal_strlit("count");
    assert("path"@.len() == 4 && "absolute"@.len() == 8 && "entries"@.len() == 7 && "count"@.len() == 5);
}

} // verus!
