//! JSON values as the agent reads and writes them.

use vstd::prelude::*;

use crate::text;

verus! {

/// A JSON value. A number that is no 64-bit integer keeps its text. The members
/// of an object stand in the order of their keys, as `put` leaves them.
#[derive(Debug)]
pub enum Json {
    Null,
    Bool(bool),
    Uint(u64),
    Neg(i64),
    Real(String),
    Text(String),
    Array(Vec<Json>),
    Object(Vec<(String, Json)>),
}

/// The mathematical value of a [`Json`].
pub enum JsonView {
    Null,
    Bool(bool),
    Uint(u64),
    Neg(i64),
    Real(Seq<char>),
    Text(Seq<char>),
    Array(Seq<JsonView>),
    Object(Seq<(Seq<char>, JsonView)>),
}

/// The mathematical value of `j`.
pub open spec fn json_view(j: Json) -> JsonView
    decreases j,
{
    match j {
        Json::Null => JsonView::Null,
        Json::Bool(b) => JsonView::Bool(b),
        Json::Uint(n) => JsonView::Uint(n),
        Json::Neg(n) => JsonView::Neg(n),
        Json::Real(s) => JsonView::Real(s@),
        Json::Text(s) => JsonView::Text(s@),
        Json::Array(v) => JsonView::Array(
            Seq::new(
                v@.len(),
                |i: int|
                    if 0 <= i < v@.len() {
                        json_view(v@[i])
                    } else {
                        JsonView::Null
                    },
            ),
        ),
        Json::Object(v) => JsonView::Object(
            Seq::new(
                v@.len(),
                |i: int|
                    if 0 <= i < v@.len() {
                        (v@[i].0@, json_view(v@[i].1))
                    } else {
                        (Seq::empty(), JsonView::Null)
                    },
            ),
        ),
    }
}

impl View for Json {
    type V = JsonView;

    open spec fn view(&self) -> JsonView {
        json_view(*self)
    }
}

/// The view of a value that may be missing.
pub open spec fn opt_view(j: Option<Json>) -> Option<JsonView> {
    match j {
        Some(v) => Some(v@),
        None => None,
    }
}

/// The views of the values in a vector.
pub open spec fn json_views(v: Seq<Json>) -> Seq<JsonView> {
    Seq::new(v.len(), |i: int| v[i]@)
}

/// The array of the given texts.
pub open spec fn texts(v: Seq<Seq<char>>) -> JsonView {
    JsonView::Array(Seq::new(v.len(), |i: int| JsonView::Text(v[i])))
}

/// The value of the first entry at or after `i` with the given key.
pub open spec fn lookup(
    entries: Seq<(Seq<char>, JsonView)>,
    key: Seq<char>,
    i: int,
) -> Option<JsonView>
    decreases entries.len() - i,
{
    if i >= entries.len() {
        None
    } else if entries[i].0 == key {
        Some(entries[i].1)
    } else {
        lookup(entries, key, i + 1)
    }
}

/// The position of the first entry at or after `i` whose key is not below `key`.
pub open spec fn place(entries: Seq<(Seq<char>, JsonView)>, key: Seq<char>, i: int) -> int
    decreases entries.len() - i,
{
    if i >= entries.len() {
        entries.len() as int
    } else if text::lt_spec(entries[i].0, key) {
        place(entries, key, i + 1)
    } else {
        i
    }
}

/// The entries after `key` was given the value `v`.
pub open spec fn put_entry(
    entries: Seq<(Seq<char>, JsonView)>,
    key: Seq<char>,
    v: JsonView,
) -> Seq<(Seq<char>, JsonView)> {
    let i = place(entries, key, 0);
    if i < entries.len() && entries[i].0 == key {
        entries.update(i, (key, v))
    } else {
        entries.insert(i, (key, v))
    }
}

impl JsonView {
    /// The object without members.
    pub open spec fn object() -> JsonView {
        JsonView::Object(Seq::empty())
    }

    /// The value of a member of an object.
    pub open spec fn field(self, key: Seq<char>) -> Option<JsonView> {
        match self {
            JsonView::Object(entries) => lookup(entries, key, 0),
            _ => None,
        }
    }

    /// The value as text.
    pub open spec fn as_text(self) -> Option<Seq<char>> {
        match self {
            JsonView::Text(s) => Some(s),
            _ => None,
        }
    }

    /// The value as an unsigned number.
    pub open spec fn as_uint(self) -> Option<u64> {
        match self {
            JsonView::Uint(n) => Some(n),
            _ => None,
        }
    }

    /// The value as a signed number.
    pub open spec fn as_int(self) -> Option<i64> {
        match self {
            JsonView::Uint(n) => if n <= i64::MAX {
                Some(n as i64)
            } else {
                None
            },
            JsonView::Neg(n) => Some(n),
            _ => None,
        }
    }

    /// The value as a truth value.
    pub open spec fn as_truth(self) -> Option<bool> {
        match self {
            JsonView::Bool(b) => Some(b),
            _ => None,
        }
    }

    /// The text of a member.
    pub open spec fn text(self, key: Seq<char>) -> Option<Seq<char>> {
        match self.field(key) {
            Some(v) => v.as_text(),
            None => None,
        }
    }

    /// The text of a member, or `default` where it has none.
    pub open spec fn text_or(self, key: Seq<char>, default: Seq<char>) -> Seq<char> {
        match self.text(key) {
            Some(s) => s,
            None => default,
        }
    }

    /// Whether a member is the given text.
    pub open spec fn is(self, key: Seq<char>, value: Seq<char>) -> bool {
        self.text(key) == Some(value)
    }

    /// The unsigned number of a member.
    pub open spec fn uint(self, key: Seq<char>) -> Option<u64> {
        match self.field(key) {
            Some(v) => v.as_uint(),
            None => None,
        }
    }

    /// The unsigned number of a member, or `default` where it has none.
    pub open spec fn uint_or(self, key: Seq<char>, default: u64) -> u64 {
        match self.uint(key) {
            Some(n) => n,
            None => default,
        }
    }

    /// The truth value of a member.
    pub open spec fn truth(self, key: Seq<char>) -> Option<bool> {
        match self.field(key) {
            Some(v) => v.as_truth(),
            None => None,
        }
    }

    /// The truth value of a member, or `default` where it has none.
    pub open spec fn truth_or(self, key: Seq<char>, default: bool) -> bool {
        match self.truth(key) {
            Some(b) => b,
            None => default,
        }
    }

    /// The values of an array member; none where it is no array.
    pub open spec fn items(self, key: Seq<char>) -> Seq<JsonView> {
        match self.field(key) {
            Some(JsonView::Array(s)) => s,
            _ => Seq::empty(),
        }
    }

    /// The object in which `key` has the value `v`. What was no object becomes one.
    #[verifier::opaque]
    pub open spec fn put(self, key: Seq<char>, v: JsonView) -> JsonView {
        match self {
            JsonView::Object(entries) => JsonView::Object(put_entry(entries, key, v)),
            _ => JsonView::Object(put_entry(Seq::empty(), key, v)),
        }
    }

    /// The object in which `key` has the given text.
    pub open spec fn put_text(self, key: Seq<char>, s: Seq<char>) -> JsonView {
        self.put(key, JsonView::Text(s))
    }

    /// The object in which `key` has the given number.
    pub open spec fn put_uint(self, key: Seq<char>, n: u64) -> JsonView {
        self.put(key, JsonView::Uint(n))
    }

    /// The object in which `key` has the given truth value.
    pub open spec fn put_bool(self, key: Seq<char>, b: bool) -> JsonView {
        self.put(key, JsonView::Bool(b))
    }

    /// The object without the member `key`.
    pub open spec fn without(self, key: Seq<char>) -> JsonView {
        match self {
            JsonView::Object(entries) => JsonView::Object(
                entries.filter(|e: (Seq<char>, JsonView)| e.0 != key),
            ),
            _ => self,
        }
    }
}

/// The key that `serde_json` takes to announce JSON text in place of an object.
pub const RAW_KEY: &'static str = "$serde_json::private::RawValue";

/// The length of [`RAW_KEY`].
pub proof fn lemma_raw_key()
    ensures
        RAW_KEY@.len() == 30,
{
    reveal_strlit("$serde_json::private::RawValue");
}

/// Whether the keys of every object stand in order, none of them is [`RAW_KEY`], and
/// no number is kept as text.
pub open spec fn plain(j: JsonView) -> bool
    decreases j,
{
    match j {
        JsonView::Real(_) => false,
        JsonView::Array(s) => forall|i: int| 0 <= i < s.len() ==> plain(#[trigger] s[i]),
        JsonView::Object(e) => {
            &&& ordered(e)
            &&& forall|i: int|
                0 <= i < e.len() ==> (#[trigger] e[i]).0 != RAW_KEY@ && plain(e[i].1)
        },
        _ => true,
    }
}

/// Whether the keys stand in strictly ascending order.
pub open spec fn ordered(e: Seq<(Seq<char>, JsonView)>) -> bool {
    forall|i: int, k: int|
        0 <= i < k < e.len() ==> text::lt_spec((#[trigger] e[i]).0, (#[trigger] e[k]).0)
}

/// Whether arrays and objects are nested at most `depth` deep.
pub open spec fn shallow(j: JsonView, depth: nat) -> bool
    decreases j,
{
    match j {
        JsonView::Array(s) => depth > 0 && forall|i: int|
            0 <= i < s.len() ==> shallow(#[trigger] s[i], (depth - 1) as nat),
        JsonView::Object(e) => depth > 0 && forall|i: int|
            0 <= i < e.len() ==> shallow((#[trigger] e[i]).1, (depth - 1) as nat),
        _ => true,
    }
}

// ── Facts ───────────────────────────────────────────────────────────

/// Where an entry for the key goes, and what stands before and after it.
proof fn lemma_place(entries: Seq<(Seq<char>, JsonView)>, key: Seq<char>, i: int)
    requires
        0 <= i <= entries.len(),
    ensures
        i <= place(entries, key, i) <= entries.len(),
        forall|j: int|
            i <= j < place(entries, key, i) ==> text::lt_spec((#[trigger] entries[j]).0, key),
        place(entries, key, i) < entries.len() ==> !text::lt_spec(
            entries[place(entries, key, i)].0,
            key,
        ),
    decreases entries.len() - i,
{
    if i < entries.len() && text::lt_spec(entries[i].0, key) {
        lemma_place(entries, key, i + 1);
    }
}

/// Reading a key skips entries that are for others.
proof fn lemma_lookup_skip(
    e: Seq<(Seq<char>, JsonView)>,
    key: Seq<char>,
    from: int,
    to: int,
)
    requires
        0 <= from <= to <= e.len(),
        forall|j: int| from <= j < to ==> (#[trigger] e[j]).0 != key,
    ensures
        lookup(e, key, from) == lookup(e, key, to),
    decreases to - from,
{
    if from < to {
        lemma_lookup_skip(e, key, from + 1, to);
    }
}

/// Reading from a place on gives the same in two lists that agree from there on,
/// one shifted against the other.
proof fn lemma_lookup_shift(
    e: Seq<(Seq<char>, JsonView)>,
    f: Seq<(Seq<char>, JsonView)>,
    key: Seq<char>,
    i: int,
    by: int,
)
    requires
        0 <= i <= e.len(),
        0 <= i + by,
        f.len() == e.len() + by,
        forall|j: int| i <= j < e.len() ==> #[trigger] e[j] == f[j + by],
    ensures
        lookup(e, key, i) == lookup(f, key, i + by),
    decreases e.len() - i,
{
    if i < e.len() {
        assert(e[i] == f[i + by]);
        if e[i].0 != key {
            lemma_lookup_shift(e, f, key, i + 1, by);
        }
    }
}

/// Reading up to a place gives the same in two lists that agree up to it.
proof fn lemma_lookup_prefix(
    e: Seq<(Seq<char>, JsonView)>,
    f: Seq<(Seq<char>, JsonView)>,
    key: Seq<char>,
    i: int,
    to: int,
    fto: int,
)
    requires
        0 <= i <= to <= e.len(),
        to <= fto <= f.len(),
        forall|j: int| 0 <= j < to ==> #[trigger] e[j] == f[j],
        forall|j: int| to <= j < fto ==> (#[trigger] f[j]).0 != key,
        lookup(e, key, to) == lookup(f, key, fto),
    ensures
        lookup(e, key, i) == lookup(f, key, i),
    decreases to - i,
{
    if i < to {
        assert(e[i] == f[i]);
        if e[i].0 != key {
            lemma_lookup_prefix(e, f, key, i + 1, to, fto);
        }
    } else {
        lemma_lookup_skip(f, key, to, fto);
    }
}

/// What entries read after one was put.
proof fn lemma_put_entry(
    e: Seq<(Seq<char>, JsonView)>,
    k: Seq<char>,
    v: JsonView,
    key: Seq<char>,
)
    ensures
        lookup(put_entry(e, k, v), k, 0) == Some(v),
        key != k ==> lookup(put_entry(e, k, v), key, 0) == lookup(e, key, 0),
{
    let i = place(e, k, 0);
    let f = put_entry(e, k, v);
    lemma_place(e, k, 0);
    assert forall|j: int| 0 <= j < i implies (#[trigger] f[j]).0 != k by {
        assert(f[j] == e[j]);
    }
    lemma_lookup_skip(f, k, 0, i);
    assert(f[i] == (k, v));
    if key != k {
        if i < e.len() && e[i].0 == k {
            lemma_lookup_shift(e, f, key, i + 1, 0);
            assert(lookup(e, key, i) == lookup(e, key, i + 1));
            assert(lookup(f, key, i) == lookup(f, key, i + 1));
            lemma_lookup_prefix(e, f, key, 0, i, i);
        } else {
            lemma_lookup_shift(e, f, key, i, 1);
            assert(lookup(f, key, i) == lookup(f, key, i + 1));
            lemma_lookup_prefix(e, f, key, 0, i, i);
        }
    }
}

/// After `put`, the key reads back the value that was put and every other key
/// reads what it read before (nothing, where the value was no object).
pub proof fn law_put_get(j: JsonView, k: Seq<char>, v: JsonView, key: Seq<char>)
    ensures
        j.put(k, v).field(k) == Some(v),
        key != k ==> j.put(k, v).field(key) == j.field(key),
{
    reveal(JsonView::put);
    match j {
        JsonView::Object(entries) => {
            lemma_put_entry(entries, k, v, key);
        },
        _ => {
            lemma_put_entry(Seq::empty(), k, v, key);
        },
    }
}

proof fn lemma_lookup_push(
    e: Seq<(Seq<char>, JsonView)>,
    x: (Seq<char>, JsonView),
    key: Seq<char>,
    i: int,
)
    requires
        0 <= i <= e.len(),
    ensures
        lookup(e.push(x), key, i) == (match lookup(e, key, i) {
            Some(v) => Some(v),
            None => if x.0 == key {
                Some(x.1)
            } else {
                None
            },
        }),
    decreases e.len() - i,
{
    reveal_with_fuel(lookup, 2);
    if i < e.len() {
        assert(e.push(x)[i] == e[i]);
        lemma_lookup_push(e, x, key, i + 1);
    } else {
        assert(e.push(x)[i] == x);
    }
}

proof fn lemma_lookup_without(e: Seq<(Seq<char>, JsonView)>, k: Seq<char>, key: Seq<char>)
    ensures
        JsonView::Object(e).without(k).field(key) == (if key == k {
            None
        } else {
            lookup(e, key, 0)
        }),
    decreases e.len(),
{
    reveal(Seq::filter);
    if e.len() > 0 {
        let d = e.drop_last();
        lemma_lookup_without(d, k, key);
        assert(d.push(e.last()) =~= e);
        lemma_lookup_push(d, e.last(), key, 0);
        lemma_lookup_push(JsonView::Object(d).without(k)->Object_0, e.last(), key, 0);
    }
}

/// After `without`, the key reads nothing and every other key reads what it read
/// before.
pub proof fn law_without_get(j: JsonView, k: Seq<char>, key: Seq<char>)
    ensures
        j.without(k).field(k) is None,
        key != k ==> j.without(k).field(key) == j.field(key),
{
    match j {
        JsonView::Object(e) => {
            lemma_lookup_without(e, k, k);
            lemma_lookup_without(e, k, key);
        },
        _ => {},
    }
}

/// What `put` put there is there, and the other members are as they were.
pub broadcast proof fn lemma_put_field(j: JsonView, k: Seq<char>, v: JsonView, key: Seq<char>)
    ensures
        #[trigger] j.put(k, v).field(key) == (if key == k {
            Some(v)
        } else {
            j.field(key)
        }),
{
    law_put_get(j, k, v, key);
}

/// The object without members has none.
pub broadcast proof fn lemma_object_field(key: Seq<char>)
    ensures
        #[trigger] JsonView::object().field(key) is None,
{
}

/// `put` of a key other than [`RAW_KEY`] keeps the keys in order.
pub proof fn law_put_plain(j: JsonView, k: Seq<char>, v: JsonView)
    requires
        plain(j),
        plain(v),
        k != RAW_KEY@,
    ensures
        plain(j.put(k, v)),
{
    reveal(JsonView::put);
    let e = match j {
        JsonView::Object(entries) => entries,
        _ => Seq::empty(),
    };
    let i = place(e, k, 0);
    let f = put_entry(e, k, v);
    lemma_place(e, k, 0);
    if i < e.len() {
        text::lemma_le_total(e[i].0, k);
    }
    assert forall|a: int, b: int| 0 <= a < b < f.len() implies text::lt_spec(
        (#[trigger] f[a]).0,
        (#[trigger] f[b]).0,
    ) by {
        if i < e.len() && e[i].0 == k {
            assert(f[a].0 == e[a].0);
            assert(f[b].0 == e[b].0);
        } else {
            if a < i && b < i {
                assert(f[a] == e[a] && f[b] == e[b]);
            } else if a < i && b == i {
                assert(f[a] == e[a]);
            } else if a < i {
                assert(f[a] == e[a] && f[b] == e[b - 1]);
            } else if a == i {
                assert(f[b] == e[b - 1]);
                assert(text::lt_spec(k, e[i].0));
                if b - 1 > i {
                    assert(text::lt_spec(e[i].0, e[b - 1].0));
                    text::lemma_lt_trans(k, e[i].0, e[b - 1].0);
                }
            } else {
                assert(f[a] == e[a - 1] && f[b] == e[b - 1]);
            }
        }
    }
    assert forall|a: int| 0 <= a < f.len() implies (#[trigger] f[a]).0 != RAW_KEY@ && plain(
        f[a].1,
    ) by {
        if i < e.len() && e[i].0 == k {
            if a != i {
                assert(f[a] == e[a]);
            }
        } else {
            if a < i {
                assert(f[a] == e[a]);
            } else if a > i {
                assert(f[a] == e[a - 1]);
            }
        }
    }
}

/// `put` nests no deeper than the object and the value.
pub proof fn law_put_shallow(j: JsonView, k: Seq<char>, v: JsonView, depth: nat)
    requires
        shallow(j, depth),
        depth > 0,
        shallow(v, (depth - 1) as nat),
    ensures
        shallow(j.put(k, v), depth),
{
    reveal(JsonView::put);
    let e = match j {
        JsonView::Object(entries) => entries,
        _ => Seq::empty(),
    };
    let i = place(e, k, 0);
    let f = put_entry(e, k, v);
    lemma_place(e, k, 0);
    assert forall|a: int| 0 <= a < f.len() implies shallow(
        (#[trigger] f[a]).1,
        (depth - 1) as nat,
    ) by {
        if i < e.len() && e[i].0 == k {
            if a != i {
                assert(f[a] == e[a]);
            }
        } else {
            if a < i {
                assert(f[a] == e[a]);
            } else if a > i {
                assert(f[a] == e[a - 1]);
            }
        }
    }
}

// ── Text ────────────────────────────────────────────────────────────

/// Declares `serde_json::Value`.
#[verifier::external_type_specification]
#[verifier::external_body]
pub struct ExSerdeValue(serde_json::Value);

/// Declares `serde_json::Map`.
#[verifier::external_type_specification]
#[verifier::external_body]
#[verifier::reject_recursive_types(K)]
#[verifier::reject_recursive_types(V)]
pub struct ExSerdeMap<K, V>(serde_json::Map<K, V>);

/// What a `serde_json::Value` holds.
pub uninterp spec fn value_view(v: serde_json::Value) -> JsonView;

/// The entries of a `serde_json::Map`, in the order in which it hands them out.
pub uninterp spec fn map_view(m: serde_json::Map<String, serde_json::Value>) -> Seq<
    (Seq<char>, JsonView),
>;

/// What `serde_json::from_str` makes of the given text: the value, or the text
/// of its error.
pub uninterp spec fn json_value(text: Seq<char>) -> Result<JsonView, Seq<char>>;

/// The text that `serde_json::to_string` writes for a value.
pub uninterp spec fn json_text(j: JsonView) -> Seq<char>;

/// The text that `serde_json::to_string_pretty` writes for a value.
pub uninterp spec fn json_pretty_text(j: JsonView) -> Seq<char>;

/// The shape of a `serde_json::Value`. A number comes with its readings as an
/// unsigned and a signed integer and with its text.
enum Node {
    Null,
    Bool(bool),
    Number(Option<u64>, Option<i64>, String),
    Text(String),
    Array(Vec<serde_json::Value>),
    Object(serde_json::Map<String, serde_json::Value>),
}

/// The value of a number with the given readings.
pub open spec fn number_view(u: Option<u64>, i: Option<i64>, s: Seq<char>) -> JsonView {
    match u {
        Some(n) => JsonView::Uint(n),
        None => match i {
            Some(n) => JsonView::Neg(n),
            None => JsonView::Real(s),
        },
    }
}

/// The views of the values in a vector.
pub open spec fn value_views(v: Seq<serde_json::Value>) -> Seq<JsonView> {
    Seq::new(v.len(), |i: int| value_view(v[i]))
}

/// The views of the entries in a vector.
pub open spec fn entry_views(v: Seq<(String, serde_json::Value)>) -> Seq<(Seq<char>, JsonView)> {
    Seq::new(v.len(), |i: int| (v[i].0@, value_view(v[i].1)))
}

/// A text that was read as the given value.
pub open spec fn read_ok(j: JsonView) -> Result<JsonView, Seq<char>> {
    Ok(j)
}

/// What reading a text gives, with the value by its view.
pub open spec fn read_view(r: Result<serde_json::Value, String>) -> Result<JsonView, Seq<char>> {
    match r {
        Ok(v) => Ok(value_view(v)),
        Err(e) => Err(e@),
    }
}

impl Node {
    /// The value that has this shape.
    spec fn view_spec(self) -> JsonView {
        match self {
            Node::Null => JsonView::Null,
            Node::Bool(b) => JsonView::Bool(b),
            Node::Number(u, i, s) => number_view(u, i, s@),
            Node::Text(s) => JsonView::Text(s@),
            Node::Array(v) => JsonView::Array(value_views(v@)),
            Node::Object(m) => JsonView::Object(map_view(m)),
        }
    }
}

/// Calls `serde_json::from_str` for a `Value`. What the text means, and how the
/// errors read, is named, not spelled out.
#[verifier::external_body]
fn read_value(text: &str) -> (r: Result<serde_json::Value, String>)
    ensures
        read_view(r) == json_value(text@),
{
    serde_json::from_str(text).map_err(|e| e.to_string())
}

/// Takes a `serde_json::Value` apart, variant by variant; a number by `as_u64`,
/// `as_i64` and its `to_string`.
#[verifier::external_body]
fn take_apart(value: serde_json::Value) -> (r: Node)
    ensures
        value_view(value) == r.view_spec(),
{
    match value {
        serde_json::Value::Null => Node::Null,
        serde_json::Value::Bool(b) => Node::Bool(b),
        serde_json::Value::Number(n) => Node::Number(n.as_u64(), n.as_i64(), n.to_string()),
        serde_json::Value::String(s) => Node::Text(s),
        serde_json::Value::Array(a) => Node::Array(a),
        serde_json::Value::Object(m) => Node::Object(m),
    }
}

/// Hands out the entries of a `serde_json::Map` by its `into_iter`: in the order
/// of their keys, each key once.
#[verifier::external_body]
fn map_entries(m: serde_json::Map<String, serde_json::Value>) -> (r: Vec<
    (String, serde_json::Value),
>)
    ensures
        entry_views(r@) == map_view(m),
        ordered(entry_views(r@)),
{
    m.into_iter().collect()
}

/// Makes the `null` of `serde_json`.
#[verifier::external_body]
fn make_null() -> (r: serde_json::Value)
    ensures
        value_view(r) == JsonView::Null,
{
    serde_json::Value::Null
}

/// Makes a truth value of `serde_json`.
#[verifier::external_body]
fn make_bool(b: bool) -> (r: serde_json::Value)
    ensures
        value_view(r) == JsonView::Bool(b),
{
    serde_json::Value::Bool(b)
}

/// Makes a number of `serde_json` from an unsigned integer.
#[verifier::external_body]
fn make_uint(n: u64) -> (r: serde_json::Value)
    ensures
        value_view(r) == JsonView::Uint(n),
{
    serde_json::Value::from(n)
}

/// Makes a number of `serde_json` from a signed integer: an unsigned one, where
/// it is not negative.
#[verifier::external_body]
fn make_int(n: i64) -> (r: serde_json::Value)
    ensures
        value_view(r) == int_view(n),
{
    serde_json::Value::from(n)
}

/// The value of a signed integer.
pub open spec fn int_view(n: i64) -> JsonView {
    if n < 0 {
        JsonView::Neg(n)
    } else {
        JsonView::Uint(n as u64)
    }
}

/// Makes a text of `serde_json`.
#[verifier::external_body]
fn make_text(s: String) -> (r: serde_json::Value)
    ensures
        value_view(r) == JsonView::Text(s@),
{
    serde_json::Value::String(s)
}

/// Makes an array of `serde_json`.
#[verifier::external_body]
fn make_array(v: Vec<serde_json::Value>) -> (r: serde_json::Value)
    ensures
        value_view(r) == JsonView::Array(value_views(v@)),
{
    serde_json::Value::Array(v)
}

/// Makes an object of `serde_json`.
#[verifier::external_body]
fn make_object(m: serde_json::Map<String, serde_json::Value>) -> (r: serde_json::Value)
    ensures
        value_view(r) == JsonView::Object(map_view(m)),
{
    serde_json::Value::Object(m)
}

/// Calls `serde_json::Map::new`, which gives a map without entries.
#[verifier::external_body]
fn map_new() -> (r: serde_json::Map<String, serde_json::Value>)
    ensures
        map_view(r) == Seq::<(Seq<char>, JsonView)>::empty(),
{
    serde_json::Map::new()
}

/// Calls `serde_json::Map::insert`: the entry for the key is overwritten, or a
/// new one takes its place in the order of the keys.
#[verifier::external_body]
fn map_insert(m: &mut serde_json::Map<String, serde_json::Value>, k: String, v: serde_json::Value)
    ensures
        map_view(*final(m)) == put_entry(map_view(*old(m)), k@, value_view(v)),
{
    m.insert(k, v);
}

/// Calls `to_string` on a `serde_json::Value`. Reading the text back gives the
/// value, for values without numbers that are kept as text, without the key that the
/// reader takes to announce JSON text, and not nested deeper than the reader follows.
#[verifier::external_body]
fn write_value(v: &serde_json::Value) -> (r: String)
    ensures
        r@ == json_text(value_view(*v)),
        plain(value_view(*v)) && shallow(value_view(*v), 100) ==> json_value(r@) == read_ok(
            value_view(*v),
        ),
{
    v.to_string()
}

/// Calls `serde_json::to_string_pretty` on a `Value`, which does not fail on one.
/// Reading the text back gives the value, as for `write_value`.
#[verifier::external_body]
fn write_value_pretty(v: &serde_json::Value) -> (r: String)
    ensures
        r@ == json_pretty_text(value_view(*v)),
        plain(value_view(*v)) && shallow(value_view(*v), 100) ==> json_value(r@) == read_ok(
            value_view(*v),
        ),
{
    serde_json::to_string_pretty(v).expect("a value has string keys")
}

/// What is written for a value: the members of each object in the order of their
/// keys, of several for one key the last, and a number kept as text as it reads.
pub open spec fn written(j: JsonView) -> JsonView
    decreases j, 0nat,
{
    match j {
        JsonView::Real(s) => match json_value(s) {
            Ok(v) => v,
            Err(_) => JsonView::Null,
        },
        JsonView::Neg(n) => int_view(n),
        JsonView::Array(s) => JsonView::Array(
            Seq::new(
                s.len(),
                |i: int|
                    if 0 <= i < s.len() {
                        written(s[i])
                    } else {
                        JsonView::Null
                    },
            ),
        ),
        JsonView::Object(e) => JsonView::Object(written_entries(e, e.len() as int)),
        _ => j,
    }
}

/// The entries that are written for the first `n`.
pub open spec fn written_entries(e: Seq<(Seq<char>, JsonView)>, n: int) -> Seq<
    (Seq<char>, JsonView),
>
    decreases e, n as nat,
{
    if n <= 0 || n > e.len() {
        Seq::empty()
    } else {
        put_entry(written_entries(e, n - 1), e[n - 1].0, written(e[n - 1].1))
    }
}

/// Whether every number that is marked as negative is.
pub open spec fn signs_ok(j: JsonView) -> bool
    decreases j,
{
    match j {
        JsonView::Neg(n) => n < 0,
        JsonView::Array(s) => forall|i: int| 0 <= i < s.len() ==> signs_ok(#[trigger] s[i]),
        JsonView::Object(e) => forall|i: int|
            0 <= i < e.len() ==> signs_ok((#[trigger] e[i]).1),
        _ => true,
    }
}

/// Ordered entries are written as they stand.
proof fn lemma_written_entries(e: Seq<(Seq<char>, JsonView)>, n: int)
    requires
        0 <= n <= e.len(),
        ordered(e),
        forall|i: int| 0 <= i < e.len() ==> plain((#[trigger] e[i]).1) && signs_ok(e[i].1),
    ensures
        written_entries(e, n) == e.take(n),
    decreases e, n as nat, 0nat,
{
    if n > 0 {
        lemma_written_entries(e, n - 1);
        let w = e.take(n - 1);
        let k = e[n - 1].0;
        lemma_written(e[n - 1].1);
        lemma_place(w, k, 0);
        let i = place(w, k, 0);
        if i < w.len() {
            assert(w[i] == e[i]);
            assert(text::lt_spec(e[i].0, e[n - 1].0));
        }
        assert(put_entry(w, k, e[n - 1].1) =~= e.take(n));
    } else {
        assert(e.take(0) =~= Seq::empty());
    }
}

/// A plain value is written as it is.
pub proof fn lemma_written(j: JsonView)
    requires
        plain(j),
        signs_ok(j),
    ensures
        written(j) == j,
    decreases j, 0nat, 0nat,
{
    match j {
        JsonView::Array(s) => {
            assert forall|i: int| 0 <= i < s.len() implies written(#[trigger] s[i]) == s[i] by {
                lemma_written(s[i]);
            }
            assert(written(j)->Array_0 =~= s);
        },
        JsonView::Object(e) => {
            lemma_written_entries(e, e.len() as int);
            assert(e.take(e.len() as int) =~= e);
        },
        _ => {},
    }
}

/// `put` keeps signs right.
pub proof fn lemma_put_signs(j: JsonView, k: Seq<char>, v: JsonView)
    requires
        signs_ok(j),
        signs_ok(v),
    ensures
        signs_ok(j.put(k, v)),
{
    reveal(JsonView::put);
    let e = match j {
        JsonView::Object(entries) => entries,
        _ => Seq::empty(),
    };
    let i = place(e, k, 0);
    let f = put_entry(e, k, v);
    lemma_place(e, k, 0);
    assert forall|a: int| 0 <= a < f.len() implies signs_ok((#[trigger] f[a]).1) by {
        if i < e.len() && e[i].0 == k {
            if a != i {
                assert(f[a] == e[a]);
            }
        } else {
            if a < i {
                assert(f[a] == e[a]);
            } else if a > i {
                assert(f[a] == e[a - 1]);
            }
        }
    }
}

/// Whether a value reads back from its text: it is plain, its signs are right and it
/// is not nested too deep.
pub open spec fn writable(j: JsonView) -> bool {
    plain(j) && signs_ok(j) && shallow(j, 100)
}

/// Whether a value can be a member of a writable one.
pub open spec fn writable_part(j: JsonView) -> bool {
    plain(j) && signs_ok(j) && shallow(j, 99)
}

/// `put` of a key other than [`RAW_KEY`] keeps a value writable.
pub proof fn lemma_put_writable(j: JsonView, k: Seq<char>, v: JsonView)
    requires
        k != RAW_KEY@,
        writable(j),
        writable_part(v),
    ensures
        writable(j.put(k, v)),
{
    law_put_plain(j, k, v);
    law_put_shallow(j, k, v, 100);
    lemma_put_signs(j, k, v);
}

/// The views of the two sides of a parse.
pub open spec fn parse_view(r: Result<Json, String>) -> Result<JsonView, Seq<char>> {
    match r {
        Ok(v) => Ok(v@),
        Err(e) => Err(e@),
    }
}

/// The value of a `serde_json::Value`.
fn from_value(value: serde_json::Value) -> (r: Json)
    ensures
        r@ == value_view(value),
    decreases value_view(value),
{
    match take_apart(value) {
        Node::Null => Json::Null,
        Node::Bool(b) => Json::Bool(b),
        Node::Number(Some(u), _, _) => Json::Uint(u),
        Node::Number(None, Some(i), _) => Json::Neg(i),
        Node::Number(None, None, s) => Json::Real(s),
        Node::Text(s) => Json::Text(s),
        Node::Array(a) => {
            let mut rest: Vec<serde_json::Value> = a;
            let ghost all = value_views(rest@);
            let mut back: Vec<Json> = Vec::new();
            while rest.len() > 0
                invariant
                    value_view(value) == JsonView::Array(all),
                    value_views(rest@) == all.take(rest@.len() as int),
                    rest@.len() + back@.len() == all.len(),
                    forall|k: int|
                        0 <= k < back@.len() ==> (#[trigger] back@[k])@ == all[all.len() - 1 - k],
                decreases rest@.len(),
            {
                let ghost n = rest@.len() as int;
                assert(value_views(rest@)[n - 1] == all[n - 1]);
                match rest.pop() {
                    Some(v) => {
                        assert(value_view(v) == all[n - 1]);
                        assert(decreases_to!(value_view(value) => value_view(value)->Array_0[n - 1]));
                        let j = from_value(v);
                        back.push(j);
                    },
                    None => {},
                }
                assert(value_views(rest@) =~= all.take(n - 1));
            }
            let r = Json::Array(reversed(back));
            assert(r@->Array_0 =~= all);
            r
        },
        Node::Object(m) => {
            let ghost all = map_view(m);
            let mut rest: Vec<(String, serde_json::Value)> = map_entries(m);
            let mut back: Vec<(String, Json)> = Vec::new();
            assert(entry_views(rest@) =~= all.take(rest@.len() as int));
            while rest.len() > 0
                invariant
                    value_view(value) == JsonView::Object(all),
                    entry_views(rest@) == all.take(rest@.len() as int),
                    rest@.len() + back@.len() == all.len(),
                    forall|k: int|
                        0 <= k < back@.len() ==> (#[trigger] back@[k]).0@ == all[all.len() - 1 - k].0
                            && back@[k].1@ == all[all.len() - 1 - k].1,
                decreases rest@.len(),
            {
                let ghost n = rest@.len() as int;
                assert(entry_views(rest@)[n - 1] == all[n - 1]);
                match rest.pop() {
                    Some((k, v)) => {
                        assert(value_view(v) == all[n - 1].1);
                        assert(decreases_to!(value_view(value) => value_view(value)->Object_0[n - 1].1));
                        let j = from_value(v);
                        back.push((k, j));
                    },
                    None => {},
                }
                assert(entry_views(rest@) =~= all.take(n - 1));
            }
            let r = Json::Object(reversed(back));
            assert(r@->Object_0 =~= all);
            r
        },
    }
}

/// The items of a vector from the last to the first.
fn reversed<T>(v: Vec<T>) -> (r: Vec<T>)
    ensures
        r@ == v@.reverse(),
{
    let mut v = v;
    let ghost all = v@;
    let mut out: Vec<T> = Vec::new();
    while v.len() > 0
        invariant
            v@ == all.take(v@.len() as int),
            v@.len() + out@.len() == all.len(),
            forall|k: int| 0 <= k < out@.len() ==> out@[k] == all[all.len() - 1 - k],
        decreases v@.len(),
    {
        match v.pop() {
            Some(x) => {
                out.push(x);
            },
            None => {},
        }
    }
    assert(out@ =~= all.reverse());
    out
}

/// What a JSON text means, or the text of the reader's error.
pub fn parse(text: &str) -> (r: Result<Json, String>)
    ensures
        parse_view(r) == json_value(text@),
{
    match read_value(text) {
        Ok(v) => Ok(from_value(v)),
        Err(e) => Err(e),
    }
}

impl Json {
    /// The `serde_json::Value` that is written for this value.
    fn to_value(&self) -> (r: serde_json::Value)
        ensures
            value_view(r) == written(self@),
        decreases self,
    {
        match self {
            Json::Null => make_null(),
            Json::Bool(b) => make_bool(*b),
            Json::Uint(n) => make_uint(*n),
            Json::Neg(n) => make_int(*n),
            Json::Real(s) => match read_value(s.as_str()) {
                Ok(v) => v,
                Err(_) => make_null(),
            },
            Json::Text(s) => make_text(s.clone()),
            Json::Array(v) => {
                let mut out: Vec<serde_json::Value> = Vec::new();
                let mut i: usize = 0;
                while i < v.len()
                    invariant
                        i <= v.len(),
                        out@.len() == i,
                        forall|k: int| 0 <= k < i ==> value_view(#[trigger] out@[k]) == written(v@[k]@),
                        self matches Json::Array(w) && w == v,
                    decreases v.len() - i,
                {
                    out.push(v[i].to_value());
                    i = i + 1;
                }
                assert(value_views(out@) =~= written(self@)->Array_0);
                make_array(out)
            },
            Json::Object(v) => {
                let mut m = map_new();
                let mut i: usize = 0;
                let ghost e = self@->Object_0;
                while i < v.len()
                    invariant
                        i <= v.len(),
                        e.len() == v@.len(),
                        e == self@->Object_0,
                        forall|k: int| 0 <= k < v@.len() ==> #[trigger] e[k] == (v@[k].0@, v@[k].1@),
                        map_view(m) == written_entries(e, i as int),
                        self matches Json::Object(w) && w == v,
                    decreases v.len() - i,
                {
                    let x = v[i].1.to_value();
                    assert(e[i as int] == (v@[i as int].0@, v@[i as int].1@));
                    map_insert(&mut m, v[i].0.clone(), x);
                    i = i + 1;
                }
                make_object(m)
            },
        }
    }

    /// The JSON text of the value. A writable value reads back from it.
    pub fn to_text(&self) -> (r: String)
        ensures
            r@ == json_text(written(self@)),
            writable(self@) ==> json_value(r@) == read_ok(self@),
    {
        let v = self.to_value();
        proof {
            if writable(self@) {
                lemma_written(self@);
            }
        }
        write_value(&v)
    }

    /// The indented JSON text of the value. A writable value reads back from it.
    pub fn to_pretty_text(&self) -> (r: String)
        ensures
            r@ == json_pretty_text(written(self@)),
            writable(self@) ==> json_value(r@) == read_ok(self@),
    {
        let v = self.to_value();
        proof {
            if writable(self@) {
                lemma_written(self@);
            }
        }
        write_value_pretty(&v)
    }

    /// A copy of the value.
    pub fn copy(&self) -> (r: Json)
        ensures
            r@ == self@,
        decreases self,
    {
        match self {
            Json::Null => Json::Null,
            Json::Bool(b) => Json::Bool(*b),
            Json::Uint(n) => Json::Uint(*n),
            Json::Neg(n) => Json::Neg(*n),
            Json::Real(s) => Json::Real(s.clone()),
            Json::Text(s) => Json::Text(s.clone()),
            Json::Array(v) => {
                let mut out: Vec<Json> = Vec::new();
                let mut i: usize = 0;
                while i < v.len()
                    invariant
                        i <= v.len(),
                        out@.len() == i,
                        forall|k: int| 0 <= k < i ==> (#[trigger] out@[k])@ == v@[k]@,
                        self matches Json::Array(w) && w == v,
                    decreases v.len() - i,
                {
                    out.push(v[i].copy());
                    i = i + 1;
                }
                let r = Json::Array(out);
                assert(r@->Array_0 =~= self@->Array_0);
                r
            },
            Json::Object(v) => {
                let mut out: Vec<(String, Json)> = Vec::new();
                let mut i: usize = 0;
                while i < v.len()
                    invariant
                        i <= v.len(),
                        out@.len() == i,
                        forall|k: int|
                            0 <= k < i ==> (#[trigger] out@[k]).0@ == v@[k].0@ && out@[k].1@
                                == v@[k].1@,
                        self matches Json::Object(w) && w == v,
                    decreases v.len() - i,
                {
                    out.push((v[i].0.clone(), v[i].1.copy()));
                    i = i + 1;
                }
                let r = Json::Object(out);
                assert(r@->Object_0 =~= self@->Object_0);
                r
            },
        }
    }

    /// The object without members.
    pub fn object() -> (r: Json)
        ensures
            r@ == JsonView::object(),
    {
        let r = Json::Object(Vec::new());
        assert(r@->Object_0 =~= Seq::empty());
        r
    }

    /// The object in which `key` has the given value. What was no object becomes one.
    pub fn put(self, key: &str, value: Json) -> (r: Json)
        ensures
            r@ == self@.put(key@, value@),
    {
        reveal(JsonView::put);
        let mut v: Vec<(String, Json)> = match self {
            Json::Object(v) => v,
            _ => Vec::new(),
        };
        let ghost entries = match self@ {
            JsonView::Object(e) => e,
            _ => Seq::empty(),
        };
        assert(json_view(Json::Object(v))->Object_0 =~= entries);
        let mut i: usize = 0;
        while i < v.len() && text::le(v[i].0.as_str(), key) && !text::same(v[i].0.as_str(), key)
            invariant
                i <= v.len(),
                entries.len() == v@.len(),
                forall|k: int| 0 <= k < v@.len() ==> #[trigger] entries[k] == (v@[k].0@, v@[k].1@),
                place(entries, key@, i as int) == place(entries, key@, 0),
            decreases v.len() - i,
        {
            assert(entries[i as int] == (v@[i as int].0@, v@[i as int].1@));
            i = i + 1;
        }
        if i < v.len() {
            assert(entries[i as int] == (v@[i as int].0@, v@[i as int].1@));
        }
        assert(place(entries, key@, 0) == i);
        if i < v.len() && text::same(v[i].0.as_str(), key) {
            v.set(i, (key.to_owned(), value));
            let r = Json::Object(v);
            assert(r@->Object_0 =~= entries.update(i as int, (key@, value@)));
            r
        } else {
            v.insert(i, (key.to_owned(), value));
            let r = Json::Object(v);
            assert(r@->Object_0 =~= entries.insert(i as int, (key@, value@)));
            r
        }
    }

    /// The object in which `key` has the given text.
    pub fn put_text(self, key: &str, s: &str) -> (r: Json)
        ensures
            r@ == self@.put_text(key@, s@),
    {
        self.put(key, Json::Text(s.to_owned()))
    }

    /// The object in which `key` has the given number.
    pub fn put_uint(self, key: &str, n: u64) -> (r: Json)
        ensures
            r@ == self@.put_uint(key@, n),
    {
        self.put(key, Json::Uint(n))
    }

    /// The object in which `key` has the given truth value.
    pub fn put_bool(self, key: &str, b: bool) -> (r: Json)
        ensures
            r@ == self@.put_bool(key@, b),
    {
        self.put(key, Json::Bool(b))
    }

    /// The object without the member `key`, and whether it had one.
    pub fn without(self, key: &str) -> (r: (Json, bool))
        ensures
            r.0@ == self@.without(key@),
            r.1 == (self@.field(key@) is Some),
    {
        match self {
            Json::Object(v) => {
                let ghost all = self@->Object_0;
                let ghost keep = |e: (Seq<char>, JsonView)| e.0 != key@;
                let mut rest: Vec<(String, Json)> = reversed(v);
                let mut out: Vec<(String, Json)> = Vec::new();
                let mut found: bool = false;
                assert(all.take(0).filter(keep) =~= Seq::empty()) by {
                    reveal(Seq::filter);
                }
                assert(json_view(Json::Object(out))->Object_0 =~= Seq::empty());
                while rest.len() > 0
                    invariant
                        rest@.len() <= all.len(),
                        forall|k: int|
                            0 <= k < rest@.len() ==> all[all.len() - 1 - k] == ((#[trigger] rest@[k]).0@, rest@[k].1@),
                        json_view(Json::Object(out))->Object_0 == all.take(all.len() - rest@.len()).filter(keep),
                        keep == (|e: (Seq<char>, JsonView)| e.0 != key@),
                        found || lookup(all, key@, 0) == lookup(all, key@, all.len() - rest@.len()),
                        found ==> lookup(all, key@, 0) is Some,
                    decreases rest@.len(),
                {
                    let ghost n = all.len() - rest@.len();
                    let ghost old_out = json_view(Json::Object(out))->Object_0;
                    assert(all[n] == (rest@[rest@.len() - 1].0@, rest@[rest@.len() - 1].1@));
                    assert(all.take(n + 1).filter(keep) == (if keep(all[n]) {
                        all.take(n).filter(keep).push(all[n])
                    } else {
                        all.take(n).filter(keep)
                    })) by {
                        reveal(Seq::filter);
                        assert(all.take(n + 1).drop_last() =~= all.take(n));
                    }
                    match rest.pop() {
                        Some((k, x)) => {
                            if text::same(k.as_str(), key) {
                                found = true;
                            } else {
                                out.push((k, x));
                                assert(json_view(Json::Object(out))->Object_0 =~= old_out.push(all[n]));
                            }
                        },
                        None => {},
                    }
                }
                assert(all.take(all.len() as int) =~= all);
                (Json::Object(out), found)
            },
            other => (other, false),
        }
    }

    /// The value of a member of an object.
    pub fn get(&self, key: &str) -> (r: Option<&Json>)
        ensures
            match r {
                Some(v) => self@.field(key@) == Some(v@),
                None => self@.field(key@) is None,
            },
    {
        match self {
            Json::Object(v) => {
                let ghost entries = self@->Object_0;
                let mut i: usize = 0;
                while i < v.len()
                    invariant
                        i <= v.len(),
                        entries.len() == v@.len(),
                        forall|k: int|
                            0 <= k < v@.len() ==> #[trigger] entries[k] == (v@[k].0@, v@[k].1@),
                        lookup(entries, key@, i as int) == lookup(entries, key@, 0),
                        self@.field(key@) == lookup(entries, key@, 0),
                    decreases v.len() - i,
                {
                    if text::same(v[i].0.as_str(), key) {
                        return Some(&v[i].1);
                    }
                    i = i + 1;
                }
                None
            },
            _ => None,
        }
    }

    /// The value as text.
    pub fn as_str(&self) -> (r: Option<&str>)
        ensures
            match r {
                Some(s) => self@.as_text() == Some(s@),
                None => self@.as_text() is None,
            },
    {
        match self {
            Json::Text(s) => Some(s.as_str()),
            _ => None,
        }
    }

    /// The value as an unsigned number.
    pub fn as_u64(&self) -> (r: Option<u64>)
        ensures
            r == self@.as_uint(),
    {
        match self {
            Json::Uint(n) => Some(*n),
            _ => None,
        }
    }

    /// The value as a signed number.
    pub fn as_i64(&self) -> (r: Option<i64>)
        ensures
            r == self@.as_int(),
    {
        match self {
            Json::Uint(n) => if *n <= 0x7fff_ffff_ffff_ffff {
                Some(*n as i64)
            } else {
                None
            },
            Json::Neg(n) => Some(*n),
            _ => None,
        }
    }

    /// The value as a truth value.
    pub fn as_bool(&self) -> (r: Option<bool>)
        ensures
            r == self@.as_truth(),
    {
        match self {
            Json::Bool(b) => Some(*b),
            _ => None,
        }
    }

    /// The text of a member.
    pub fn text(&self, key: &str) -> (r: Option<String>)
        ensures
            match r {
                Some(s) => self@.text(key@) == Some(s@),
                None => self@.text(key@) is None,
            },
    {
        match self.get(key) {
            Some(v) => match v.as_str() {
                Some(s) => Some(s.to_owned()),
                None => None,
            },
            None => None,
        }
    }

    /// Whether a member is the given text.
    pub fn is(&self, key: &str, value: &str) -> (r: bool)
        ensures
            r == self@.is(key@, value@),
    {
        match self.get(key) {
            Some(v) => match v.as_str() {
                Some(s) => text::same(s, value),
                None => false,
            },
            None => false,
        }
    }

    /// The text of a member, or `default` where it has none.
    pub fn text_or(&self, key: &str, default: &str) -> (r: String)
        ensures
            r@ == self@.text_or(key@, default@),
    {
        match self.text(key) {
            Some(s) => s,
            None => default.to_owned(),
        }
    }

    /// The unsigned number of a member.
    pub fn uint(&self, key: &str) -> (r: Option<u64>)
        ensures
            r == self@.uint(key@),
    {
        match self.get(key) {
            Some(v) => v.as_u64(),
            None => None,
        }
    }

    /// The unsigned number of a member, or `default` where it has none.
    pub fn uint_or(&self, key: &str, default: u64) -> (r: u64)
        ensures
            r == self@.uint_or(key@, default),
    {
        match self.uint(key) {
            Some(n) => n,
            None => default,
        }
    }

    /// The truth value of a member.
    pub fn truth(&self, key: &str) -> (r: Option<bool>)
        ensures
            r == self@.truth(key@),
    {
        match self.get(key) {
            Some(v) => v.as_bool(),
            None => None,
        }
    }

    /// The truth value of a member, or `default` where it has none.
    pub fn truth_or(&self, key: &str, default: bool) -> (r: bool)
        ensures
            r == self@.truth_or(key@, default),
    {
        match self.truth(key) {
            Some(b) => b,
            None => default,
        }
    }

    /// A copy of a member.
    pub fn member(&self, key: &str) -> (r: Option<Json>)
        ensures
            opt_view(r) == self@.field(key@),
    {
        match self.get(key) {
            Some(v) => Some(v.copy()),
            None => None,
        }
    }

    /// The values of an array member; none where it is no array.
    pub fn items(&self, key: &str) -> (r: &[Json])
        ensures
            json_views(r@) == self@.items(key@),
    {
        match self.get(key) {
            Some(Json::Array(v)) => {
                assert(json_views(v@) =~= json_view(Json::Array(*v))->Array_0);
                v.as_slice()
            },
            _ => {
                let none: &[Json] = &[];
                assert(json_views(none@) =~= Seq::empty());
                none
            },
        }
    }

    /// The array of the given values.
    pub fn array(v: Vec<Json>) -> (r: Json)
        ensures
            r@ == JsonView::Array(json_views(v@)),
    {
        let r = Json::Array(v);
        assert(r@->Array_0 =~= json_views(v@));
        r
    }

    /// The array of the given texts.
    pub fn texts(v: &[String]) -> (r: Json)
        ensures
            r@ == texts(text::views(v@)),
    {
        let mut out: Vec<Json> = Vec::new();
        let mut i: usize = 0;
        while i < v.len()
            invariant
                i <= v.len(),
                out@.len() == i,
                forall|k: int| 0 <= k < i ==> (#[trigger] out@[k])@ == JsonView::Text(v@[k]@),
            decreases v.len() - i,
        {
            out.push(Json::Text(v[i].clone()));
            i = i + 1;
        }
        let r = Json::Array(out);
        assert(r@->Array_0 =~= texts(text::views(v@))->Array_0);
        r
    }
}

/// The texts among the given values, in order.
pub open spec fn text_items(s: Seq<JsonView>) -> Seq<Seq<char>>
    decreases s.len(),
{
    if s.len() == 0 {
        Seq::empty()
    } else {
        match s.last() {
            JsonView::Text(t) => text_items(s.drop_last()).push(t),
            _ => text_items(s.drop_last()),
        }
    }
}

/// The texts among the given values, in order.
pub fn texts_of(v: &[Json]) -> (r: Vec<String>)
    ensures
        text::views(r@) == text_items(json_views(v@)),
{
    let mut out: Vec<String> = Vec::new();
    let mut i: usize = 0;
    let ghost all = json_views(v@);
    assert(text::views(out@) =~= text_items(all.take(0)));
    while i < v.len()
        invariant
            i <= v.len(),
            all == json_views(v@),
            text::views(out@) == text_items(all.take(i as int)),
        decreases v.len() - i,
    {
        let ghost old_out = text::views(out@);
        assert(all.take(i + 1).drop_last() =~= all.take(i as int));
        assert(all.take(i + 1).last() == v@[i as int]@);
        match &v[i] {
            Json::Text(s) => {
                out.push(s.clone());
                assert(text::views(out@) =~= old_out.push(s@));
            },
            _ => {},
        }
        i = i + 1;
    }
    assert(all.take(v@.len() as int) =~= all);
    out
}

/// Texts that were put in an array are its texts.
pub proof fn law_texts(v: Seq<Seq<char>>)
    ensures
        text_items(texts(v)->Array_0) == v,
        writable_part(texts(v)),
    decreases v.len(),
{
    reveal_with_fuel(plain, 2);
    reveal_with_fuel(signs_ok, 2);
    reveal_with_fuel(shallow, 2);
    if v.len() > 0 {
        law_texts(v.drop_last());
        assert(texts(v)->Array_0.drop_last() =~= texts(v.drop_last())->Array_0);
        assert(v =~= v.drop_last().push(v.last()));
    } else {
        assert(text_items(texts(v)->Array_0) =~= v);
    }
}

} // verus!
