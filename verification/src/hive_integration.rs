//! Messages between agents, on their way in and out: whose keys are used, where
//! room keys are kept and when they expire.

use vstd::prelude::*;

use crate::bytes;
use crate::clock;
use crate::clock::{SpanError, Timestamp};
use crate::config;
use crate::config::Config;
use crate::crypto;
use crate::hive;
use crate::hive::{DecryptError, EncryptedEnvelope, EncryptedRoomKey};
use crate::json;
use crate::json::{Json, JsonView};
use crate::text;

verus! {

/// What is known of another agent: its public key, and the id that outlives a
/// change of its name.
#[derive(Debug)]
pub struct AgentIdentity {
    pub public_key: [u8; 32],
    pub agent_id: String,
}

// ── Identities ──────────────────────────────────────────────────────

/// What a server's answer says of an agent.
pub open spec fn identity_spec(body: JsonView, agent_name: Seq<char>) -> Result<
    (Seq<u8>, Seq<char>),
    Seq<char>,
> {
    match body.text("wg_public_key"@) {
        None => Err("Missing wg_public_key in response"@),
        Some(k) => match crypto::b64_decoded(k) {
            Err(e) => Err("Invalid base64 in public key: "@ + e),
            Ok(b) => if b.len() == 32 {
                Ok((b, body.text_or("agent_id"@, agent_name)))
            } else {
                Err("Public key is not 32 bytes"@)
            },
        },
    }
}

/// What a server's answer says of an agent. An answer without an id falls back to
/// the name.
pub fn identity_of(body: &Json, agent_name: &str) -> (r: Result<AgentIdentity, String>)
    ensures
        match r {
            Ok(a) => identity_spec(body@, agent_name@) == Ok::<(Seq<u8>, Seq<char>), Seq<char>>(
                (a.public_key@, a.agent_id@),
            ),
            Err(e) => identity_spec(body@, agent_name@) == Err::<(Seq<u8>, Seq<char>), Seq<char>>(
                e@,
            ),
        },
{
    let key = match body.text("wg_public_key") {
        Some(k) => k,
        None => {
            return Err("Missing wg_public_key in response".to_owned());
        },
    };
    let agent_id = body.text_or("agent_id", agent_name);
    match crypto::b64_decode(key.as_str()) {
        Err(e) => Err(text::cat2("Invalid base64 in public key: ", e.as_str())),
        Ok(b) => match bytes::array32(b.as_slice()) {
            Some(public_key) => Ok(AgentIdentity { public_key, agent_id }),
            None => Err("Public key is not 32 bytes".to_owned()),
        },
    }
}

/// The URL that names an agent's public key.
pub fn public_key_url(api_url: &str, agent_name: &str) -> (r: String)
    ensures
        r@ == api_url@ + "/api/agents/"@ + agent_name@ + "/public-key"@,
{
    text::cat4(api_url, "/api/agents/", agent_name, "/public-key")
}

// ── Direct messages ─────────────────────────────────────────────────

/// The data that binds a message to its sender and its receiver.
pub open spec fn dm_aad(sender_id: Seq<char>, receiver_id: Seq<char>) -> Seq<u8> {
    vstd::utf8::encode_utf8(sender_id + ":"@ + receiver_id)
}

/// The data that binds a message to its sender and its receiver.
fn aad_of(sender_id: &str, receiver_id: &str) -> (r: Vec<u8>)
    ensures
        r@ == dm_aad(sender_id@, receiver_id@),
{
    let s = text::cat3(sender_id, ":", receiver_id);
    bytes::bytes_of(s.as_str())
}

/// What the receiver of a direct message reads, or why it cannot.
pub open spec fn dm_reading(
    envelope: Option<hive::EnvelopeView>,
    my_key: Option<Seq<u8>>,
    sender: Result<(Seq<u8>, Seq<char>), Seq<char>>,
    my_agent_id: Seq<char>,
    sender_name: Seq<char>,
    raw: Seq<char>,
) -> Result<Seq<char>, Seq<char>> {
    match envelope {
        None => Ok(raw),
        Some(e) => if !e.encrypted {
            Ok(raw)
        } else {
            match my_key {
                None => Err("WireGuard private key not found"@),
                Some(k) => match sender {
                    Err(m) => Err(m),
                    Ok((public, id)) => match hive::dm_plaintext(
                        e,
                        k,
                        public,
                        my_agent_id,
                        id,
                        dm_aad(id, my_agent_id),
                    ) {
                        Ok(b) => Ok(bytes::shown_text(b)),
                        Err(x) => Err(
                            "Decryption failed for message from "@ + sender_name + ": "@ + x.text(),
                        ),
                    },
                },
            }
        },
    }
}

/// Encrypts a direct message for an agent. It fails only without a key of one's own.
///
/// The agent, who knows the sender by its id and its public key, reads the text.
pub fn encrypt_dm_for_target(
    my_key: Option<&[u8; 32]>,
    their: &AgentIdentity,
    my_agent_id: &str,
    plaintext: &str,
) -> (r: Result<EncryptedEnvelope, String>)
    requires
        crypto::fits_cipher(vstd::utf8::encode_utf8(plaintext@).len()),
    ensures
        match my_key {
            None => r matches Err(e) && e@
                == "WireGuard private key not found — run `b3 setup` first"@,
            Some(k) => r matches Ok(e) && e@.encrypted && (exists|nonce: Seq<u8>|
                nonce.len() == 12 && e@ == #[trigger] hive::dm_envelope(
                    nonce,
                    vstd::utf8::encode_utf8(plaintext@),
                    k@,
                    their.public_key@,
                    my_agent_id@,
                    their.agent_id@,
                    dm_aad(my_agent_id@, their.agent_id@),
                )) && (forall|their_key: Seq<u8>, my_name: Seq<char>, raw: Seq<char>|
                their_key.len() == 32 && their.public_key@ == crypto::public_key(their_key)
                    ==> #[trigger] dm_reading(
                    Some(e@),
                    Some(their_key),
                    Ok((crypto::public_key(k@), my_agent_id@)),
                    their.agent_id@,
                    my_name,
                    raw,
                ) == Ok::<Seq<char>, Seq<char>>(plaintext@)),
        },
{
    match my_key {
        None => Err("WireGuard private key not found — run `b3 setup` first".to_owned()),
        Some(k) => {
            let aad = aad_of(my_agent_id, their.agent_id.as_str());
            let plain = bytes::bytes_of(plaintext);
            proof {
                bytes::law_shown_text(plaintext@);
            }
            Ok(
                hive::encrypt_dm(
                    plain.as_slice(),
                    k,
                    &their.public_key,
                    my_agent_id,
                    their.agent_id.as_str(),
                    aad.as_slice(),
                ),
            )
        },
    }
}

/// Encrypts a direct message for an agent with a key that is used once.
///
/// The agent reads the text, whatever public key it knows the sender by.
pub fn encrypt_dm_ephemeral_for_target(their: &AgentIdentity, my_agent_id: &str, plaintext: &str) -> (r:
    EncryptedEnvelope)
    requires
        crypto::fits_cipher(vstd::utf8::encode_utf8(plaintext@).len()),
    ensures
        r@.encrypted,
        exists|nonce: Seq<u8>, ephemeral: Seq<u8>|
            nonce.len() == 12 && ephemeral.len() == 32 && r@
                == #[trigger] hive::dm_ephemeral_envelope(
                nonce,
                ephemeral,
                vstd::utf8::encode_utf8(plaintext@),
                their.public_key@,
                my_agent_id@,
                their.agent_id@,
                dm_aad(my_agent_id@, their.agent_id@),
            ),
        forall|their_key: Seq<u8>, my_pub: Seq<u8>, my_name: Seq<char>, raw: Seq<char>|
            their_key.len() == 32 && their.public_key@ == crypto::public_key(their_key)
                ==> #[trigger] dm_reading(
                Some(r@),
                Some(their_key),
                Ok((my_pub, my_agent_id@)),
                their.agent_id@,
                my_name,
                raw,
            ) == Ok::<Seq<char>, Seq<char>>(plaintext@),
{
    let aad = aad_of(my_agent_id, their.agent_id.as_str());
    let plain = bytes::bytes_of(plaintext);
    proof {
        bytes::law_shown_text(plaintext@);
    }
    hive::encrypt_dm_ephemeral(
        plain.as_slice(),
        &their.public_key,
        my_agent_id,
        their.agent_id.as_str(),
        aad.as_slice(),
    )
}

/// Whether the sender's identity is needed to read a message.
pub fn needs_sender(envelope: Option<&EncryptedEnvelope>) -> (r: bool)
    ensures
        r == (envelope is Some && envelope.unwrap().encrypted),
{
    match envelope {
        Some(e) => e.encrypted,
        None => false,
    }
}

/// The view of an envelope that may be missing.
pub open spec fn opt_envelope(e: Option<&EncryptedEnvelope>) -> Option<hive::EnvelopeView> {
    match e {
        Some(x) => Some(x@),
        None => None,
    }
}

/// The view of a key that may be missing.
pub open spec fn opt_key(k: Option<&[u8; 32]>) -> Option<Seq<u8>> {
    match k {
        Some(x) => Some(x@),
        None => None,
    }
}

/// The view of an identity, or of the message in its place.
pub open spec fn identity_view(r: Result<&AgentIdentity, &str>) -> Result<
    (Seq<u8>, Seq<char>),
    Seq<char>,
> {
    match r {
        Ok(a) => Ok((a.public_key@, a.agent_id@)),
        Err(e) => Err(e@),
    }
}

/// The text of an incoming direct message. Text that is no envelope, or one that
/// is marked as plain, is taken as it is.
pub fn decrypt_dm_if_encrypted(
    envelope: Option<&EncryptedEnvelope>,
    my_key: Option<&[u8; 32]>,
    sender: Result<&AgentIdentity, &str>,
    my_agent_id: &str,
    sender_name: &str,
    raw_text: &str,
) -> (r: Result<String, String>)
    ensures
        text::result_view(r) == dm_reading(
            opt_envelope(envelope),
            opt_key(my_key),
            identity_view(sender),
            my_agent_id@,
            sender_name@,
            raw_text@,
        ),
{
    let e = match envelope {
        Some(e) => e,
        None => {
            return Ok(raw_text.to_owned());
        },
    };
    if !e.encrypted {
        return Ok(raw_text.to_owned());
    }
    let k = match my_key {
        Some(k) => k,
        None => {
            return Err("WireGuard private key not found".to_owned());
        },
    };
    let from = match sender {
        Ok(a) => a,
        Err(m) => {
            return Err(m.to_owned());
        },
    };
    let aad = aad_of(from.agent_id.as_str(), my_agent_id);
    match hive::decrypt_dm(
        e,
        k,
        &from.public_key,
        my_agent_id,
        from.agent_id.as_str(),
        aad.as_slice(),
    ) {
        Ok(b) => Ok(bytes::utf8_lossy(b.as_slice())),
        Err(x) => {
            let m = x.message();
            Err(text::cat4("Decryption failed for message from ", sender_name, ": ", m.as_str()))
        },
    }
}

// ── Room keys on disk ───────────────────────────────────────────────

/// What is known of a room: who created it, when its key expires, who is in it.
#[derive(Debug)]
pub struct RoomMeta {
    pub creator: String,
    pub expires_at: Option<String>,
    pub members: Vec<String>,
}

/// The mathematical value of a [`RoomMeta`].
#[verifier::ext_equal]
pub struct RoomMetaView {
    pub creator: Seq<char>,
    pub expires_at: Option<Seq<char>>,
    pub members: Seq<Seq<char>>,
}

impl View for RoomMeta {
    type V = RoomMetaView;

    open spec fn view(&self) -> RoomMetaView {
        RoomMetaView {
            creator: self.creator@,
            expires_at: config::opt_string(self.expires_at),
            members: text::views(self.members@),
        }
    }
}

/// The contents of the two files of a room.
#[derive(Debug)]
pub struct RoomFiles {
    pub key: String,
    pub meta: String,
}

/// What the meta file of a room records.
pub open spec fn meta_json(
    creator: Seq<char>,
    expires_at: Option<Seq<char>>,
    members: Seq<Seq<char>>,
) -> JsonView {
    let a = JsonView::object().put_text("creator"@, creator);
    let b = match expires_at {
        Some(e) => a.put_text("expires_at"@, e),
        None => a,
    };
    if members.len() > 0 {
        b.put("members"@, json::texts(members))
    } else {
        b
    }
}

/// What a meta file says, read as JSON.
pub open spec fn meta_of(j: JsonView) -> Option<RoomMetaView> {
    match j.text("creator"@) {
        None => None,
        Some(creator) => Some(
            RoomMetaView {
                creator,
                expires_at: j.text("expires_at"@),
                members: json::text_items(j.items("members"@)),
            },
        ),
    }
}

/// What the contents of a meta file say.
pub open spec fn stored_meta(contents: Option<Seq<char>>) -> Option<RoomMetaView> {
    match contents {
        None => None,
        Some(s) => match json::json_value(s) {
            Ok(j) => meta_of(j),
            Err(_) => None,
        },
    }
}

/// What is recorded of a room is what is read of it.
pub proof fn law_meta_round_trip(
    creator: Seq<char>,
    expires_at: Option<Seq<char>>,
    members: Seq<Seq<char>>,
)
    ensures
        meta_of(meta_json(creator, expires_at, members)) == Some(
            (RoomMetaView { creator, expires_at, members }),
        ),
        json::writable(meta_json(creator, expires_at, members)),
{
    let o = JsonView::object();
    let c = "creator"@;
    let x = "expires_at"@;
    let m = "members"@;
    reveal_strlit("creator");
    reveal_strlit("expires_at");
    reveal_strlit("members");
    assert(c != x && c != m && x != m) by {
        assert(c[0] != x[0] && c[0] != m[0] && x[0] != m[0]);
    }
    json::lemma_raw_key();
    assert(json::writable(o));
    let a = o.put_text(c, creator);
    json::lemma_put_writable(o, c, JsonView::Text(creator));
    json::law_put_get(o, c, JsonView::Text(creator), x);
    json::law_put_get(o, c, JsonView::Text(creator), m);
    assert(o.field(x) is None);
    assert(o.field(m) is None);
    let b = match expires_at {
        Some(e) => a.put_text(x, e),
        None => a,
    };
    match expires_at {
        Some(e) => {
            json::lemma_put_writable(a, x, JsonView::Text(e));
            json::law_put_get(a, x, JsonView::Text(e), c);
            json::law_put_get(a, x, JsonView::Text(e), m);
        },
        None => {},
    }
    if members.len() > 0 {
        json::law_texts(members);
        json::lemma_put_writable(b, m, json::texts(members));
        json::law_put_get(b, m, json::texts(members), c);
        json::law_put_get(b, m, json::texts(members), x);
    } else {
        assert(json::text_items(Seq::empty()) =~= members);
    }
}

/// What to write for a room key. Reading it back gives the key and what was
/// recorded with it.
pub fn store_room_key_with_members(
    room_key: &[u8; 32],
    creator: &str,
    expires_at: Option<&str>,
    members: &[String],
) -> (r: RoomFiles)
    ensures
        r.key@ == crypto::b64(room_key@),
        r.meta@ == json::json_text(
            meta_json(creator@, config::opt(expires_at), text::views(members@)),
        ),
        json::json_value(r.meta@) == json::read_ok(
            meta_json(creator@, config::opt(expires_at), text::views(members@)),
        ),
        config::key_of(Some(r.key@)) == Some(room_key@),
        stored_meta(Some(r.meta@)) == Some(
            (RoomMetaView {
                creator: creator@,
                expires_at: config::opt(expires_at),
                members: text::views(members@),
            }),
        ),
{
    let key = crypto::b64_encode(room_key.as_slice());
    proof {
        crypto::lemma_b64_trims(key@);
        law_meta_round_trip(creator@, config::opt(expires_at), text::views(members@));
    }
    let mut meta = Json::object().put_text("creator", creator);
    match expires_at {
        Some(e) => {
            meta = meta.put_text("expires_at", e);
        },
        None => {},
    }
    if members.len() > 0 {
        meta = meta.put("members", Json::texts(members));
    }
    proof {
        json::lemma_written(meta@);
    }
    RoomFiles { key, meta: meta.to_text() }
}

/// What to write for the key of a room whose members are not known.
pub fn store_room_key(room_key: &[u8; 32], creator: &str, expires_at: Option<&str>) -> (r: RoomFiles)
    ensures
        r.key@ == crypto::b64(room_key@),
        r.meta@ == json::json_text(
            meta_json(creator@, config::opt(expires_at), Seq::empty()),
        ),
        json::json_value(r.meta@) == json::read_ok(
            meta_json(creator@, config::opt(expires_at), Seq::empty()),
        ),
        config::key_of(Some(r.key@)) == Some(room_key@),
        stored_meta(Some(r.meta@)) == Some(
            (RoomMetaView {
                creator: creator@,
                expires_at: config::opt(expires_at),
                members: Seq::empty(),
            }),
        ),
{
    let none: Vec<String> = Vec::new();
    assert(text::views(none@) =~= Seq::empty());
    store_room_key_with_members(room_key, creator, expires_at, none.as_slice())
}

/// The key of a room, from the contents of its key file.
pub fn load_room_key(contents: Option<&str>) -> (r: Option<[u8; 32]>)
    ensures
        match r {
            Some(k) => config::key_of(config::opt(contents)) == Some(k@),
            None => config::key_of(config::opt(contents)) is None,
        },
{
    Config::load_wg_private_key(contents)
}

/// What a meta file says, read as JSON.
pub fn room_meta(j: &Json) -> (r: Option<RoomMeta>)
    ensures
        match r {
            Some(m) => meta_of(j@) == Some(m@),
            None => meta_of(j@) is None,
        },
{
    match j.text("creator") {
        None => None,
        Some(creator) => Some(
            RoomMeta {
                creator,
                expires_at: j.text("expires_at"),
                members: json::texts_of(j.items("members")),
            },
        ),
    }
}

/// What the contents of a meta file say.
pub fn load_room_meta_full(contents: Option<&str>) -> (r: Option<RoomMeta>)
    ensures
        match r {
            Some(m) => stored_meta(config::opt(contents)) == Some(m@),
            None => stored_meta(config::opt(contents)) is None,
        },
{
    match contents {
        None => None,
        Some(s) => match json::parse(s) {
            Ok(j) => room_meta(&j),
            Err(_) => None,
        },
    }
}

/// The creator of a room, from the contents of its meta file.
pub fn load_room_meta(contents: Option<&str>) -> (r: Option<String>)
    ensures
        match stored_meta(config::opt(contents)) {
            Some(m) => config::opt_string(r) == Some(m.creator),
            None => r is None,
        },
{
    match load_room_meta_full(contents) {
        Some(m) => Some(m.creator),
        None => None,
    }
}

/// The members of a room, from the contents of its meta file.
pub fn load_room_members(contents: Option<&str>) -> (r: Vec<String>)
    ensures
        text::views(r@) == (match stored_meta(config::opt(contents)) {
            Some(m) => m.members,
            None => Seq::empty(),
        }),
{
    match load_room_meta_full(contents) {
        Some(m) => m.members,
        None => {
            let none: Vec<String> = Vec::new();
            assert(text::views(none@) =~= Seq::empty());
            none
        },
    }
}

/// What a meta file records after the members were set: what it recorded
/// before, or nothing else where it could not be read.
pub open spec fn with_members(contents: Option<Seq<char>>, members: Seq<Seq<char>>) -> Option<
    JsonView,
> {
    match contents {
        None => Some(JsonView::object().put("members"@, json::texts(members))),
        Some(s) => match json::json_value(s) {
            Err(_) => Some(JsonView::object().put("members"@, json::texts(members))),
            Ok(j) => if j is Object || j is Null {
                Some(j.put("members"@, json::texts(members)))
            } else {
                None
            },
        },
    }
}

/// Members that are set in what is recorded of a room are read back in their order, and
/// leave its creator and its expiry as they were. What reads back from its text still
/// does.
pub proof fn law_members_set(j: JsonView, members: Seq<Seq<char>>)
    requires
        j is Object,
    ensures
        meta_of(j.put("members"@, json::texts(members))) == (match meta_of(j) {
            Some(m) => Some(RoomMetaView { members, ..m }),
            None => None,
        }),
        json::writable(j) ==> json::writable(j.put("members"@, json::texts(members))),
{
    let c = "creator"@;
    let x = "expires_at"@;
    let m = "members"@;
    reveal_strlit("creator");
    reveal_strlit("expires_at");
    reveal_strlit("members");
    assert(c[0] != m[0] && x[0] != m[0]);
    json::law_texts(members);
    json::law_put_get(j, m, json::texts(members), c);
    json::law_put_get(j, m, json::texts(members), x);
    json::law_put_get(j, m, json::texts(members), m);
    json::lemma_raw_key();
    if json::writable(j) {
        json::lemma_put_writable(j, m, json::texts(members));
    }
}

/// The members that are stored with a room, whose record a room key came with, are read
/// back in their order with the creator and the expiry of that record.
pub proof fn law_members_read_back(
    creator: Seq<char>,
    expires_at: Option<Seq<char>>,
    before: Seq<Seq<char>>,
    members: Seq<Seq<char>>,
)
    ensures
        ({
            let j = meta_json(creator, expires_at, before).put("members"@, json::texts(members));
            meta_of(j) == Some(RoomMetaView { creator, expires_at, members }) && json::writable(j)
        }),
{
    law_meta_round_trip(creator, expires_at, before);
    law_members_set(meta_json(creator, expires_at, before), members);
}

/// Whether a text is JSON that reads back when it is written again.
pub open spec fn rewritable(s: Seq<char>) -> bool {
    json::json_value(s) matches Ok(j) && json::writable(j)
}

/// The contents of a meta file after the members were set. There are none where
/// the file holds JSON that has no members at all, such as a number. The members are
/// read back from them, with the creator and the expiry from before.
pub fn store_room_members(contents: Option<&str>, members: &[String]) -> (r: Option<String>)
    ensures
        match with_members(config::opt(contents), text::views(members@)) {
            Some(j) => r matches Some(s) && s@ == json::json_text(json::written(j))
                && (json::writable(j) ==> json::json_value(s@) == json::read_ok(j)),
            None => r is None,
        },
        match stored_meta(config::opt(contents)) {
            Some(m) => rewritable(contents.unwrap()@) ==> stored_meta(config::opt_string(r)) == Some(
                (RoomMetaView { members: text::views(members@), ..m }),
            ),
            None => true,
        },
{
    let base = match contents {
        None => Json::object(),
        Some(s) => match json::parse(s) {
            Ok(j) => j,
            Err(_) => Json::object(),
        },
    };
    match &base {
        Json::Object(_) => {},
        Json::Null => {},
        _ => {
            return None;
        },
    }
    proof {
        if base@ is Object {
            law_members_set(base@, text::views(members@));
        }
    }
    let j = base.put("members", Json::texts(members));
    Some(j.to_text())
}

// ── Room messages ───────────────────────────────────────────────────

/// Why a room message is not encrypted.
#[derive(Debug)]
pub enum RoomRefusal {
    /// The key has expired and is to be deleted.
    Expired(String),
    NoKey(String),
}

/// When the key of a room has expired: the text of that time.
pub open spec fn expired(expires_at: Option<Seq<char>>, now: Timestamp) -> bool {
    match expires_at {
        None => false,
        Some(e) => match clock::rfc3339(e) {
            None => false,
            Some(t) => now.after_spec(t),
        },
    }
}

/// Whether a key has expired.
pub fn is_expired(expires_at: Option<&str>, now: Timestamp) -> (r: bool)
    ensures
        r == expired(config::opt(expires_at), now),
{
    match expires_at {
        None => false,
        Some(e) => match clock::parse_rfc3339(e) {
            None => false,
            Some(t) => now.after(&t),
        },
    }
}

/// The expiry that a meta file names.
pub open spec fn meta_expiry(meta: Option<Seq<char>>) -> Option<Seq<char>> {
    match stored_meta(meta) {
        Some(m) => m.expires_at,
        None => None,
    }
}

/// Encrypts a room message with the stored key, unless that has expired or is
/// missing. The key decrypts it to the text.
pub fn encrypt_room_message(
    room_id: &str,
    meta: Option<&str>,
    key: Option<&str>,
    now: Timestamp,
    plaintext: &str,
) -> (r: Result<EncryptedEnvelope, RoomRefusal>)
    requires
        crypto::fits_cipher(vstd::utf8::encode_utf8(plaintext@).len()),
    ensures
        ({
            let expiry = meta_expiry(config::opt(meta));
            if expired(expiry, now) {
                r matches Err(RoomRefusal::Expired(m)) && m@ == "Room key for "@ + room_id@
                    + " expired at "@ + expiry.unwrap() + " — key deleted"@
            } else {
                match config::key_of(config::opt(key)) {
                    None => r matches Err(RoomRefusal::NoKey(m)) && m@ == "No room key found for "@
                        + room_id@,
                    Some(k) => r matches Ok(e) && e@.encrypted && hive::room_plaintext(e@, k) == Ok::<
                        Seq<u8>,
                        DecryptError,
                    >(vstd::utf8::encode_utf8(plaintext@)) && exists|nonce: Seq<u8>|
                        nonce.len() == 12 && e@ == #[trigger] hive::room_envelope(
                            nonce,
                            vstd::utf8::encode_utf8(plaintext@),
                            k,
                        ),
                }
            }
        }),
{
    match load_room_meta_full(meta) {
        Some(m) => match &m.expires_at {
            Some(e) => {
                if is_expired(Some(e.as_str()), now) {
                    return Err(
                        RoomRefusal::Expired(
                            text::cat5(
                                "Room key for ",
                                room_id,
                                " expired at ",
                                e.as_str(),
                                " — key deleted",
                            ),
                        ),
                    );
                }
            },
            None => {},
        },
        None => {},
    }
    match load_room_key(key) {
        None => Err(RoomRefusal::NoKey(text::cat2("No room key found for ", room_id))),
        Some(k) => {
            let plain = bytes::bytes_of(plaintext);
            Ok(hive::encrypt_room_message(plain.as_slice(), &k))
        },
    }
}

/// What a member of a room reads.
pub open spec fn room_reading(
    room_id: Seq<char>,
    envelope: Option<hive::EnvelopeView>,
    key: Option<Seq<char>>,
    raw: Seq<char>,
) -> Seq<char> {
    match envelope {
        None => raw,
        Some(e) => if !e.encrypted {
            raw
        } else {
            match config::key_of(key) {
                None => "[encrypted — missing room key for "@ + room_id + "]"@,
                Some(k) => match hive::room_plaintext(e, k) {
                    Ok(b) => bytes::shown_text(b),
                    Err(x) => "[decryption failed: "@ + x.text() + "]"@,
                },
            }
        },
    }
}

/// The text of a room message. Text that is no envelope, or one that is marked as
/// plain, is taken as it is; what cannot be read is replaced by a notice.
pub fn decrypt_room_message_if_encrypted(
    room_id: &str,
    envelope: Option<&EncryptedEnvelope>,
    key: Option<&str>,
    raw_text: &str,
) -> (r: String)
    ensures
        r@ == room_reading(room_id@, opt_envelope(envelope), config::opt(key), raw_text@),
{
    let e = match envelope {
        Some(e) => e,
        None => {
            return raw_text.to_owned();
        },
    };
    if !e.encrypted {
        return raw_text.to_owned();
    }
    match load_room_key(key) {
        None => text::cat3("[encrypted — missing room key for ", room_id, "]"),
        Some(k) => match hive::decrypt_room_message(e, &k) {
            Ok(b) => bytes::utf8_lossy(b.as_slice()),
            Err(x) => {
                let m = x.message();
                text::cat3("[decryption failed: ", m.as_str(), "]")
            },
        },
    }
}

/// A message that was encrypted with the key of a room is read as its text by
/// whoever holds that key.
pub proof fn law_room_message_read(
    e: hive::EnvelopeView,
    room_key: Seq<u8>,
    plaintext: Seq<char>,
    room_id: Seq<char>,
    key: Seq<char>,
    raw: Seq<char>,
)
    requires
        e.encrypted,
        hive::room_plaintext(e, room_key) == Ok::<Seq<u8>, DecryptError>(
            vstd::utf8::encode_utf8(plaintext),
        ),
        config::key_of(Some(key)) == Some(room_key),
    ensures
        room_reading(room_id, Some(e), Some(key), raw) == plaintext,
{
    bytes::law_shown_text(plaintext);
}

// ── Handing out room keys ───────────────────────────────────────────

/// Whether a member gets a copy of the key: the sender does not.
pub open spec fn gets_key(member: Seq<char>, my_name: Seq<char>) -> bool {
    text::lowercase(member) != my_name
}

/// The members that get a copy of the key.
pub open spec fn key_members(members: Seq<Seq<char>>, my_name: Seq<char>) -> Seq<Seq<char>> {
    members.filter(|m: Seq<char>| gets_key(m, my_name))
}

/// The members that get a copy of the key.
pub fn members_to_key(members: &[String], my_name: &str) -> (r: Vec<String>)
    ensures
        text::views(r@) == key_members(text::views(members@), my_name@),
{
    let ghost all = text::views(members@);
    let ghost keep = |m: Seq<char>| gets_key(m, my_name@);
    let mut out: Vec<String> = Vec::new();
    let mut i: usize = 0;
    assert(all.take(0).filter(keep) =~= Seq::empty()) by {
        reveal(Seq::filter);
    }
    assert(text::views(out@) =~= Seq::empty());
    while i < members.len()
        invariant
            i <= members.len(),
            all == text::views(members@),
            keep == (|m: Seq<char>| gets_key(m, my_name@)),
            text::views(out@) == all.take(i as int).filter(keep),
        decreases members.len() - i,
    {
        let ghost before = text::views(out@);
        assert(all.take(i + 1).filter(keep) == (if keep(all[i as int]) {
            all.take(i as int).filter(keep).push(all[i as int])
        } else {
            all.take(i as int).filter(keep)
        })) by {
            reveal(Seq::filter);
            assert(all.take(i + 1).drop_last() =~= all.take(i as int));
        }
        let lower = text::to_lowercase(members[i].as_str());
        if !text::same(lower.as_str(), my_name) {
            out.push(members[i].clone());
            assert(text::views(out@) =~= before.push(all[i as int]));
        }
        i = i + 1;
    }
    assert(all.take(members@.len() as int) =~= all);
    out
}

/// Encrypts a room key for each of the given public keys. Each holder decrypts
/// its copy to the room key.
pub fn wrap_room_key(
    room_key: &[u8; 32],
    my_key: &[u8; 32],
    room_id: &str,
    identities: &[AgentIdentity],
) -> (r: Vec<EncryptedRoomKey>)
    ensures
        r@.len() == identities@.len(),
        forall|i: int, member_key: Seq<u8>|
            0 <= i < r@.len() && member_key.len() == 32 && identities@[i].public_key@
                == #[trigger] crypto::public_key(member_key) ==> hive::room_key_plaintext(
                (#[trigger] r@[i]).nonce@,
                r@[i].encrypted_key@,
                member_key,
                crypto::public_key(my_key@),
                room_id@,
            ) == Ok::<Seq<u8>, DecryptError>(room_key@),
{
    let mut out: Vec<EncryptedRoomKey> = Vec::new();
    let mut i: usize = 0;
    while i < identities.len()
        invariant
            i <= identities.len(),
            out@.len() == i,
            forall|k: int, member_key: Seq<u8>|
                0 <= k < i && member_key.len() == 32 && identities@[k].public_key@
                    == #[trigger] crypto::public_key(member_key) ==> hive::room_key_plaintext(
                    (#[trigger] out@[k]).nonce@,
                    out@[k].encrypted_key@,
                    member_key,
                    crypto::public_key(my_key@),
                    room_id@,
                ) == Ok::<Seq<u8>, DecryptError>(room_key@),
        decreases identities.len() - i,
    {
        out.push(hive::encrypt_room_key(room_key, my_key, &identities[i].public_key, room_id));
        i = i + 1;
    }
    out
}

/// The encrypted copy of a room key as JSON.
pub open spec fn room_key_json(k: EncryptedRoomKey) -> JsonView {
    JsonView::object().put_text("nonce"@, k.nonce@).put_text("encrypted_key"@, k.encrypted_key@)
}

/// The copies of the first `n` members, under their names in lower case.
pub open spec fn keys_json(
    members: Seq<Seq<char>>,
    keys: Seq<EncryptedRoomKey>,
    n: int,
) -> JsonView
    decreases n,
{
    if n <= 0 {
        JsonView::object()
    } else {
        keys_json(members, keys, n - 1).put(
            text::lowercase(members[n - 1]),
            room_key_json(keys[n - 1]),
        )
    }
}

/// The message that hands out a room key.
pub open spec fn distribution_json(
    room_id: Seq<char>,
    members: Seq<Seq<char>>,
    keys: Seq<EncryptedRoomKey>,
    expires_at: Option<Seq<char>>,
) -> JsonView {
    let p = JsonView::object().put_text("msg_type"@, "key_distribution"@).put_text(
        "room_id"@,
        room_id,
    ).put("keys"@, keys_json(members, keys, members.len() as int));
    match expires_at {
        Some(e) => p.put_text("expires_at"@, e),
        None => p,
    }
}

/// The message that hands out a room key: the copy for each member under its name
/// in lower case, of several for one name the last.
pub fn distribution(
    room_id: &str,
    members: &[String],
    keys: &[EncryptedRoomKey],
    expires_at: Option<&str>,
) -> (r: Json)
    requires
        members@.len() == keys@.len(),
    ensures
        r@ == distribution_json(room_id@, text::views(members@), keys@, config::opt(expires_at)),
{
    let mut map = Json::object();
    let mut i: usize = 0;
    while i < members.len()
        invariant
            i <= members.len(),
            members@.len() == keys@.len(),
            map@ == keys_json(text::views(members@), keys@, i as int),
        decreases members.len() - i,
    {
        let name = text::to_lowercase(members[i].as_str());
        let entry = Json::object().put_text("nonce", keys[i].nonce.as_str()).put_text(
            "encrypted_key",
            keys[i].encrypted_key.as_str(),
        );
        map = map.put(name.as_str(), entry);
        i = i + 1;
    }
    let p = Json::object().put_text("msg_type", "key_distribution").put_text(
        "room_id",
        room_id,
    ).put("keys", map);
    match expires_at {
        Some(e) => p.put_text("expires_at", e),
        None => p,
    }
}

/// A new room key: what to write for it, and the message that hands it out.
/// It fails only without a key of one's own.
pub fn generate_and_distribute_room_key(
    room_id: &str,
    my_name: &str,
    my_key: Option<&[u8; 32]>,
    members: &[String],
    identities: &[AgentIdentity],
    expires_at: Option<&str>,
) -> (r: Result<(RoomFiles, String), String>)
    requires
        members@.len() == identities@.len(),
    ensures
        match my_key {
            None => r matches Err(e) && e@ == "WireGuard private key not found"@,
            Some(k) => r matches Ok((files, message)) && distributes(
                files,
                message,
                room_id@,
                my_name@,
                k@,
                text::views(members@),
                identities@,
                config::opt(expires_at),
            ),
        },
{
    let k = match my_key {
        Some(k) => k,
        None => {
            return Err("WireGuard private key not found".to_owned());
        },
    };
    let room_key = hive::generate_room_key();
    let keys = wrap_room_key(&room_key, k, room_id, identities);
    let files = store_room_key(&room_key, my_name, expires_at);
    let payload = distribution(room_id, members, keys.as_slice(), expires_at);
    let message = payload.to_text();
    assert(handed_out(room_key@, keys@, room_id@, k@, identities@));
    Ok((files, message))
}

/// Whether the holder of each public key decrypts its copy to the room key.
pub open spec fn handed_out(
    room_key: Seq<u8>,
    keys: Seq<EncryptedRoomKey>,
    room_id: Seq<char>,
    my_key: Seq<u8>,
    identities: Seq<AgentIdentity>,
) -> bool {
    keys.len() == identities.len() && forall|i: int, member_key: Seq<u8>|
        0 <= i < keys.len() && member_key.len() == 32 && identities[i].public_key@
            == #[trigger] crypto::public_key(member_key) ==> hive::room_key_plaintext(
            (#[trigger] keys[i]).nonce@,
            keys[i].encrypted_key@,
            member_key,
            crypto::public_key(my_key),
            room_id,
        ) == Ok::<Seq<u8>, DecryptError>(room_key)
}

/// Whether the files and the message are those of one room key, which every
/// member can decrypt and which the files hold.
pub open spec fn distributes(
    files: RoomFiles,
    message: String,
    room_id: Seq<char>,
    my_name: Seq<char>,
    my_key: Seq<u8>,
    members: Seq<Seq<char>>,
    identities: Seq<AgentIdentity>,
    expires_at: Option<Seq<char>>,
) -> bool {
    exists|room_key: Seq<u8>, keys: Seq<EncryptedRoomKey>|
        {
            &&& #[trigger] handed_out(room_key, keys, room_id, my_key, identities)
            &&& config::key_of(Some(files.key@)) == Some(room_key)
            &&& stored_meta(Some(files.meta@)) == Some(
                (RoomMetaView { creator: my_name, expires_at, members: Seq::empty() }),
            )
            &&& message@ == json::json_text(
                json::written(distribution_json(room_id, members, keys, expires_at)),
            )
        }
}

/// What to write for a room key that its creator sent.
pub fn receive_room_key(
    room_id: &str,
    creator_name: &str,
    my_key: Option<&[u8; 32]>,
    creator: Result<&AgentIdentity, &str>,
    encrypted: &EncryptedRoomKey,
    expires_at: Option<&str>,
) -> (r: Result<RoomFiles, String>)
    ensures
        match my_key {
            None => r matches Err(e) && e@ == "WireGuard private key not found"@,
            Some(k) => match creator {
                Err(m) => r matches Err(e) && e@ == m@,
                Ok(a) => match hive::room_key_plaintext(
                    encrypted.nonce@,
                    encrypted.encrypted_key@,
                    k@,
                    a.public_key@,
                    room_id@,
                ) {
                    Err(x) => r matches Err(e) && e@ == "Failed to decrypt room key: "@ + x.text(),
                    Ok(room_key) => r matches Ok(files) && config::key_of(Some(files.key@)) == Some(
                        room_key,
                    ) && stored_meta(Some(files.meta@)) == Some(
                        (RoomMetaView {
                            creator: creator_name@,
                            expires_at: config::opt(expires_at),
                            members: Seq::empty(),
                        }),
                    ),
                },
            },
        },
{
    let k = match my_key {
        Some(k) => k,
        None => {
            return Err("WireGuard private key not found".to_owned());
        },
    };
    let from = match creator {
        Ok(a) => a,
        Err(m) => {
            return Err(m.to_owned());
        },
    };
    match hive::decrypt_room_key(encrypted, k, &from.public_key, room_id) {
        Err(x) => {
            let m = x.message();
            Err(text::cat2("Failed to decrypt room key: ", m.as_str()))
        },
        Ok(room_key) => Ok(store_room_key(&room_key, creator_name, expires_at)),
    }
}

// ── Expiry ──────────────────────────────────────────────────────────

/// The room that a file of room metadata is about.
pub open spec fn meta_file_room(name: Seq<char>) -> Option<Seq<char>> {
    if name.len() > 5 && text::ends_with_spec(name, ".meta"@) {
        Some(name.take(name.len() - 5))
    } else {
        None
    }
}

/// The expiry that the contents of a meta file name, whether or not they name a
/// creator.
pub open spec fn raw_expiry(contents: Seq<char>) -> Option<Seq<char>> {
    match json::json_value(contents) {
        Ok(j) => j.text("expires_at"@),
        Err(_) => None,
    }
}

/// The room whose key is to be deleted because of a file in the key directory.
pub open spec fn room_to_clean(name: Seq<char>, contents: Seq<char>, now: Timestamp) -> Option<
    Seq<char>,
> {
    match meta_file_room(name) {
        None => None,
        Some(room) => if expired(raw_expiry(contents), now) {
            Some(room)
        } else {
            None
        },
    }
}

/// The room whose key is to be deleted because of a file in the key directory:
/// that of a meta file whose time has passed.
pub fn expired_room(name: &str, contents: &str, now: Timestamp) -> (r: Option<String>)
    ensures
        config::opt_string(r) == room_to_clean(name@, contents@, now),
{
    let n: usize = name.unicode_len();
    if n <= 5 || !text::ends_with(name, ".meta") {
        return None;
    }
    let room = text::take(name, n - 5);
    match json::parse(contents) {
        Err(_) => None,
        Ok(j) => match j.text("expires_at") {
            None => None,
            Some(e) => if is_expired(Some(e.as_str()), now) {
                Some(room)
            } else {
                None
            },
        },
    }
}

/// The time, as RFC 3339 text, when a key that is to last for the given span from
/// now expires.
pub fn parse_expires_in(expires_in: &str, now: Timestamp) -> (r: Result<String, String>)
    requires
        clock::splits_off_last(expires_in@),
        clock::span_of(expires_in@) matches Some(span) ==> span.fits_after(now),
    ensures
        match clock::span_of(expires_in@) {
            Some(span) => r matches Ok(s) && s@ == clock::rfc3339_text(span.after(now)),
            None => r matches Err(e) && e@ == (if text::parse_i64_spec(
                clock::span_parts(expires_in@).0,
            ) is None {
                "Invalid expires_in format: "@ + expires_in@
                    + " (expected e.g. '1h', '24h', '7d')"@
            } else {
                "Unknown unit in expires_in: "@ + clock::span_parts(expires_in@).1
                    + " (expected s/m/h/d)"@
            }),
        },
{
    match clock::parse_span(expires_in) {
        Ok(span) => Ok(clock::span_after(&span, now)),
        Err(SpanError::Number) => Err(
            text::cat3(
                "Invalid expires_in format: ",
                expires_in,
                " (expected e.g. '1h', '24h', '7d')",
            ),
        ),
        Err(SpanError::Unit(u)) => Err(
            text::cat3("Unknown unit in expires_in: ", u.as_str(), " (expected s/m/h/d)"),
        ),
    }
}

// ── Messages for later ──────────────────────────────────────────────

/// The envelope of a message that a key opens later.
pub open spec fn timelock_json(nonce: Seq<u8>, ciphertext: Seq<u8>) -> JsonView {
    JsonView::object().put_bool("encrypted"@, true).put_uint("version"@, 1).put_text(
        "key_type"@,
        "timelock"@,
    ).put_text("nonce"@, crypto::b64(nonce)).put_text("content"@, crypto::b64(ciphertext))
}

/// What the bytes of an opened message say.
pub open spec fn timelock_text(b: Seq<u8>) -> Result<Seq<char>, Seq<char>> {
    if vstd::utf8::valid_utf8(b) {
        Ok(vstd::utf8::decode_utf8(b))
    } else {
        Err("Decrypted timelock message is not valid UTF-8: "@ + bytes::utf8_error(b))
    }
}

/// What the key, the nonce and the ciphertext of an envelope give.
pub open spec fn timelock_opened(
    key: Seq<char>,
    nonce: Seq<char>,
    content: Seq<char>,
) -> Result<Seq<char>, Seq<char>> {
    match crypto::b64_decoded(key) {
        Err(e) => Err("Invalid unlock key: "@ + e),
        Ok(k) => if k.len() != 32 {
            Err("Unlock key must be 32 bytes"@)
        } else {
            match crypto::b64_decoded(nonce) {
                Err(e) => Err("Invalid nonce: "@ + e),
                Ok(n) => if n.len() != 24 {
                    Err("Nonce must be 24 bytes"@)
                } else {
                    match crypto::b64_decoded(content) {
                        Err(e) => Err("Invalid ciphertext: "@ + e),
                        Ok(c) => if !crypto::fits_sealed(c.len()) {
                            Err("Timelock decryption failed (wrong key or tampered ciphertext)"@)
                        } else {
                            match crypto::x_opened(k, n, c) {
                                None => Err(
                                    "Timelock decryption failed (wrong key or tampered ciphertext)"@,
                                ),
                                Some(m) => timelock_text(m),
                            }
                        },
                    }
                },
            }
        },
    }
}

/// What an envelope and its key give.
pub open spec fn timelock_reading(j: JsonView, key: Seq<char>) -> Result<Seq<char>, Seq<char>> {
    if !j.is("key_type"@, "timelock"@) {
        Err("Not a timelock envelope"@)
    } else {
        match j.text("nonce"@) {
            None => Err("Missing nonce in timelock envelope"@),
            Some(n) => match j.text("content"@) {
                None => Err("Missing content in timelock envelope"@),
                Some(c) => timelock_opened(key, n, c),
            },
        }
    }
}

/// What the text of an envelope and its key give.
pub open spec fn timelock_decrypted(envelope: Seq<char>, key: Seq<char>) -> Result<
    Seq<char>,
    Seq<char>,
> {
    match json::json_value(envelope) {
        Err(e) => Err("Invalid timelock envelope: "@ + e),
        Ok(j) => timelock_reading(j, key),
    }
}

/// The members of a timelock envelope are what was put into it, and it reads back
/// from its text.
proof fn lemma_timelock_json(nonce: Seq<u8>, ciphertext: Seq<u8>)
    ensures
        timelock_json(nonce, ciphertext).is("key_type"@, "timelock"@),
        timelock_json(nonce, ciphertext).text("nonce"@) == Some(crypto::b64(nonce)),
        timelock_json(nonce, ciphertext).text("content"@) == Some(crypto::b64(ciphertext)),
        json::writable(timelock_json(nonce, ciphertext)),
{
    let kt = "key_type"@;
    let n = "nonce"@;
    let c = "content"@;
    reveal_strlit("key_type");
    reveal_strlit("nonce");
    reveal_strlit("content");
    reveal_strlit("encrypted");
    reveal_strlit("version");
    json::lemma_raw_key();
    assert(kt[0] != n[0] && kt[0] != c[0] && n[0] != c[0]);
    let o = JsonView::object();
    assert(json::writable(o));
    let j1 = o.put_bool("encrypted"@, true);
    json::lemma_put_writable(o, "encrypted"@, JsonView::Bool(true));
    let j2 = j1.put_uint("version"@, 1);
    json::lemma_put_writable(j1, "version"@, JsonView::Uint(1));
    let j3 = j2.put_text(kt, "timelock"@);
    json::lemma_put_writable(j2, kt, JsonView::Text("timelock"@));
    json::law_put_get(j2, kt, JsonView::Text("timelock"@), n);
    let j4 = j3.put_text(n, crypto::b64(nonce));
    json::lemma_put_writable(j3, n, JsonView::Text(crypto::b64(nonce)));
    json::law_put_get(j3, n, JsonView::Text(crypto::b64(nonce)), kt);
    let j5 = j4.put_text(c, crypto::b64(ciphertext));
    json::lemma_put_writable(j4, c, JsonView::Text(crypto::b64(ciphertext)));
    json::law_put_get(j4, c, JsonView::Text(crypto::b64(ciphertext)), kt);
    json::law_put_get(j4, c, JsonView::Text(crypto::b64(ciphertext)), n);
}

/// Encrypts a message for later under the given key and nonce, unless it is too long
/// for the cipher. The key decrypts the envelope to the text.
pub fn encrypt_timelock_with(key: &[u8; 32], nonce: &[u8], plaintext: &str) -> (r: Result<
    (String, String),
    String,
>)
    requires
        nonce@.len() == 24,
    ensures
        if crypto::fits_cipher(vstd::utf8::encode_utf8(plaintext@).len()) {
            r matches Ok((envelope, unlock)) && unlock@ == crypto::b64(key@) && envelope@
                == json::json_text(
                timelock_json(
                    nonce@,
                    crypto::x_sealed(key@, nonce@, vstd::utf8::encode_utf8(plaintext@)),
                ),
            ) && timelock_decrypted(envelope@, unlock@) == Ok::<Seq<char>, Seq<char>>(plaintext@)
        } else {
            r matches Err(e) && e@ == "Timelock encryption failed: aead::Error"@
        },
{
    let plain = bytes::bytes_of(plaintext);
    if !crypto::is_message(plain.len()) {
        return Err("Timelock encryption failed: aead::Error".to_owned());
    }
    let c = crypto::x_seal(key, nonce, plain.as_slice());
    let n64 = crypto::b64_encode(nonce);
    let c64 = crypto::b64_encode(c.as_slice());
    let envelope = Json::object().put_bool("encrypted", true).put_uint("version", 1).put_text(
        "key_type",
        "timelock",
    ).put_text("nonce", n64.as_str()).put_text("content", c64.as_str());
    proof {
        lemma_timelock_json(nonce@, c@);
        json::lemma_written(envelope@);
        vstd::utf8::encode_utf8_valid_utf8(plaintext@);
        vstd::utf8::encode_utf8_decode_utf8(plaintext@);
    }
    let envelope_text = envelope.to_text();
    let unlock = crypto::b64_encode(key.as_slice());
    Ok((envelope_text, unlock))
}

/// Encrypts a message for later under a random key: the envelope, and the key that
/// opens it. The key decrypts the envelope to the text.
pub fn encrypt_timelock(plaintext: &str) -> (r: Result<(String, String), String>)
    ensures
        if crypto::fits_cipher(vstd::utf8::encode_utf8(plaintext@).len()) {
            r matches Ok((envelope, unlock)) && timelock_decrypted(envelope@, unlock@) == Ok::<
                Seq<char>,
                Seq<char>,
            >(plaintext@) && sealed_for_later(envelope@, unlock@, plaintext@)
        } else {
            r matches Err(e) && e@ == "Timelock encryption failed: aead::Error"@
        },
{
    let key = hive::generate_room_key();
    let nonce = crypto::random_bytes(24);
    let r = encrypt_timelock_with(&key, nonce.as_slice(), plaintext);
    proof {
        if crypto::fits_cipher(vstd::utf8::encode_utf8(plaintext@).len()) {
            assert(later_envelope(key@, nonce@, plaintext@) == r->Ok_0.0@);
        }
    }
    r
}

/// The envelope of a message for later under a key and a nonce.
pub open spec fn later_envelope(key: Seq<u8>, nonce: Seq<u8>, plaintext: Seq<char>) -> Seq<char> {
    json::json_text(
        timelock_json(nonce, crypto::x_sealed(key, nonce, vstd::utf8::encode_utf8(plaintext))),
    )
}

/// Whether the envelope holds the text under the key that `unlock` spells.
pub open spec fn sealed_for_later(
    envelope: Seq<char>,
    unlock: Seq<char>,
    plaintext: Seq<char>,
) -> bool {
    exists|key: Seq<u8>, nonce: Seq<u8>|
        key.len() == 32 && nonce.len() == 24 && unlock == crypto::b64(key) && envelope
            == #[trigger] later_envelope(key, nonce, plaintext)
}

/// What an envelope and its key give.
pub fn open_timelock(envelope: &Json, unlock_key_b64: &str) -> (r: Result<String, String>)
    ensures
        text::result_view(r) == timelock_reading(envelope@, unlock_key_b64@),
{
    if !envelope.is("key_type", "timelock") {
        return Err("Not a timelock envelope".to_owned());
    }
    let nonce_b64 = match envelope.text("nonce") {
        Some(n) => n,
        None => {
            return Err("Missing nonce in timelock envelope".to_owned());
        },
    };
    let content_b64 = match envelope.text("content") {
        Some(c) => c,
        None => {
            return Err("Missing content in timelock envelope".to_owned());
        },
    };
    let key = match crypto::b64_decode(unlock_key_b64) {
        Ok(k) => k,
        Err(e) => {
            return Err(text::cat2("Invalid unlock key: ", e.as_str()));
        },
    };
    let key = match bytes::array32(key.as_slice()) {
        Some(k) => k,
        None => {
            return Err("Unlock key must be 32 bytes".to_owned());
        },
    };
    let nonce = match crypto::b64_decode(nonce_b64.as_str()) {
        Ok(n) => n,
        Err(e) => {
            return Err(text::cat2("Invalid nonce: ", e.as_str()));
        },
    };
    if nonce.len() != 24 {
        return Err("Nonce must be 24 bytes".to_owned());
    }
    let content = match crypto::b64_decode(content_b64.as_str()) {
        Ok(c) => c,
        Err(e) => {
            return Err(text::cat2("Invalid ciphertext: ", e.as_str()));
        },
    };
    if !crypto::is_sealed(content.len()) {
        return Err("Timelock decryption failed (wrong key or tampered ciphertext)".to_owned());
    }
    match crypto::x_open(&key, nonce.as_slice(), content.as_slice()) {
        None => Err(
            "Timelock decryption failed (wrong key or tampered ciphertext)".to_owned(),
        ),
        Some(m) => match bytes::utf8_text(m) {
            Ok(s) => Ok(s),
            Err(e) => Err(
                text::cat2("Decrypted timelock message is not valid UTF-8: ", e.as_str()),
            ),
        },
    }
}

/// What the text of an envelope and its key give.
pub fn decrypt_timelock(envelope_json: &str, unlock_key_b64: &str) -> (r: Result<String, String>)
    ensures
        text::result_view(r) == timelock_decrypted(envelope_json@, unlock_key_b64@),
{
    match json::parse(envelope_json) {
        Err(e) => Err(text::cat2("Invalid timelock envelope: ", e.as_str())),
        Ok(j) => open_timelock(&j, unlock_key_b64),
    }
}

// ── Laws ────────────────────────────────────────────────────────────

/// What is not sealed is read as it came.
pub proof fn law_plain_read(
    room_id: Seq<char>,
    e: hive::EnvelopeView,
    key: Option<Seq<char>>,
    raw: Seq<char>,
    sender: Result<(Seq<u8>, Seq<char>), Seq<char>>,
    my_key: Option<Seq<u8>>,
    my_id: Seq<char>,
    name: Seq<char>,
)
    requires
        !e.encrypted,
    ensures
        room_reading(room_id, None, key, raw) == raw,
        room_reading(room_id, Some(e), key, raw) == raw,
        dm_reading(None, my_key, sender, my_id, name, raw) == Ok::<Seq<char>, Seq<char>>(raw),
        dm_reading(Some(e), my_key, sender, my_id, name, raw) == Ok::<Seq<char>, Seq<char>>(raw),
{
}

/// What is sealed is never shown as it came: it is opened, or it is said why not.
pub proof fn law_sealed_opened(
    room_id: Seq<char>,
    e: hive::EnvelopeView,
    key: Seq<char>,
    k: Seq<u8>,
    b: Seq<u8>,
    raw: Seq<char>,
)
    requires
        e.encrypted,
        config::key_of(Some(key)) == Some(k),
        hive::room_plaintext(e, k) == Ok::<Seq<u8>, DecryptError>(b),
    ensures
        room_reading(room_id, Some(e), Some(key), raw) == bytes::shown_text(b),
        room_reading(room_id, Some(e), None, raw) == "[encrypted — missing room key for "@ + room_id
            + "]"@,
{
}

/// A sealed message between two agents is opened with the keys of the two.
pub proof fn law_dm_opened(
    e: hive::EnvelopeView,
    my_key: Seq<u8>,
    public: Seq<u8>,
    id: Seq<char>,
    my_id: Seq<char>,
    name: Seq<char>,
    raw: Seq<char>,
    b: Seq<u8>,
)
    requires
        e.encrypted,
        hive::dm_plaintext(e, my_key, public, my_id, id, dm_aad(id, my_id)) == Ok::<
            Seq<u8>,
            DecryptError,
        >(b),
    ensures
        dm_reading(Some(e), Some(my_key), Ok((public, id)), my_id, name, raw) == Ok::<
            Seq<char>,
            Seq<char>,
        >(bytes::shown_text(b)),
        dm_reading(Some(e), None, Ok((public, id)), my_id, name, raw) is Err,
{
}

/// A room without a time to end never ends; one with such a time ends after it.
pub proof fn law_rooms_end(end: Seq<char>, t: Timestamp, now: Timestamp)
    requires
        clock::rfc3339(end) == Some(t),
    ensures
        !expired(None, now),
        now.after_spec(t) ==> expired(Some(end), now),
        !now.after_spec(t) ==> !expired(Some(end), now),
{
}

/// A room whose time is over is cleaned away by the name of its file, and no other is.
pub proof fn law_ended_rooms_cleaned(
    room: Seq<char>,
    contents: Seq<char>,
    j: JsonView,
    end: Seq<char>,
    now: Timestamp,
)
    requires
        room.len() > 0,
        json::json_value(contents) == Ok::<JsonView, Seq<char>>(j),
        j.text("expires_at"@) == Some(end),
    ensures
        expired(Some(end), now) ==> room_to_clean(room + ".meta"@, contents, now) == Some(room),
        !expired(Some(end), now) ==> room_to_clean(room + ".meta"@, contents, now) is None,
{
    reveal_strlit(".meta");
    let name = room + ".meta"@;
    assert(name.skip(name.len() - 5) =~= ".meta"@);
    assert(name.take(name.len() - 5) =~= room);
}

/// Every member but oneself gets the key of a room.
pub proof fn law_members_get_key(members: Seq<Seq<char>>, my_name: Seq<char>, i: int)
    requires
        0 <= i < members.len(),
        text::lowercase(members[i]) != my_name,
    ensures
        key_members(members, my_name).contains(members[i]),
        forall|k: int|
            0 <= k < key_members(members, my_name).len() ==> text::lowercase(
                #[trigger] key_members(members, my_name)[k],
            ) != my_name,
{
    let p = |m: Seq<char>| gets_key(m, my_name);
    assert(p(members[i]));
    members.lemma_filter_contains(p, i);
    assert forall|k: int| 0 <= k < key_members(members, my_name).len() implies text::lowercase(
        #[trigger] key_members(members, my_name)[k],
    ) != my_name by {
        members.lemma_filter_pred(p, k);
    }
}

/// A key that is handed out names the room, and until when it holds.
pub proof fn law_key_handed_out(
    room_id: Seq<char>,
    members: Seq<Seq<char>>,
    keys: Seq<EncryptedRoomKey>,
    end: Seq<char>,
)
    ensures
        ({
            let j = distribution_json(room_id, members, keys, Some(end));
            &&& j.is("msg_type"@, "key_distribution"@)
            &&& j.text("room_id"@) == Some(room_id)
            &&& j.text("expires_at"@) == Some(end)
            &&& j.field("keys"@) == Some(keys_json(members, keys, members.len() as int))
        }),
        distribution_json(room_id, members, keys, None).field("expires_at"@) is None,
{
    broadcast use json::lemma_put_field;
    broadcast use json::lemma_object_field;

    reveal_strlit("msg_type");
    reveal_strlit("room_id");
    reveal_strlit("keys");
    reveal_strlit("expires_at");
    assert("msg_type"@.len() == 8 && "room_id"@.len() == 7 && "keys"@.len() == 4 && "expires_at"@.len() == 10);
}

/// A sealed message is bound to its sender and its receiver: it does not pass for one
/// between two others.
pub proof fn law_bound_to_both(a: Seq<char>, b: Seq<char>, c: Seq<char>, d: Seq<char>)
    requires
        text::lacks(a, ':'),
        text::lacks(c, ':'),
        dm_aad(a, b) == dm_aad(c, d),
    ensures
        a == c,
        b == d,
{
    reveal_strlit(":");
    assert(":"@ =~= seq![':']);
    let x = a + seq![':'] + b;
    let y = c + seq![':'] + d;
    vstd::utf8::encode_utf8_decode_utf8(x);
    vstd::utf8::encode_utf8_decode_utf8(y);
    assert(x == y);
    text::law_before(a, ':', b);
    text::law_before(c, ':', d);
    assert(x.skip(a.len() as int + 1) =~= b);
    assert(y.skip(c.len() as int + 1) =~= d);
}

} // verus!
