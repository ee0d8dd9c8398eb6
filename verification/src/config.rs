//! The agent's configuration, its files and its password.

use argon2::password_hash::{PasswordHasher as _, PasswordVerifier as _};
use rand::Rng as _;
use vstd::prelude::*;

use crate::bytes;
use crate::crypto;
use crate::paths;
use crate::text;

verus! {

/// The configuration of one agent.
#[derive(Debug, Clone)]
pub struct Config {
    pub agent_id: String,
    pub agent_email: String,
    pub api_key: String,
    pub api_url: String,
    pub wg_address: String,
    pub relay_endpoint: String,
    pub relay_public_key: String,
    pub push_interval_ms: u64,
    pub web_url: String,
    pub b3_version: String,
    pub servers: Vec<String>,
    pub auto_update: bool,
}

/// A directory on the way up from the working directory, and whether it holds
/// `.b3/config.json`.
#[derive(Debug, Clone)]
pub struct Ancestor {
    pub dir: String,
    pub has_config: bool,
}

/// Whether Argon2 accepts the password for the hash in PHC format.
pub uninterp spec fn argon2_accepts(password: Seq<char>, hash: Seq<char>) -> bool;

/// Whether the text names the parameter `p` at `i`.
pub open spec fn names_lanes(hash: Seq<char>, i: int) -> bool {
    0 <= i && i + 2 <= hash.len() && hash[i] == 'p' && hash[i + 1] == '='
}

/// Whether nine digits stand at `i`.
pub open spec fn nine_digits(hash: Seq<char>, i: int) -> bool {
    i + 9 <= hash.len() && forall|k: int| i <= k < i + 9 ==> '0' <= #[trigger] hash[k] <= '9'
}

/// Whether the last parameter `p` of a hash, its number of lanes, has more than eight
/// digits. Argon2 takes less than 2^24 lanes.
pub open spec fn too_many_lanes(hash: Seq<char>) -> bool {
    exists|i: int|
        #[trigger] names_lanes(hash, i) && nine_digits(hash, i + 2) && forall|j: int|
            i < j ==> !#[trigger] names_lanes(hash, j)
}

/// Calls `PasswordHash::new` and `verify_password` of `argon2` with its default
/// instance; a hash that is no PHC string accepts no password. One that asks for so many
/// lanes that their number overflows is left out.
#[verifier::external_body]
fn argon2_verify(password: &str, hash: &str) -> (r: bool)
    requires
        !too_many_lanes(hash@),
    ensures
        r == argon2_accepts(password@, hash@),
{
    match argon2::password_hash::PasswordHash::new(hash) {
        Ok(parsed) => {
            argon2::Argon2::default().verify_password(password.as_bytes(), &parsed).is_ok()
        },
        Err(_) => false,
    }
}

/// Calls `SaltString::generate` and `hash_password` of `argon2` with its default
/// instance, which takes passwords of less than 4 GiB. The hash is a PHC string
/// of printable characters that begins with the algorithm, its version and its
/// parameters, has no `=` behind them, and accepts the password; its salt is random, so
/// nothing more is fixed.
#[verifier::external_body]
fn argon2_hash(password: &str) -> (r: String)
    requires
        vstd::utf8::encode_utf8(password@).len() <= 0xffff_ffff,
    ensures
        text::starts_with_spec(r@, "$argon2id$v=19$m=19456,t=2,p=1$"@),
        argon2_accepts(password@, r@),
        forall|i: int| 0 <= i < r@.len() ==> !text::is_space(#[trigger] r@[i]),
        forall|i: int|
            "$argon2id$v=19$m=19456,t=2,p=1$"@.len() <= i < r@.len() ==> #[trigger] r@[i] != '=',
{
    let salt = argon2::password_hash::SaltString::generate(
        &mut argon2::password_hash::rand_core::OsRng,
    );
    argon2::Argon2::default().hash_password(password.as_bytes(), &salt).expect(
        "a password of this length",
    ).to_string()
}

/// Calls `gen_range` of `rand`'s thread generator for the numbers below `n`. Nothing but
/// the range is promised.
#[verifier::external_body]
fn random_below(n: u8) -> (r: u8)
    requires
        n > 0,
    ensures
        r < n,
{
    rand::thread_rng().gen_range(0..n)
}

// ── Models ──────────────────────────────────────────────────────────

/// `url` without the schemes `https://` and then `http://` in front.
pub open spec fn without_http(url: Seq<char>) -> Seq<char> {
    text::strip_all(text::strip_all(url, "https://"@), "http://"@)
}

/// The host that a URL names, without port and path.
pub open spec fn host_of(url: Seq<char>) -> Seq<char> {
    text::before(text::before(without_http(url), '/'), ':')
}

/// The part of an address before the `@`.
pub open spec fn name_of(email: Seq<char>) -> Seq<char> {
    text::before(email, '@')
}

/// The first ancestor at or after `i` that decides: it holds a configuration,
/// it is the home directory, or it is the last.
pub open spec fn found_ancestor(
    a: Seq<Ancestor>,
    home: Option<Seq<char>>,
    i: int,
) -> Option<Seq<char>>
    decreases a.len() - i,
{
    if i >= a.len() {
        None
    } else if a[i].has_config {
        Some(paths::joined(a[i].dir@, ".b3"@))
    } else if home == Some(a[i].dir@) {
        None
    } else {
        found_ancestor(a, home, i + 1)
    }
}

/// The configuration directory: the one that the launcher fixed, or that of the
/// nearest ancestor up to home that holds a configuration, or the one in home.
pub open spec fn resolved_dir(
    fork_dir: Option<Seq<char>>,
    ancestors: Seq<Ancestor>,
    home: Option<Seq<char>>,
) -> Option<Seq<char>> {
    match fork_dir {
        Some(d) => Some(d),
        None => match found_ancestor(ancestors, home, 0) {
            Some(d) => Some(d),
            None => match home {
                Some(h) => Some(paths::joined(h, ".b3"@)),
                None => None,
            },
        },
    }
}

/// The directory that setup pins: the `.b3` of the working directory, unless the
/// launcher fixed another or the working directory is home.
pub open spec fn setup_dir(
    fork_dir: Option<Seq<char>>,
    cwd: Option<Seq<char>>,
    ancestors: Seq<Ancestor>,
    home: Option<Seq<char>>,
) -> Option<Seq<char>> {
    let home_text = match home {
        Some(h) => h,
        None => Seq::empty(),
    };
    if fork_dir is None && cwd is Some && cwd.unwrap() != home_text {
        Some(paths::joined(cwd.unwrap(), ".b3"@))
    } else {
        resolved_dir(fork_dir, ancestors, home)
    }
}

/// The view of a text that may be missing.
pub open spec fn opt(s: Option<&str>) -> Option<Seq<char>> {
    match s {
        Some(t) => Some(t@),
        None => None,
    }
}

/// The view of a text that may be missing.
pub open spec fn opt_string(s: Option<String>) -> Option<Seq<char>> {
    match s {
        Some(t) => Some(t@),
        None => None,
    }
}

/// The first rule that a configuration breaks, as its message.
pub open spec fn config_error(c: Config) -> Option<Seq<char>> {
    if c.api_key@.len() == 0 {
        Some("api_key cannot be empty"@)
    } else if c.api_url@.len() == 0 {
        Some("api_url cannot be empty"@)
    } else if !text::starts_with_spec(c.api_url@, "http"@) {
        Some("api_url must be an HTTP(S) URL, got: "@ + c.api_url@)
    } else if c.push_interval_ms < 50 || c.push_interval_ms > 10_000 {
        Some("push_interval_ms must be 50-10000, got: "@ + text::decimal(c.push_interval_ms as nat))
    } else {
        None
    }
}

/// The port that the contents of a port file name.
pub open spec fn port_of(contents: Option<Seq<char>>) -> Option<nat> {
    match contents {
        Some(s) => text::parse_unsigned(text::trim_spec(s), 0xffff),
        None => None,
    }
}

/// The hash that the contents of the password file hold.
pub open spec fn stored_hash(contents: Option<Seq<char>>) -> Option<Seq<char>> {
    match contents {
        Some(s) => if text::trim_spec(s).len() > 0 {
            Some(text::trim_spec(s))
        } else {
            None
        },
        None => None,
    }
}

/// Whether a hash lets a password in. One with too many lanes lets none in.
pub open spec fn password_ok(password: Seq<char>, hash: Seq<char>) -> bool {
    text::starts_with_spec(hash, "$argon2"@) && !too_many_lanes(hash) && argon2_accepts(
        password,
        hash,
    )
}

/// Whether a hash asks for too many lanes.
fn has_too_many_lanes(hash: &str) -> (r: bool)
    ensures
        r == too_many_lanes(hash@),
{
    let x = text::chars_of(hash);
    let mut i: usize = x.len();
    while i > 0
        invariant
            i <= x@.len(),
            x@ == hash@,
            forall|j: int| i <= j ==> !#[trigger] names_lanes(hash@, j),
        decreases i,
    {
        i = i - 1;
        if x.len() - i >= 2 && x[i] == 'p' && x[i + 1] == '=' {
            assert(names_lanes(hash@, i as int));
            if x.len() - i < 11 {
                assert(!nine_digits(hash@, i + 2));
                return false;
            }
            let end: usize = i + 11;
            let mut k: usize = i + 2;
            while k < end
                invariant
                    end == i + 11,
                    i + 2 <= k <= end <= x@.len(),
                    x@ == hash@,
                    names_lanes(hash@, i as int),
                    forall|j: int| i < j ==> !#[trigger] names_lanes(hash@, j),
                    forall|j: int| i + 2 <= j < k ==> '0' <= #[trigger] hash@[j] <= '9',
                decreases end - k,
            {
                if x[k] < '0' || x[k] > '9' {
                    assert(hash@[k as int] == x@[k as int]);
                    assert(!nine_digits(hash@, i + 2));
                    return false;
                }
                k = k + 1;
            }
            assert(nine_digits(hash@, i + 2));
            return true;
        }
    }
    false
}

/// The character of a generated password for an index below 36.
pub open spec fn password_char(i: u8) -> char {
    if i < 10 {
        (48 + i) as char
    } else {
        (97 + i - 10) as char
    }
}

/// Whether a text is a password as they are generated: eight lower-case letters
/// and digits.
pub open spec fn generated_password(s: Seq<char>) -> bool {
    &&& s.len() == 8
    &&& forall|i: int| 0 <= i < 8 ==> ('0' <= #[trigger] s[i] <= '9' || 'a' <= s[i] <= 'z')
}

/// The 32 bytes of a base64 key file.
pub open spec fn key_of(contents: Option<Seq<char>>) -> Option<Seq<u8>> {
    match contents {
        Some(s) => match crypto::b64_decoded(text::trim_spec(s)) {
            Ok(b) => if b.len() == 32 {
                Some(b)
            } else {
                None
            },
            Err(_) => None,
        },
        None => None,
    }
}

// ── Operations ──────────────────────────────────────────────────────

/// The host that a URL names, without port and path.
pub fn host(url: &str) -> (r: String)
    ensures
        r@ == host_of(url@),
{
    let a = text::trim_start_matches(url, "https://");
    let b = text::trim_start_matches(a.as_str(), "http://");
    let c = text::before_first(b.as_str(), '/');
    text::before_first(c.as_str(), ':')
}

/// The characters of a generated password.
pub fn password_of(indices: &[u8]) -> (r: String)
    requires
        forall|i: int| 0 <= i < indices@.len() ==> #[trigger] indices@[i] < 36,
    ensures
        r@ == indices@.map_values(|i: u8| password_char(i)),
{
    let mut s: String = String::new();
    let mut i: usize = 0;
    while i < indices.len()
        invariant
            i <= indices.len(),
            forall|k: int| 0 <= k < indices@.len() ==> #[trigger] indices@[k] < 36,
            s@ == indices@.take(i as int).map_values(|x: u8| password_char(x)),
        decreases indices.len() - i,
    {
        let x: u8 = indices[i];
        assert(indices@[i as int] < 36);
        if x < 10 {
            s.push((48 + x) as char);
        } else {
            s.push((97 + (x - 10)) as char);
        }
        i = i + 1;
        assert(s@ =~= indices@.take(i as int).map_values(|x: u8| password_char(x)));
    }
    assert(indices@.take(indices@.len() as int) =~= indices@);
    s
}

impl Config {
    /// The host of the server, without scheme, port and path.
    pub fn server_domain(&self) -> (r: String)
        ensures
            r@ == host_of(self.api_url@),
    {
        host(self.api_url.as_str())
    }

    /// The configuration directory. `ancestors` leads from the working directory
    /// up to the root; it is empty where the working directory is not known.
    pub fn resolve_config_dir(fork_dir: Option<&str>, ancestors: &[Ancestor], home: Option<&str>) -> (r:
        String)
        requires
            resolved_dir(opt(fork_dir), ancestors@, opt(home)) is Some,
        ensures
            resolved_dir(opt(fork_dir), ancestors@, opt(home)) == Some(r@),
    {
        match fork_dir {
            Some(d) => {
                return d.to_owned();
            },
            None => {},
        }
        let mut i: usize = 0;
        let mut at_home: bool = false;
        while i < ancestors.len() && !at_home
            invariant
                i <= ancestors.len(),
                fork_dir is None,
                !at_home ==> found_ancestor(ancestors@, opt(home), i as int) == found_ancestor(
                    ancestors@,
                    opt(home),
                    0,
                ),
                at_home ==> found_ancestor(ancestors@, opt(home), 0) is None,
            decreases ancestors.len() - i,
        {
            if ancestors[i].has_config {
                return paths::join(ancestors[i].dir.as_str(), ".b3");
            }
            match home {
                Some(h) => {
                    if text::same(ancestors[i].dir.as_str(), h) {
                        at_home = true;
                    }
                },
                None => {},
            }
            i = i + 1;
        }
        match home {
            Some(h) => paths::join(h, ".b3"),
            None => String::new(),
        }
    }

    /// The configuration directory of this process: the one that was pinned, or
    /// the resolved one.
    pub fn config_dir(
        pinned: Option<&str>,
        fork_dir: Option<&str>,
        ancestors: &[Ancestor],
        home: Option<&str>,
    ) -> (r: String)
        requires
            pinned is None ==> resolved_dir(opt(fork_dir), ancestors@, opt(home)) is Some,
        ensures
            match pinned {
                Some(p) => r@ == p@,
                None => resolved_dir(opt(fork_dir), ancestors@, opt(home)) == Some(r@),
            },
    {
        match pinned {
            Some(p) => p.to_owned(),
            None => Self::resolve_config_dir(fork_dir, ancestors, home),
        }
    }

    /// The directory that `b3 setup` pins: the `.b3` of the working directory,
    /// unless the launcher fixed another or the agent is set up in home.
    pub fn init_for_setup(
        fork_dir: Option<&str>,
        cwd: Option<&str>,
        ancestors: &[Ancestor],
        home: Option<&str>,
    ) -> (r: String)
        requires
            setup_dir(opt(fork_dir), opt(cwd), ancestors@, opt(home)) is Some,
        ensures
            setup_dir(opt(fork_dir), opt(cwd), ancestors@, opt(home)) == Some(r@),
    {
        if fork_dir.is_none() {
            match cwd {
                Some(c) => {
                    let at_home: bool = match home {
                        Some(h) => text::same(c, h),
                        None => c.unicode_len() == 0,
                    };
                    assert(home is None ==> (c@.len() == 0 <==> c@ =~= Seq::empty()));
                    if !at_home {
                        return paths::join(c, ".b3");
                    }
                },
                None => {},
            }
        }
        Self::resolve_config_dir(fork_dir, ancestors, home)
    }

    /// The path of the configuration file.
    pub fn config_path(dir: &str) -> (r: String)
        ensures
            r@ == paths::joined(dir@, "config.json"@),
    {
        paths::join(dir, "config.json")
    }

    /// The directory for this agent's runtime files.
    pub fn agent_dir(&self, dir: &str) -> (r: String)
        ensures
            r@ == paths::joined(paths::joined(dir@, "agents"@), name_of(self.agent_email@)),
    {
        let slug = text::before_first(self.agent_email.as_str(), '@');
        let agents = paths::join(dir, "agents");
        paths::join(agents.as_str(), slug.as_str())
    }

    /// The path of the file that holds the port of this agent's dashboard.
    pub fn dashboard_port_file(&self, dir: &str) -> (r: String)
        ensures
            r@ == paths::joined(
                paths::joined(paths::joined(dir@, "agents"@), name_of(self.agent_email@)),
                "dashboard.port"@,
            ),
    {
        let d = self.agent_dir(dir);
        paths::join(d.as_str(), "dashboard.port")
    }

    /// The port of the dashboard, from the contents of the port file.
    pub fn dashboard_port(contents: Option<&str>) -> (r: Option<u16>)
        ensures
            match r {
                Some(p) => port_of(opt(contents)) == Some(p as nat),
                None => port_of(opt(contents)) is None,
            },
    {
        match contents {
            Some(s) => {
                let t = text::trim(s);
                match text::parse_number(t.as_str(), 0xffff) {
                    Some(n) => Some(n as u16),
                    None => None,
                }
            },
            None => None,
        }
    }

    /// The URL that injects text into the running daemon, from the contents of
    /// the port file.
    pub fn inject_url(contents: Option<&str>) -> (r: Option<String>)
        ensures
            match port_of(opt(contents)) {
                Some(p) => opt_string(r) == Some(
                    "http://127.0.0.1:"@ + text::decimal(p) + "/api/inject"@,
                ),
                None => r is None,
            },
    {
        match Self::dashboard_port(contents) {
            Some(p) => {
                let d = text::to_decimal(p as u64);
                Some(text::cat3("http://127.0.0.1:", d.as_str(), "/api/inject"))
            },
            None => None,
        }
    }

    /// Checks the values; the error is the message of the first rule that is broken.
    pub fn validate(&self) -> (r: Result<(), String>)
        ensures
            match r {
                Ok(_) => config_error(*self) is None,
                Err(e) => config_error(*self) == Some(e@),
            },
    {
        if self.api_key.as_str().is_empty() {
            Err("api_key cannot be empty".to_owned())
        } else if self.api_url.as_str().is_empty() {
            Err("api_url cannot be empty".to_owned())
        } else if !text::starts_with(self.api_url.as_str(), "http") {
            Err(text::cat2("api_url must be an HTTP(S) URL, got: ", self.api_url.as_str()))
        } else if self.push_interval_ms < 50 || self.push_interval_ms > 10_000 {
            let n = text::to_decimal(self.push_interval_ms);
            Err(text::cat2("push_interval_ms must be 50-10000, got: ", n.as_str()))
        } else {
            Ok(())
        }
    }

    /// The path of the password file.
    pub fn daemon_password_path(dir: &str) -> (r: String)
        ensures
            r@ == paths::joined(dir@, "daemon_password"@),
    {
        paths::join(dir, "daemon_password")
    }

    /// The password hash, from the contents of the password file.
    pub fn load_daemon_password_hash(contents: Option<&str>) -> (r: Option<String>)
        ensures
            opt_string(r) == stored_hash(opt(contents)),
    {
        match contents {
            Some(s) => {
                let t = text::trim(s);
                if t.as_str().is_empty() {
                    None
                } else {
                    Some(t)
                }
            },
            None => None,
        }
    }

    /// A random password of eight lower-case letters and digits.
    pub fn generate_daemon_password() -> (r: String)
        ensures
            generated_password(r@),
    {
        let mut v: Vec<u8> = Vec::new();
        while v.len() < 8
            invariant
                v@.len() <= 8,
                forall|i: int| 0 <= i < v@.len() ==> #[trigger] v@[i] < 36,
            decreases 8 - v@.len(),
        {
            v.push(random_below(36));
        }
        let s = password_of(v.as_slice());
        assert forall|i: int| 0 <= i < 8 implies ('0' <= #[trigger] s@[i] <= '9' || 'a' <= s@[i]
            <= 'z') by {
            assert(v@[i] < 36);
            assert(s@[i] == password_char(v@[i]));
        }
        s
    }

    /// Hashes a password by Argon2id with a random salt. The hash lets the password in.
    pub fn hash_daemon_password(password: &str) -> (r: String)
        requires
            vstd::utf8::encode_utf8(password@).len() <= 0xffff_ffff,
        ensures
            text::starts_with_spec(r@, "$argon2id$v=19$m=19456,t=2,p=1$"@),
            password_ok(password@, r@),
            stored_hash(Some(r@)) == Some(r@),
    {
        let r = argon2_hash(password);
        proof {
            text::lemma_trim_nothing(r@);
            reveal_strlit("$argon2");
            reveal_strlit("$argon2id$v=19$m=19456,t=2,p=1$");
            let p = "$argon2id$v=19$m=19456,t=2,p=1$"@;
            assert(p.take(7) =~= "$argon2"@);
            assert(r@.take(7) =~= r@.take(p.len() as int).take(7));
            assert forall|i: int| #[trigger] names_lanes(r@, i) implies !nine_digits(r@, i + 2) by {
                let head = r@.take(p.len() as int);
                assert(i + 1 < p.len());
                assert(head[i] == r@[i] && head[i + 1] == r@[i + 1]);
                assert(p[i] == 'p' && p[i + 1] == '=');
                assert(i + 4 == p.len());
                assert(head[i + 3] == r@[i + 3]);
            }
        }
        r
    }

    /// Whether a stored hash lets a password in. A hash in another format, or with more
    /// lanes than Argon2 takes, lets none in.
    pub fn verify_daemon_password(password: &str, hash: &str) -> (r: bool)
        ensures
            r == password_ok(password@, hash@),
    {
        if text::starts_with(hash, "$argon2") && !has_too_many_lanes(hash) {
            argon2_verify(password, hash)
        } else {
            false
        }
    }

    /// Sees to it that there is a password. With one in the password file, the
    /// result is empty and `false`. Otherwise it is a new password, `true`, and
    /// the hash to store, which lets that password in.
    pub fn ensure_daemon_password(contents: Option<&str>) -> (r: (String, bool, Option<String>))
        ensures
            match stored_hash(opt(contents)) {
                Some(_) => r.0@.len() == 0 && !r.1 && r.2 is None,
                None => generated_password(r.0@) && r.1 && (match r.2 {
                    Some(h) => password_ok(r.0@, h@) && stored_hash(Some(h@)) == Some(h@),
                    None => false,
                }),
            },
    {
        match Self::load_daemon_password_hash(contents) {
            Some(_) => (String::new(), false, None),
            None => {
                let password = Self::generate_daemon_password();
                proof {
                    assert forall|i: int| 0 <= i < password@.len() implies (password@[i] as u32) < 128 by {
                        assert('0' <= password@[i] <= '9' || 'a' <= password@[i] <= 'z');
                    }
                    vstd::utf8::is_ascii_chars_encode_utf8(password@);
                }
                let hash = Self::hash_daemon_password(password.as_str());
                (password, true, Some(hash))
            },
        }
    }

    /// The path of the agent's X25519 private key.
    pub fn wg_private_key_path(dir: &str) -> (r: String)
        ensures
            r@ == paths::joined(paths::joined(dir@, "wg"@), "private.key"@),
    {
        let wg = paths::join(dir, "wg");
        paths::join(wg.as_str(), "private.key")
    }

    /// The agent's X25519 private key, from the contents of its file.
    pub fn load_wg_private_key(contents: Option<&str>) -> (r: Option<[u8; 32]>)
        ensures
            match r {
                Some(k) => key_of(opt(contents)) == Some(k@),
                None => key_of(opt(contents)) is None,
            },
    {
        match contents {
            Some(s) => {
                let t = text::trim(s);
                match crypto::b64_decode(t.as_str()) {
                    Ok(b) => bytes::array32(b.as_slice()),
                    Err(_) => None,
                }
            },
            None => None,
        }
    }
}

/// A configuration that passes has its interval in range and an HTTP address.
pub proof fn law_valid_config(c: Config)
    requires
        config_error(c) is None,
    ensures
        c.api_key@.len() > 0,
        text::starts_with_spec(c.api_url@, "http"@),
        50 <= c.push_interval_ms <= 10_000,
{
}

// ── Laws ────────────────────────────────────────────────────────────

/// The directory that was asked for is used; else the nearest above that has one; else
/// the one at home.
pub proof fn law_directory_found(
    asked: Seq<char>,
    ancestors: Seq<Ancestor>,
    home: Seq<char>,
    i: int,
    k: int,
)
    requires
        0 <= k <= i < ancestors.len(),
        ancestors[i].has_config,
        forall|m: int|
            k <= m < i ==> !(#[trigger] ancestors[m]).has_config && ancestors[m].dir@ != home,
    ensures
        resolved_dir(Some(asked), ancestors, Some(home)) == Some(asked),
        found_ancestor(ancestors, Some(home), k) == Some(
            paths::joined(ancestors[i].dir@, ".b3"@),
        ),
        resolved_dir(None, Seq::empty(), Some(home)) == Some(paths::joined(home, ".b3"@)),
        resolved_dir(None, Seq::empty(), None) is None,
    decreases i - k,
{
    if k < i {
        assert(!ancestors[k].has_config && ancestors[k].dir@ != home);
        law_directory_found(asked, ancestors, home, i, k + 1);
    }
}

/// A host is what stands in a URL between the scheme and the port or the path.
pub proof fn law_host(name: Seq<char>, rest: Seq<char>)
    requires
        text::lacks(name, '/'),
        text::lacks(name, ':'),
        name.len() > 0,
        name[0] != 'h',
    ensures
        host_of("https://"@ + name + "/"@ + rest) == name,
        host_of("https://"@ + name) == name,
{
    reveal_strlit("https://");
    reveal_strlit("http://");
    reveal_strlit("/");
    assert("/"@ =~= seq!['/']);
    let a = name + seq!['/'] + rest;
    assert("https://"@ + name + "/"@ + rest =~= "https://"@ + a);
    lemma_scheme(a);
    lemma_scheme(name);
    text::law_before(name, '/', rest);
    text::law_before(name, ':', rest);
}

proof fn lemma_scheme(a: Seq<char>)
    requires
        a.len() > 0,
        a[0] != 'h',
    ensures
        without_http("https://"@ + a) == a,
{
    let p = "https://"@;
    reveal_strlit("https://");
    reveal_strlit("http://");
    let u = p + a;
    assert(u.take(p.len() as int) =~= p);
    assert(u.skip(p.len() as int) =~= a);
    assert(a.len() >= 8 ==> a.take(8)[0] == a[0]);
    assert(a.len() >= 7 ==> a.take(7)[0] == a[0]);
    assert(text::strip_all(a, p) == a);
    assert(text::strip_all(u, p) == text::strip_all(a, p));
}

/// An agent's name is what stands before the `@` of its address.
pub proof fn law_agent_named(name: Seq<char>, domain: Seq<char>)
    requires
        text::lacks(name, '@'),
    ensures
        name_of(name + seq!['@'] + domain) == name,
{
    text::law_before(name, '@', domain);
}

/// A port that was written down is read back.
pub proof fn law_port_read(port: u16)
    ensures
        port_of(Some(text::decimal(port as nat))) == Some(port as nat),
        port_of(None) is None,
{
    let d = text::decimal(port as nat);
    text::lemma_decimal_value(port as nat);
    text::law_decimal_read_back(port as nat, 0xffff);
    assert('0' <= d[0] <= '9' && '0' <= d[d.len() - 1] <= '9');
    text::law_trim(' ', d);
}

/// A configuration without a key or a server is refused, and so is an interval outside
/// its bounds.
pub proof fn law_configuration_checked(c: Config)
    ensures
        config_error(c) is None ==> c.api_key@.len() > 0 && c.api_url@.len() > 0 && 50
            <= c.push_interval_ms <= 10_000 && text::starts_with_spec(c.api_url@, "http"@),
        c.api_key@.len() > 0 && 50 <= c.push_interval_ms <= 10_000 && text::starts_with_spec(
            c.api_url@,
            "http"@,
        ) ==> config_error(c) is None,
{
    reveal_strlit("http");
}

/// Only a hash lets anyone in, and none without one.
pub proof fn law_password_needs_hash(password: Seq<char>, hash: Seq<char>)
    ensures
        password_ok(password, hash) ==> argon2_accepts(password, hash) && text::starts_with_spec(
            hash,
            "$argon2"@,
        ),
        stored_hash(None) is None,
{
}

} // verus!
