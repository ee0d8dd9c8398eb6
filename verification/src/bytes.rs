//! Bytes on the wire: little-endian numbers and UTF-8 text.

use vstd::prelude::*;

verus! {

/// The two bytes of a number, low byte first.
pub open spec fn le16(n: u16) -> Seq<u8> {
    seq![(n % 256) as u8, (n / 256) as u8]
}

/// The four bytes of a number, low byte first.
pub open spec fn le32(n: u32) -> Seq<u8> {
    seq![
        (n % 256) as u8,
        (n / 256 % 256) as u8,
        (n / 65536 % 256) as u8,
        (n / 16777216) as u8,
    ]
}

/// The number whose low byte comes first.
pub open spec fn from_le16(b: Seq<u8>) -> u16 {
    (b[0] + b[1] * 256) as u16
}

/// The number whose low byte comes first.
pub open spec fn from_le32(b: Seq<u8>) -> u32 {
    (b[0] + b[1] * 256 + b[2] * 65536 + b[3] * 16777216) as u32
}

/// Reading back a written number gives the number.
pub proof fn law_le_round_trip(n: u16, m: u32)
    ensures
        le16(n).len() == 2,
        from_le16(le16(n)) == n,
        le32(m).len() == 4,
        from_le32(le32(m)) == m,
{
}

/// What `String::from_utf8_lossy` returns for the given bytes.
pub uninterp spec fn lossy_text(b: Seq<u8>) -> Seq<char>;

/// How the error of `String::from_utf8` reads for the given bytes.
pub uninterp spec fn utf8_error(b: Seq<u8>) -> Seq<char>;

/// Calls `String::from_utf8`, which succeeds exactly on valid UTF-8 and then
/// gives the text that the bytes encode. The text of its error is named.
#[verifier::external_body]
pub(crate) fn utf8_text(b: Vec<u8>) -> (r: Result<String, String>)
    ensures
        match r {
            Ok(s) => vstd::utf8::valid_utf8(b@) && s@ == vstd::utf8::decode_utf8(b@),
            Err(e) => !vstd::utf8::valid_utf8(b@) && e@ == utf8_error(b@),
        },
{
    match String::from_utf8(b) {
        Ok(s) => Ok(s),
        Err(e) => Err(e.to_string()),
    }
}

/// The text that bytes are shown as: what they encode, or a lossy reading.
pub open spec fn shown_text(b: Seq<u8>) -> Seq<char> {
    if vstd::utf8::valid_utf8(b) {
        vstd::utf8::decode_utf8(b)
    } else {
        lossy_text(b)
    }
}

/// Calls `String::from_utf8_lossy`: valid UTF-8 is taken as it is, and what is
/// not valid is replaced in a way that is named here, not spelled out.
#[verifier::external_body]
pub(crate) fn utf8_lossy(b: &[u8]) -> (s: String)
    ensures
        s@ == shown_text(b@),
        !vstd::utf8::valid_utf8(b@) ==> s@ == lossy_text(b@),
{
    String::from_utf8_lossy(b).to_string()
}

/// Text that was turned into bytes is shown as itself.
pub proof fn law_shown_text(s: Seq<char>)
    ensures
        shown_text(vstd::utf8::encode_utf8(s)) == s,
{
    vstd::utf8::encode_utf8_valid_utf8(s);
    vstd::utf8::encode_utf8_decode_utf8(s);
}

/// The UTF-8 bytes of a string.
pub fn bytes_of(s: &str) -> (v: Vec<u8>)
    ensures
        v@ == vstd::utf8::encode_utf8(s@),
{
    copy_bytes(s.as_bytes())
}

/// A copy of the bytes.
pub fn copy_bytes(b: &[u8]) -> (v: Vec<u8>)
    ensures
        v@ == b@,
{
    let mut v: Vec<u8> = Vec::new();
    v.extend_from_slice(b);
    assert(v@ =~= b@);
    v
}

/// The bytes as an array of 32, when there are 32.
pub fn array32(b: &[u8]) -> (r: Option<[u8; 32]>)
    ensures
        match r {
            Some(a) => b@.len() == 32 && a@ == b@,
            None => b@.len() != 32,
        },
{
    if b.len() != 32 {
        return None;
    }
    let mut a: [u8; 32] = [0u8;32];
    let mut i: usize = 0;
    while i < 32
        invariant
            i <= 32,
            b@.len() == 32,
            forall|k: int| 0 <= k < i ==> a@[k] == b@[k],
        decreases 32 - i,
    {
        a[i] = b[i];
        i = i + 1;
    }
    assert(a@ =~= b@);
    Some(a)
}

/// Whether two runs of bytes are the same.
pub fn same_bytes(a: &[u8], b: &[u8]) -> (r: bool)
    ensures
        r == (a@ == b@),
{
    if a.len() != b.len() {
        return false;
    }
    let mut i: usize = 0;
    while i < a.len()
        invariant
            i <= a.len(),
            a.len() == b.len(),
            forall|j: int| 0 <= j < i ==> a@[j] == b@[j],
        decreases a.len() - i,
    {
        if a[i] != b[i] {
            assert(a@[i as int] != b@[i as int]);
            return false;
        }
        i = i + 1;
    }
    assert(a@ =~= b@);
    true
}

/// Appends the two bytes of a number, low byte first.
pub fn push_le16(v: &mut Vec<u8>, n: u16)
    ensures
        final(v)@ == old(v)@ + le16(n),
{
    v.push((n % 256) as u8);
    v.push((n / 256) as u8);
    assert(v@ =~= old(v)@ + le16(n));
}

/// Appends the four bytes of a number, low byte first.
pub fn push_le32(v: &mut Vec<u8>, n: u32)
    ensures
        final(v)@ == old(v)@ + le32(n),
{
    v.push((n % 256) as u8);
    v.push((n / 256 % 256) as u8);
    v.push((n / 65536 % 256) as u8);
    v.push((n / 16777216) as u8);
    assert(v@ =~= old(v)@ + le32(n));
}

/// The number in the two bytes at `at`, low byte first.
pub fn read_le16(b: &[u8], at: usize) -> (n: u16)
    requires
        at + 2 <= b@.len(),
    ensures
        n == from_le16(b@.subrange(at as int, at + 2)),
{
    b[at] as u16 + b[at + 1] as u16 * 256
}

/// The number in the four bytes at `at`, low byte first.
pub fn read_le32(b: &[u8], at: usize) -> (n: u32)
    requires
        at + 4 <= b@.len(),
    ensures
        n == from_le32(b@.subrange(at as int, at + 4)),
{
    b[at] as u32 + b[at + 1] as u32 * 256 + b[at + 2] as u32 * 65536 + b[at + 3] as u32 * 16777216
}

} // verus!
