//! Encryption of stored credentials: AES-256-GCM, with the nonce, tag and
//! ciphertext written as `iv_b64.tag_b64.ciphertext_b64`, and the choice of key.
use vstd::prelude::*;
use aes_gcm::aead::{Aead, KeyInit};
use base64::Engine;
use rand::RngCore;
use sha2::Digest;
use vstd::string::StringSliceAdditionalSpecFns;
use vstd::utf8::{
    decode_utf8, encode_utf8, is_ascii_chars, is_ascii_chars_encode_utf8, is_char_boundary,
    is_char_boundary_iff_not_is_continuation_byte, is_char_boundary_start_end_of_seq,
    is_continuation_byte, valid_utf8,
};

use crate::text::{
    find_exec, find_from, from_chars_range, lemma_find_from_facts, lemma_find_shift, occurs_at,
    owned, push_char, push_str, to_chars,
};

verus! {

broadcast use vstd::utf8::encode_utf8_decode_utf8, vstd::utf8::encode_utf8_valid_utf8;

/* ------------------------------------- hex ------------------------------------- */

pub open spec fn hex_lower(d: nat) -> char {
    if d < 10 {
        (48 + d) as char
    } else {
        (87 + d) as char
    }
}

/// Two lower-case hex digits per byte (`format!("{b:02x}")` for each byte).
pub open spec fn hex_text(bytes: Seq<u8>) -> Seq<char>
    decreases bytes.len(),
{
    if bytes.len() == 0 {
        Seq::empty()
    } else {
        hex_text(bytes.drop_last()).push(hex_lower((bytes.last() / 16) as nat)).push(
            hex_lower((bytes.last() % 16) as nat),
        )
    }
}

fn hex_char(d: u8) -> (c: char)
    requires
        d < 16,
    ensures
        c == hex_lower(d as nat),
{
    if d < 10 {
        (48 + d) as char
    } else {
        (87 + d) as char
    }
}

/// Lower-case hex of a byte string: two hex digits per byte, which
/// `hex_decode` can read back.
pub fn hex_encode(bytes: &[u8]) -> (r: String)
    ensures
        r@ == hex_text(bytes@),
        r@.len() == 2 * bytes@.len(),
        forall|i: int| 0 <= i < r@.len() ==> is_hex_char(#[trigger] r@[i]),
        hex_cuttable(encode_utf8(r@)),
        hex_bytes(encode_utf8(r@)) == Some(bytes@),
{
    let mut s = String::new();
    let mut i: usize = 0;
    while i < bytes.len()
        invariant
            i <= bytes@.len(),
            s@ == hex_text(bytes@.take(i as int)),
        decreases bytes@.len() - i,
    {
        let b = bytes[i];
        push_char(&mut s, hex_char(b / 16));
        push_char(&mut s, hex_char(b % 16));
        proof {
            assert(bytes@.take(i + 1).drop_last() =~= bytes@.take(i as int));
        }
        i += 1;
    }
    assert(bytes@.take(bytes@.len() as int) =~= bytes@);
    proof {
        lemma_hex_law(bytes@);
    }
    s
}

/// The value of a hex digit byte, either case.
pub open spec fn hex_value(b: u8) -> Option<u8> {
    if 48 <= b <= 57 {
        Some((b - 48) as u8)
    } else if 97 <= b <= 102 {
        Some((b - 87) as u8)
    } else if 65 <= b <= 70 {
        Some((b - 55) as u8)
    } else {
        None
    }
}

/// `u8::from_str_radix(pair, 16)` for a two-byte text: two hex digits, or a
/// `+` sign and one digit.
pub open spec fn pair_value(b1: u8, b2: u8) -> Option<u8> {
    if b1 == 43 {
        hex_value(b2)
    } else {
        match (hex_value(b1), hex_value(b2)) {
            (Some(x), Some(y)) => Some((16 * x + y) as u8),
            _ => None,
        }
    }
}

/// The bytes a hex text stands for; none when its length is odd or some pair
/// is not a number.
pub open spec fn hex_bytes(b: Seq<u8>) -> Option<Seq<u8>>
    decreases b.len(),
{
    if b.len() % 2 != 0 {
        None
    } else if b.len() == 0 {
        Some(Seq::empty())
    } else {
        match (hex_bytes(b.subrange(0, b.len() - 2)), pair_value(b[b.len() - 2], b[b.len() - 1])) {
            (Some(front), Some(v)) => Some(front.push(v)),
            _ => None,
        }
    }
}

/// Whether `hex_decode` can read the text without cutting inside a
/// character: text of odd length is refused before any cutting; otherwise
/// two-byte pieces are cut in order, up to the first that is not a number.
pub open spec fn hex_cuttable(b: Seq<u8>) -> bool {
    b.len() % 2 != 0 || cuttable_from(b, 0)
}

pub open spec fn cuttable_from(b: Seq<u8>, i: int) -> bool
    decreases b.len() - i,
{
    if i < 0 || i + 2 > b.len() {
        true
    } else {
        is_char_boundary(b, i) && is_char_boundary(b, i + 2) && (pair_value(b[i], b[i + 1]) is None
            || cuttable_from(b, i + 2))
    }
}

fn hex_value_exec(b: u8) -> (r: Option<u8>)
    ensures
        r == hex_value(b),
{
    if 48 <= b && b <= 57 {
        Some(b - 48)
    } else if 97 <= b && b <= 102 {
        Some(b - 87)
    } else if 65 <= b && b <= 70 {
        Some(b - 55)
    } else {
        None
    }
}

fn pair_value_exec(b1: u8, b2: u8) -> (r: Option<u8>)
    ensures
        r == pair_value(b1, b2),
{
    if b1 == 43 {
        hex_value_exec(b2)
    } else {
        match (hex_value_exec(b1), hex_value_exec(b2)) {
            (Some(x), Some(y)) => Some(16 * x + y),
            _ => None,
        }
    }
}

/// Decodes hex text, two characters per byte; a leading `+` in a pair is read
/// as a sign. The pieces it cuts must not split a character: ASCII text never
/// does (`lemma_ascii_hex_cuttable`), nor does what `hex_encode` writes. Text
/// of odd length is refused.
pub fn hex_decode(s: &str) -> (r: Result<Vec<u8>, ()>)
    requires
        hex_cuttable(s.spec_bytes()),
    ensures
        match r {
            Ok(v) => hex_bytes(s.spec_bytes()) == Some(v@),
            Err(_) => hex_bytes(s.spec_bytes()) is None,
        },
        s.spec_bytes().len() % 2 != 0 ==> r is Err,
{
    let b = s.as_bytes();
    if b.len() % 2 != 0 {
        return Err(());
    }
    let mut out: Vec<u8> = Vec::new();
    let mut i: usize = 0;
    while i < b.len()
        invariant
            b@ == s.spec_bytes(),
            b@.len() % 2 == 0,
            i <= b@.len(),
            i % 2 == 0,
            hex_bytes(b@.subrange(0, i as int)) == Some(out@),
        decreases b@.len() - i,
    {
        let ghost pre = b@.subrange(0, i as int);
        match pair_value_exec(b[i], b[i + 1]) {
            Some(v) => {
                proof {
                    let next = b@.subrange(0, i + 2);
                    assert(next.subrange(0, i as int) =~= pre);
                    assert(next[i as int] == b@[i as int] && next[i + 1] == b@[i + 1]);
                }
                out.push(v);
                i += 2;
            },
            None => {
                proof {
                    lemma_hex_prefix_fails(b@, i as int);
                }
                return Err(());
            },
        }
    }
    assert(b@.subrange(0, b@.len() as int) =~= b@);
    Ok(out)
}

proof fn lemma_hex_prefix_fails(b: Seq<u8>, i: int)
    requires
        b.len() % 2 == 0,
        0 <= i,
        i + 2 <= b.len(),
        i % 2 == 0,
        pair_value(b[i], b[i + 1]) is None,
    ensures
        hex_bytes(b) is None,
    decreases b.len(),
{
    if i + 2 == b.len() {
    } else {
        let front = b.subrange(0, b.len() - 2);
        assert(front[i] == b[i] && front[i + 1] == b[i + 1]);
        lemma_hex_prefix_fails(front, i);
    }
}

/// Whether `hex_decode` can read `s` (`hex_cuttable`).
pub fn check_hex_cuttable(s: &str) -> (r: bool)
    ensures
        r == hex_cuttable(s.spec_bytes()),
{
    let b = s.as_bytes();
    let n = b.len();
    if n % 2 != 0 {
        return true;
    }
    let mut i: usize = 0;
    while i < n
        invariant
            b@ == s.spec_bytes(),
            n == b@.len(),
            n % 2 == 0,
            i % 2 == 0,
            i <= n,
            cuttable_from(b@, 0) == cuttable_from(b@, i as int),
        decreases n - i,
    {
        if !s.is_char_boundary(i) || !s.is_char_boundary(i + 2) {
            return false;
        }
        if pair_value_exec(b[i], b[i + 1]).is_none() {
            return true;
        }
        i += 2;
    }
    true
}

/* ----------------------------------- base64 ----------------------------------- */

/// Standard base64 (with padding) of a byte string, as the `base64` crate's
/// `STANDARD` engine writes it.
pub uninterp spec fn b64_text(bytes: Seq<u8>) -> Seq<char>;

/// What the `STANDARD` engine decodes a text to, or the text of its error.
pub uninterp spec fn b64_value(text: Seq<char>) -> Result<Seq<u8>, Seq<char>>;

/// Decoding `text` gives `bytes`.
pub open spec fn decodes_to(text: Seq<char>, bytes: Seq<u8>) -> bool {
    b64_value(text) == Ok::<Seq<u8>, Seq<char>>(bytes)
}

/// No `.` in the text.
pub open spec fn no_dot(text: Seq<char>) -> bool {
    forall|i: int| 0 <= i < text.len() ==> #[trigger] text[i] != '.'
}

/// `STANDARD.encode(bytes)`. Its output uses only the standard alphabet
/// `A-Z a-z 0-9 + /` and `=` padding (so never a `.`), and decoding it gives
/// the bytes back.
#[verifier::external_body]
pub(crate) fn b64_encode(bytes: &[u8]) -> (r: String)
    ensures
        r@ == b64_text(bytes@),
        decodes_to(r@, bytes@),
        no_dot(r@),
{
    base64::engine::general_purpose::STANDARD.encode(bytes)
}

/// `STANDARD.decode(text)`, the error given as its `to_string()`.
#[verifier::external_body]
pub(crate) fn b64_decode(text: &str) -> (r: Result<Vec<u8>, String>)
    ensures
        match r {
            Ok(v) => b64_value(text@) == Ok::<Seq<u8>, Seq<char>>(v@),
            Err(e) => b64_value(text@) == Err::<Seq<u8>, Seq<char>>(e@),
        },
{
    match base64::engine::general_purpose::STANDARD.decode(text) {
        Ok(v) => Ok(v),
        Err(e) => Err(e.to_string()),
    }
}

/* ------------------------------ digest and cipher ------------------------------ */

/// SHA-256 of a byte string.
pub uninterp spec fn sha256_digest(data: Seq<u8>) -> Seq<u8>;

/// `sha2::Sha256::digest(data)`; 32 bytes.
#[verifier::external_body]
pub(crate) fn sha256(data: &[u8]) -> (r: Vec<u8>)
    ensures
        r@ == sha256_digest(data@),
        r@.len() == 32,
{
    sha2::Sha256::digest(data).to_vec()
}

/// AES-256-GCM encryption of `msg` under `key` and `nonce`, without
/// associated data: the ciphertext followed by the 16-byte tag.
pub uninterp spec fn gcm_seal(key: Seq<u8>, nonce: Seq<u8>, msg: Seq<u8>) -> Seq<u8>;

/// AES-256-GCM decryption: the plaintext, or none when the tag does not verify.
pub uninterp spec fn gcm_open(key: Seq<u8>, nonce: Seq<u8>, data: Seq<u8>) -> Option<Seq<u8>>;

/// `Aes256Gcm::new_from_slice(key)` then `encrypt(nonce, msg)` (aes-gcm's
/// `Aead` impl). The output is 16 bytes longer than `msg` and opens back to
/// `msg` under the same key and nonce. It refuses messages over 2^36 bytes.
#[verifier::external_body]
pub(crate) fn gcm_encrypt(key: &[u8], nonce: &[u8], msg: &[u8]) -> (r: Vec<u8>)
    requires
        key@.len() == 32,
        nonce@.len() == 12,
        msg@.len() <= 0x10_0000_0000,
    ensures
        r@ == gcm_seal(key@, nonce@, msg@),
        r@.len() == msg@.len() + 16,
        gcm_open(key@, nonce@, r@) == Some(msg@),
{
    let cipher = aes_gcm::Aes256Gcm::new_from_slice(key).expect("key");
    cipher.encrypt(aes_gcm::Nonce::from_slice(nonce), msg).expect("encrypt")
}

/// `Aes256Gcm::new_from_slice(key)` then `decrypt(nonce, data)`.
#[verifier::external_body]
pub(crate) fn gcm_decrypt(key: &[u8], nonce: &[u8], data: &[u8]) -> (r: Option<Vec<u8>>)
    requires
        key@.len() == 32,
        nonce@.len() == 12,
    ensures
        match r {
            Some(v) => gcm_open(key@, nonce@, data@) == Some(v@),
            None => gcm_open(key@, nonce@, data@) is None,
        },
{
    let cipher = aes_gcm::Aes256Gcm::new_from_slice(key).expect("key");
    match cipher.decrypt(aes_gcm::Nonce::from_slice(nonce), data) {
        Ok(v) => Some(v),
        Err(_) => None,
    }
}

/// `n` bytes from the thread-local random generator (rand
/// `thread_rng().fill_bytes`); what they are is chance.
#[verifier::external_body]
pub(crate) fn random_bytes(n: usize) -> (r: Vec<u8>)
    ensures
        r@.len() == n,
{
    let mut v = vec![0u8; n];
    rand::thread_rng().fill_bytes(&mut v);
    v
}

/// The text `Utf8Error` prints for invalid bytes.
pub uninterp spec fn utf8_error_text(bytes: Seq<u8>) -> Seq<char>;

/// std `String::from_utf8`, the error given as its `to_string()`.
#[verifier::external_body]
pub(crate) fn string_from_utf8(bytes: Vec<u8>) -> (r: Result<String, String>)
    ensures
        match r {
            Ok(s) => valid_utf8(bytes@) && s@ == decode_utf8(bytes@),
            Err(e) => !valid_utf8(bytes@) && e@ == utf8_error_text(bytes@),
        },
{
    match String::from_utf8(bytes) {
        Ok(s) => Ok(s),
        Err(e) => Err(e.to_string()),
    }
}

/* ---------------------------------- payloads ---------------------------------- */

/// The pieces of `s` between the `c`s (std `str::split(c)`).
pub open spec fn split_on(s: Seq<char>, c: char) -> Seq<Seq<char>>
    decreases s.len(),
{
    match find_from(s, seq![c], 0) {
        Some(i) => {
            proof {
                lemma_find_from_facts(s, seq![c], 0);
            }
            seq![s.subrange(0, i)] + split_on(s.subrange(i + 1, s.len() as int), c)
        },
        None => seq![s],
    }
}

/// Splits at every `.`.
pub fn split_dots(s: &str) -> (r: Vec<String>)
    ensures
        r@.map_values(|x: String| x@) == split_on(s@, '.'),
{
    let v = to_chars(s);
    let n = v.len();
    let dot: [char; 1] = ['.'];
    assert(dot@ =~= seq!['.']);
    let mut out: Vec<String> = Vec::new();
    let mut pos: usize = 0;
    assert(v@.subrange(0, n as int) =~= v@);
    loop
        invariant
            n == v@.len(),
            v@ == s@,
            pos <= n,
            dot@ == seq!['.'],
            split_on(v@, '.') == out@.map_values(|x: String| x@) + split_on(
                v@.subrange(pos as int, n as int),
                '.',
            ),
        decreases n - pos,
    {
        let ghost rest = v@.subrange(pos as int, n as int);
        proof {
            lemma_find_shift(v@, seq!['.'], pos as int, 0);
            lemma_find_from_facts(rest, seq!['.'], 0);
        }
        match find_exec(v.as_slice(), &dot, pos) {
            Some(i) => {
                let piece = from_chars_range(v.as_slice(), pos, i);
                proof {
                    let ri = i - pos;
                    assert(rest.subrange(0, ri) =~= piece@);
                    assert(rest.subrange(ri + 1, rest.len() as int) =~= v@.subrange(
                        i + 1,
                        n as int,
                    ));
                }
                let ghost before = out@.map_values(|x: String| x@);
                out.push(piece);
                assert(out@.map_values(|x: String| x@) =~= before.push(piece@));
                pos = i + 1;
            },
            None => {
                let piece = from_chars_range(v.as_slice(), pos, n);
                let ghost before = out@.map_values(|x: String| x@);
                out.push(piece);
                assert(piece@ =~= rest);
                assert(split_on(rest, '.') == seq![rest]);
                assert(out@.map_values(|x: String| x@) =~= before + seq![rest]);
                return out;
            },
        }
    }
}

/// A payload: base64 nonce, tag and ciphertext, joined by `.`.
pub open spec fn payload_text(iv: Seq<u8>, sealed: Seq<u8>) -> Seq<char> {
    let cut = sealed.len() - 16;
    b64_text(iv) + seq!['.'] + b64_text(sealed.subrange(cut, sealed.len() as int)) + seq!['.']
        + b64_text(sealed.subrange(0, cut))
}

/// A payload of three `.`-separated base64 parts that decode to the given
/// 12-byte nonce, a 16-byte tag and a ciphertext of `n` bytes (as long as
/// the UTF-8 plain text).
pub open spec fn well_formed_payload(payload: Seq<char>, iv: Seq<u8>, n: nat) -> bool {
    &&& split_on(payload, '.').len() == 3
    &&& payload_parts(payload) matches Ok((v, tag, ct)) && v == iv && v.len() == 12 && tag.len()
        == 16 && ct.len() == n
}

/// The payload `encrypt` writes for `plain` under `key` with nonce `iv`.
pub open spec fn spec_encrypt(key: Seq<u8>, iv: Seq<u8>, plain: Seq<char>) -> Seq<char> {
    payload_text(iv, gcm_seal(key, iv, encode_utf8(plain)))
}

/// Plain text that the cipher accepts (at most 2^36 bytes).
pub open spec fn encryptable(plain: Seq<char>) -> bool {
    encode_utf8(plain).len() <= 0x10_0000_0000
}

/// Encrypts with a given nonce.
pub fn encrypt_with_iv(key: &[u8], iv: &[u8], plain: &str) -> (r: String)
    requires
        key@.len() == 32,
        iv@.len() == 12,
        encryptable(plain@),
    ensures
        r@ == spec_encrypt(key@, iv@, plain@),
        decryptable(r@),
        spec_decrypt(key@, r@) == Ok::<Seq<char>, Seq<char>>(plain@),
        well_formed_payload(r@, iv@, encode_utf8(plain@).len()),
{
    let sealed = gcm_encrypt(key, iv, plain.as_bytes());
    let cut = sealed.len() - 16;
    let tag = slice_vec(sealed.as_slice(), cut, sealed.len());
    let ct = slice_vec(sealed.as_slice(), 0, cut);
    let mut s = b64_encode(iv);
    push_str(&mut s, ".");
    let t = b64_encode(tag.as_slice());
    push_str(&mut s, t.as_str());
    push_str(&mut s, ".");
    let c = b64_encode(ct.as_slice());
    push_str(&mut s, c.as_str());
    proof {
        reveal_strlit(".");
        assert("."@ =~= seq!['.']);
        lemma_roundtrip(key@, iv@, plain@, sealed@, b64_text(iv@), t@, c@);
    }
    s
}

/// Encrypts `plain` under `key` with a fresh random nonce; the format is
/// `iv_b64.tag_b64.ciphertext_b64`.
pub fn encrypt(key: &[u8], plain: &str) -> (r: String)
    requires
        key@.len() == 32,
        encryptable(plain@),
    ensures
        exists|iv: Seq<u8>|
            iv.len() == 12 && r@ == spec_encrypt(key@, iv, plain@) && well_formed_payload(
                r@,
                iv,
                encode_utf8(plain@).len(),
            ),
        decryptable(r@),
        spec_decrypt(key@, r@) == Ok::<Seq<char>, Seq<char>>(plain@),
{
    let iv = random_bytes(12);
    encrypt_with_iv(key, iv.as_slice(), plain)
}

fn slice_vec(v: &[u8], lo: usize, hi: usize) -> (r: Vec<u8>)
    requires
        lo <= hi <= v@.len(),
    ensures
        r@ == v@.subrange(lo as int, hi as int),
{
    let mut out: Vec<u8> = Vec::new();
    let mut i = lo;
    while i < hi
        invariant
            lo <= i <= hi <= v@.len(),
            out@ == v@.subrange(lo as int, i as int),
        decreases hi - i,
    {
        out.push(v[i]);
        i += 1;
        assert(out@ =~= v@.subrange(lo as int, i as int));
    }
    out
}

/// The decoded parts of a well-formed payload: nonce, tag, ciphertext.
pub open spec fn payload_parts(payload: Seq<char>) -> Result<(Seq<u8>, Seq<u8>, Seq<u8>), Seq<char>> {
    let parts = split_on(payload, '.');
    if parts.len() != 3 {
        Err("Malformed ciphertext"@)
    } else {
        match b64_value(parts[0]) {
            Err(e) => Err(e),
            Ok(iv) => match b64_value(parts[1]) {
                Err(e) => Err(e),
                Ok(tag) => match b64_value(parts[2]) {
                    Err(e) => Err(e),
                    Ok(ct) => Ok((iv, tag, ct)),
                },
            },
        }
    }
}

/// Payloads `decrypt` handles without failing: any whose parts do not all
/// decode, and those whose nonce is 12 bytes.
pub open spec fn decryptable(payload: Seq<char>) -> bool {
    match payload_parts(payload) {
        Ok((iv, _, _)) => iv.len() == 12,
        Err(_) => true,
    }
}

/// What `decrypt` gives back for a payload under `key`.
pub open spec fn spec_decrypt(key: Seq<u8>, payload: Seq<char>) -> Result<Seq<char>, Seq<char>> {
    match payload_parts(payload) {
        Err(e) => Err(e),
        Ok((iv, tag, ct)) => match gcm_open(key, iv, ct + tag) {
            None => Err("decrypt failed"@),
            Some(plain) => if valid_utf8(plain) {
                Ok(decode_utf8(plain))
            } else {
                Err(utf8_error_text(plain))
            },
        },
    }
}

pub open spec fn result_view(r: Result<String, String>) -> Result<Seq<char>, Seq<char>> {
    match r {
        Ok(s) => Ok(s@),
        Err(e) => Err(e@),
    }
}

/// Decrypts a payload written by `encrypt`.
pub fn decrypt(key: &[u8], payload: &str) -> (r: Result<String, String>)
    requires
        key@.len() == 32,
        decryptable(payload@),
    ensures
        result_view(r) == spec_decrypt(key@, payload@),
{
    let parts = split_dots(payload);
    let ghost pv = parts@.map_values(|x: String| x@);
    if parts.len() != 3 {
        return Err(owned("Malformed ciphertext"));
    }
    assert(pv[0] == parts@[0]@ && pv[1] == parts@[1]@ && pv[2] == parts@[2]@);
    let iv = match b64_decode(parts[0].as_str()) {
        Ok(v) => v,
        Err(e) => return Err(e),
    };
    let tag = match b64_decode(parts[1].as_str()) {
        Ok(v) => v,
        Err(e) => return Err(e),
    };
    let ct = match b64_decode(parts[2].as_str()) {
        Ok(v) => v,
        Err(e) => return Err(e),
    };
    let mut combined = ct;
    let mut t = tag;
    combined.append(&mut t);
    let plain = match gcm_decrypt(key, iv.as_slice(), combined.as_slice()) {
        Some(p) => p,
        None => return Err(owned("decrypt failed")),
    };
    string_from_utf8(plain)
}

/// `decrypt`, for any payload: none when its nonce would not be 12 bytes.
pub fn try_decrypt(key: &[u8], payload: &str) -> (r: Option<Result<String, String>>)
    requires
        key@.len() == 32,
    ensures
        decryptable(payload@) ==> (r matches Some(x) && result_view(x) == spec_decrypt(key@, payload@)),
        !decryptable(payload@) ==> r is None,
{
    if payload_ok(payload) {
        Some(decrypt(key, payload))
    } else {
        None
    }
}

fn payload_ok(payload: &str) -> (r: bool)
    ensures
        r == decryptable(payload@),
{
    let parts = split_dots(payload);
    let ghost pv = parts@.map_values(|x: String| x@);
    if parts.len() != 3 {
        return true;
    }
    assert(pv[0] == parts@[0]@ && pv[1] == parts@[1]@ && pv[2] == parts@[2]@);
    let iv = match b64_decode(parts[0].as_str()) {
        Ok(v) => v,
        Err(_) => return true,
    };
    match b64_decode(parts[1].as_str()) {
        Ok(_) => {},
        Err(_) => return true,
    }
    match b64_decode(parts[2].as_str()) {
        Ok(_) => {},
        Err(_) => return true,
    }
    iv.len() == 12
}

/// A text without `.` followed by a `.` splits there first.
proof fn lemma_split_first(a: Seq<char>, rest: Seq<char>)
    requires
        forall|i: int| 0 <= i < a.len() ==> #[trigger] a[i] != '.',
    ensures
        split_on(a + seq!['.'] + rest, '.') == seq![a] + split_on(rest, '.'),
{
    let s = a + seq!['.'] + rest;
    assert(occurs_at(s, seq!['.'], a.len() as int)) by {
        assert(s.subrange(a.len() as int, a.len() + 1int) =~= seq!['.']);
    }
    assert forall|j: int| 0 <= j < a.len() implies !occurs_at(s, seq!['.'], j) by {
        assert(s.subrange(j, j + 1)[0] == a[j]);
    }
    lemma_find_first_at(s, seq!['.'], 0, a.len() as int);
    assert(s.subrange(0, a.len() as int) =~= a);
    assert(s.subrange(a.len() + 1int, s.len() as int) =~= rest);
}

proof fn lemma_find_first_at(s: Seq<char>, p: Seq<char>, from: int, k: int)
    requires
        0 <= from <= k,
        occurs_at(s, p, k),
        forall|j: int| from <= j < k ==> !occurs_at(s, p, j),
    ensures
        find_from(s, p, from) == Some(k),
    decreases k - from,
{
    if from < k {
        lemma_find_first_at(s, p, from + 1, k);
    }
}

proof fn lemma_split_single(a: Seq<char>)
    requires
        forall|i: int| 0 <= i < a.len() ==> #[trigger] a[i] != '.',
    ensures
        split_on(a, '.') == seq![a],
{
    lemma_find_from_facts(a, seq!['.'], 0);
    if let Some(i) = find_from(a, seq!['.'], 0) {
        assert(a.subrange(i, i + 1)[0] == a[i]);
    }
}

proof fn lemma_roundtrip(
    key: Seq<u8>,
    iv: Seq<u8>,
    plain: Seq<char>,
    sealed: Seq<u8>,
    a: Seq<char>,
    b: Seq<char>,
    c: Seq<char>,
)
    requires
        iv.len() == 12,
        sealed == gcm_seal(key, iv, encode_utf8(plain)),
        sealed.len() == encode_utf8(plain).len() + 16,
        gcm_open(key, iv, sealed) == Some(encode_utf8(plain)),
        a == b64_text(iv),
        b == b64_text(sealed.subrange(sealed.len() - 16, sealed.len() as int)),
        c == b64_text(sealed.subrange(0, sealed.len() - 16)),
        b64_value(a) == Ok::<Seq<u8>, Seq<char>>(iv),
        b64_value(b) == Ok::<Seq<u8>, Seq<char>>(
            sealed.subrange(sealed.len() - 16, sealed.len() as int),
        ),
        b64_value(c) == Ok::<Seq<u8>, Seq<char>>(sealed.subrange(0, sealed.len() - 16)),
        forall|i: int| 0 <= i < a.len() ==> #[trigger] a[i] != '.',
        forall|i: int| 0 <= i < b.len() ==> #[trigger] b[i] != '.',
        forall|i: int| 0 <= i < c.len() ==> #[trigger] c[i] != '.',
    ensures
        decryptable(payload_text(iv, sealed)),
        spec_decrypt(key, payload_text(iv, sealed)) == Ok::<Seq<char>, Seq<char>>(plain),
        well_formed_payload(payload_text(iv, sealed), iv, encode_utf8(plain).len()),
{
    let cut = sealed.len() - 16;
    let payload = a + seq!['.'] + b + seq!['.'] + c;
    assert(payload_text(iv, sealed) == payload);
    lemma_split_single(c);
    lemma_split_first(b, c);
    assert(payload =~= a + seq!['.'] + (b + seq!['.'] + c));
    lemma_split_first(a, b + seq!['.'] + c);
    assert(split_on(payload, '.') =~= seq![a, b, c]);
    assert(sealed.subrange(0, cut) + sealed.subrange(cut, sealed.len() as int) =~= sealed);
}

/* ---------------------------------- the key ---------------------------------- */

/// The key to use, and the hex text to store when a new key was made.
pub struct KeyChoice {
    pub key: Vec<u8>,
    pub store: Option<String>,
}

/// How the key is chosen: from the `PH_SECRET` value when it is set and not
/// empty (its SHA-256); else the stored key when it is 32 bytes of valid hex;
/// else `fresh`, which is then to be stored.
pub open spec fn key_choice_is(
    secret: Option<Seq<char>>,
    stored: Option<Seq<u8>>,
    fresh: Seq<u8>,
    c: KeyChoice,
) -> bool {
    match secret {
        Some(s) if s.len() > 0 => c.key@ == sha256_digest(encode_utf8(s)) && c.store is None,
        _ => {
            let usable = match stored {
                Some(b) => match hex_bytes(b) {
                    Some(k) => k.len() == 32,
                    None => false,
                },
                None => false,
            };
            if usable {
                Some(c.key@) == hex_bytes(stored->0) && c.store is None
            } else {
                c.key@ == fresh && crate::models::opt_view(c.store) == Some(hex_text(fresh))
            }
        },
    }
}

/// Chooses the encryption key, with `fresh` as the new key if one is needed.
pub fn resolve_key(secret: Option<&str>, stored: Option<&str>, fresh: &[u8]) -> (c: KeyChoice)
    requires
        fresh@.len() == 32,
        (secret matches Some(x) && x@.len() > 0) || (stored matches Some(s) ==> hex_cuttable(
            s.spec_bytes(),
        )),
    ensures
        key_choice_is(
            match secret {
                Some(s) => Some(s@),
                None => None,
            },
            match stored {
                Some(s) => Some(s.spec_bytes()),
                None => None,
            },
            fresh@,
            c,
        ),
        c.key@.len() == 32,
{
    if let Some(s) = secret {
        if !s.is_empty() {
            return KeyChoice { key: sha256(s.as_bytes()), store: None };
        }
    }
    if let Some(h) = stored {
        if let Ok(bytes) = hex_decode(h) {
            if bytes.len() == 32 {
                return KeyChoice { key: bytes, store: None };
            }
        }
    }
    let key = slice_vec(fresh, 0, 32);
    let store = Some(hex_encode(fresh));
    assert(fresh@.subrange(0, 32) =~= fresh@);
    KeyChoice { key, store }
}

/// Chooses the encryption key, with a random candidate for a new one.
pub fn choose_key(secret: Option<&str>, stored: Option<&str>) -> (c: KeyChoice)
    requires
        (secret matches Some(x) && x@.len() > 0) || (stored matches Some(s) ==> hex_cuttable(
            s.spec_bytes(),
        )),
    ensures
        exists|fresh: Seq<u8>|
            fresh.len() == 32 && key_choice_is(
                match secret {
                    Some(s) => Some(s@),
                    None => None,
                },
                match stored {
                    Some(s) => Some(s.spec_bytes()),
                    None => None,
                },
                fresh,
                c,
            ),
        c.key@.len() == 32,
{
    let fresh = random_bytes(32);
    resolve_key(secret, stored, fresh.as_slice())
}

/* ------------------------------ reading a key back ------------------------------ */

pub open spec fn is_hex_char(c: char) -> bool {
    ('0' <= c && c <= '9') || ('a' <= c && c <= 'f')
}

proof fn lemma_hex_lower(d: nat)
    requires
        d < 16,
    ensures
        is_hex_char(hex_lower(d)),
        hex_lower(d) as u8 != 43,
        hex_value(hex_lower(d) as u8) == Some(d as u8),
{
    if d < 10 {
        assert(hex_lower(d) as u32 == 48 + d);
    } else {
        assert(hex_lower(d) as u32 == 87 + d);
    }
}

proof fn lemma_hex_text_facts(k: Seq<u8>)
    ensures
        hex_text(k).len() == 2 * k.len(),
        forall|i: int| 0 <= i < hex_text(k).len() ==> is_hex_char(#[trigger] hex_text(k)[i]),
    decreases k.len(),
{
    if k.len() > 0 {
        let k2 = k.drop_last();
        lemma_hex_text_facts(k2);
        lemma_hex_lower((k.last() / 16) as nat);
        lemma_hex_lower((k.last() % 16) as nat);
        let t = hex_text(k);
        let t2 = hex_text(k2);
        assert forall|i: int| 0 <= i < t.len() implies is_hex_char(#[trigger] t[i]) by {
            if i < t2.len() {
                assert(t[i] == t2[i]);
            }
        }
    }
}

/// The bytes of the hex text of `k` read back as `k`: what `hex_encode`
/// writes, `hex_decode` reads back.
pub proof fn lemma_hex_roundtrip(k: Seq<u8>)
    ensures
        hex_bytes(encode_utf8(hex_text(k))) == Some(k),
    decreases k.len(),
{
    let t = hex_text(k);
    lemma_hex_text_facts(k);
    assert(is_ascii_chars(t));
    is_ascii_chars_encode_utf8(t);
    let b = encode_utf8(t);
    if k.len() == 0 {
        assert(b.len() == 0);
        assert(k =~= Seq::<u8>::empty());
    } else {
        let k2 = k.drop_last();
        lemma_hex_roundtrip(k2);
        lemma_hex_text_facts(k2);
        let t2 = hex_text(k2);
        assert(is_ascii_chars(t2));
        is_ascii_chars_encode_utf8(t2);
        let b2 = encode_utf8(t2);
        let n = b.len() as int;
        assert forall|i: int| 0 <= i < n - 2 implies #[trigger] b.subrange(0, n - 2)[i] == b2[i] by {
            assert(t[i] == t2[i]);
            assert(b[i] == t[i] as u8);
            assert(b2[i] == t2[i] as u8);
        }
        assert(b.subrange(0, n - 2) =~= b2);
        let hi = (k.last() / 16) as nat;
        let lo = (k.last() % 16) as nat;
        lemma_hex_lower(hi);
        lemma_hex_lower(lo);
        assert(t[n - 2] == hex_lower(hi) && t[n - 1] == hex_lower(lo));
        assert(b[n - 2] == t[n - 2] as u8 && b[n - 1] == t[n - 1] as u8);
        assert(pair_value(b[n - 2], b[n - 1]) == Some(k.last()));
        assert(k2.push(k.last()) =~= k);
    }
}

/// A key written to the settings as `resolve_key` stores it is the key chosen
/// on the next start, when no secret is set: the stored key reads back.
pub proof fn lemma_stored_key_reads_back(k: Seq<u8>, fresh: Seq<u8>, c: KeyChoice)
    requires
        k.len() == 32,
        key_choice_is(None, Some(encode_utf8(hex_text(k))), fresh, c),
    ensures
        c.key@ == k,
        c.store is None,
{
    lemma_hex_roundtrip(k);
}

/// With `PH_SECRET` set (and not empty) the key is the same on every start,
/// whatever is stored and whatever random candidate is drawn.
pub proof fn lemma_secret_key_is_stable(
    secret: Seq<char>,
    stored1: Option<Seq<u8>>,
    fresh1: Seq<u8>,
    c1: KeyChoice,
    stored2: Option<Seq<u8>>,
    fresh2: Seq<u8>,
    c2: KeyChoice,
)
    requires
        secret.len() > 0,
        key_choice_is(Some(secret), stored1, fresh1, c1),
        key_choice_is(Some(secret), stored2, fresh2, c2),
    ensures
        c1.key@ == c2.key@,
        c1.store is None && c2.store is None,
{
}

/// Every offset of ASCII text is a character boundary.
proof fn lemma_ascii_boundaries(s: Seq<char>)
    requires
        is_ascii_chars(s),
    ensures
        forall|i: int| 0 <= i <= encode_utf8(s).len() ==> #[trigger] is_char_boundary(
            encode_utf8(s),
            i,
        ),
{
    let b = encode_utf8(s);
    is_ascii_chars_encode_utf8(s);
    is_char_boundary_start_end_of_seq(b);
    assert forall|i: int| 0 <= i <= b.len() implies #[trigger] is_char_boundary(b, i) by {
        if i < b.len() {
            assert(b[i] == s[i] as u8);
            assert(s[i] as u32 <= 0x7f);
            assert(!is_continuation_byte(b[i]));
            is_char_boundary_iff_not_is_continuation_byte(b, i);
        }
    }
}

proof fn lemma_cuttable_from(b: Seq<u8>, i: int)
    requires
        0 <= i,
        forall|j: int| 0 <= j <= b.len() ==> #[trigger] is_char_boundary(b, j),
    ensures
        cuttable_from(b, i),
    decreases b.len() - i,
{
    if i + 2 <= b.len() {
        lemma_cuttable_from(b, i + 2);
        assert(is_char_boundary(b, i) && is_char_boundary(b, i + 2));
    }
}

/// `hex_decode` can read any ASCII text: it never cuts inside a character.
pub proof fn lemma_ascii_hex_cuttable(s: Seq<char>)
    requires
        is_ascii_chars(s),
    ensures
        hex_cuttable(encode_utf8(s)),
{
    lemma_ascii_boundaries(s);
    lemma_cuttable_from(encode_utf8(s), 0);
}

/// The hex text of `k` has two lower-case hex digits per byte, and
/// `hex_decode` reads it (without cutting a character) back as `k`.
pub proof fn lemma_hex_law(k: Seq<u8>)
    ensures
        hex_text(k).len() == 2 * k.len(),
        forall|i: int| 0 <= i < hex_text(k).len() ==> is_hex_char(#[trigger] hex_text(k)[i]),
        hex_cuttable(encode_utf8(hex_text(k))),
        hex_bytes(encode_utf8(hex_text(k))) == Some(k),
{
    lemma_hex_text_facts(k);
    let t = hex_text(k);
    assert(is_ascii_chars(t)) by {
        assert forall|i: int| 0 <= i < t.len() implies '\0' <= #[trigger] t[i] <= '\u{7f}' by {
            assert(is_hex_char(t[i]));
        }
    }
    lemma_ascii_hex_cuttable(t);
    lemma_hex_roundtrip(k);
}

} // verus!
