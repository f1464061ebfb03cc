//! Node ids: the public keys by which machines are addressed and granted access.

use crate::base32::{base32_case, base32_is_injective, base32_text};
use crate::text::{ascii_upper, byte_count, byte_len, hex_digit, hex_text, uppered};
use vstd::prelude::*;
use vstd::utf8::{is_ascii_chars, is_ascii_chars_encode_utf8};

verus! {

/// The 32 bytes are a public key: `iroh::PublicKey::from_bytes` accepts them.
pub uninterp spec fn is_public_key(bytes: Seq<u8>) -> bool;

/// The public key of the secret key made from a seed of 32 bytes.
pub uninterp spec fn public_key_of(seed: Seq<u8>) -> Seq<u8>;

/// What `iroh::PublicKey`'s parser says of a text that it does not accept. A text of 64 bytes is
/// taken for hexadecimal, any other for base32, which has 52 symbols for a key.
pub open spec fn key_parsing_error(text: Seq<char>) -> Seq<char> {
    if byte_len(text) == 64 {
        if exists|bytes: Seq<u8>| #[trigger] hex_text(bytes) == text {
            "data is not a valid public key"@
        } else {
            "failed to decode hex string"@
        }
    } else if byte_len(text) != 52 {
        "invalid length"@
    } else if exists|bytes: Seq<u8>| #[trigger] base32_text(bytes) == uppered(text) {
        "data is not a valid public key"@
    } else {
        "failed to decode base32 string"@
    }
}

/// `text` is a way to write the public key `key`: its 64 lower-case hexadecimal digits, or its
/// base32 in either case.
pub open spec fn names_key(text: Seq<char>, key: Seq<u8>) -> bool {
    &&& key.len() == 32
    &&& is_public_key(key)
    &&& text == hex_text(key) || uppered(text) == base32_text(key)
}

/// Why a text that names no key is refused.
pub open spec fn key_refusal(text: Seq<char>) -> Seq<char> {
    if byte_len(text) <= usize::MAX / 8 {
        key_parsing_error(text)
    } else {
        "the text is too long"@
    }
}

/// `iroh::PublicKey::from_bytes`: whether the bytes are a public key, or the text of the error, which
/// is its message alone. A key keeps the bytes that it was made from.
#[verifier::external_body]
fn accept_key(bytes: &[u8; 32]) -> (r: Result<(), String>)
    ensures
        match r {
            Ok(()) => is_public_key(bytes@),
            Err(cause) => !is_public_key(bytes@) && cause@ == "data is not a valid public key"@,
        },
{
    match iroh::PublicKey::from_bytes(bytes) {
        Ok(_) => Ok(()),
        Err(e) => Err(e.to_string()),
    }
}

/// `iroh::PublicKey`'s `FromStr`: the key that the text names, in hexadecimal or base32, or the
/// text of the error, which is its message alone. It panics on text whose length it cannot compute
/// with, which the bound leaves out.
#[verifier::external_body]
fn parse_key(text: &str) -> (r: Result<[u8; 32], String>)
    requires
        byte_len(text@) <= usize::MAX / 8,
    ensures
        match r {
            Ok(key) => names_key(text@, key@),
            Err(e) => e@ == key_parsing_error(text@) && forall|key: Seq<u8>| !names_key(text@, key),
        },
{
    match text.parse::<iroh::PublicKey>() {
        Ok(key) => Ok(*key.as_bytes()),
        Err(e) => Err(e.to_string()),
    }
}

/// `iroh::PublicKey`'s `Display`: the 64 lower-case hexadecimal digits of its bytes. The bytes must
/// be a public key, or there is none to display.
#[verifier::external_body]
fn key_text(bytes: &[u8; 32]) -> (r: String)
    requires
        is_public_key(bytes@),
    ensures
        r@ == hex_text(bytes@),
{
    iroh::PublicKey::from_bytes(bytes).expect("a public key").to_string()
}

/// `iroh::PublicKey::fmt_short`: the hexadecimal digits of the first five bytes. The bytes must be
/// a public key, or there is none to display.
#[verifier::external_body]
fn key_short_text(bytes: &[u8; 32]) -> (r: String)
    requires
        is_public_key(bytes@),
    ensures
        r@ == hex_text(bytes@.take(5)),
{
    iroh::PublicKey::from_bytes(bytes).expect("a public key").fmt_short().to_string()
}

/// `iroh::SecretKey::from_bytes` and `public`: the public key that belongs to a seed. It is named,
/// not described, but it is a public key.
#[verifier::external_body]
fn key_of_seed(seed: &[u8; 32]) -> (r: [u8; 32])
    ensures
        r@ == public_key_of(seed@),
        is_public_key(r@),
{
    *iroh::SecretKey::from_bytes(seed).public().as_bytes()
}

/// A node id: 32 bytes that are a public key.
#[derive(Clone, Copy, Debug, PartialEq, Eq)]
pub struct NodeId {
    bytes: [u8; 32],
}

impl View for NodeId {
    type V = Seq<u8>;

    closed spec fn view(&self) -> Seq<u8> {
        self.bytes@
    }
}

impl NodeId {
    #[verifier::type_invariant]
    spec fn valid(self) -> bool {
        is_public_key(self.bytes@)
    }

    /// The node id with these bytes, or why they are not a public key.
    pub fn from_bytes(bytes: &[u8; 32]) -> (r: Result<NodeId, String>)
        ensures
            match r {
                Ok(id) => is_public_key(bytes@) && id@ == bytes@,
                Err(cause) => !is_public_key(bytes@) && cause@ == "data is not a valid public key"@,
            },
    {
        match accept_key(bytes) {
            Ok(()) => Ok(NodeId { bytes: *bytes }),
            Err(cause) => Err(cause),
        }
    }

    /// The node id of the machine whose secret key has this seed.
    pub fn of_seed(seed: &[u8; 32]) -> (r: NodeId)
        ensures
            r@ == public_key_of(seed@),
            is_public_key(r@),
    {
        NodeId { bytes: key_of_seed(seed) }
    }

    /// Parse a node id from hexadecimal or base32. A text that is no node id gives the parser's
    /// reason, or says that it is too long to be one.
    pub fn parse(text: &str) -> (r: Result<NodeId, String>)
        ensures
            match r {
                Ok(id) => names_key(text@, id@),
                Err(reason) => {
                    &&& forall|key: Seq<u8>| !names_key(text@, key)
                    &&& reason@ == key_refusal(text@)
                },
            },
    {
        if byte_count(text) > usize::MAX / 8 {
            proof {
                assert forall|key: Seq<u8>| !names_key(text@, key) by {
                    if names_key(text@, key) {
                        lemma_key_text_is_short(text@, key);
                    }
                }
            }
            return Err("the text is too long".to_owned());
        }
        match parse_key(text) {
            Ok(bytes) => Ok(NodeId { bytes }),
            Err(reason) => Err(reason),
        }
    }

    pub fn as_bytes(&self) -> (r: &[u8; 32])
        ensures
            r@ == self@,
            is_public_key(self@),
    {
        proof {
            use_type_invariant(self);
        }
        &self.bytes
    }

    /// The node id in hexadecimal, the form in which grants store it.
    pub fn to_text(&self) -> (r: String)
        ensures
            r@ == hex_text(self@),
    {
        proof {
            use_type_invariant(self);
        }
        key_text(&self.bytes)
    }

    /// The first ten hexadecimal digits, for log lines.
    pub fn short_text(&self) -> (r: String)
        ensures
            r@ == hex_text(self@.take(5)),
    {
        proof {
            use_type_invariant(self);
        }
        key_short_text(&self.bytes)
    }

    /// Whether two node ids are the same key.
    pub fn same(&self, other: &NodeId) -> (r: bool)
        ensures
            r == (self@ == other@),
    {
        same_bytes(&self.bytes, &other.bytes)
    }
}

/// Hexadecimal text is ASCII.
pub proof fn hex_text_is_ascii(bytes: Seq<u8>)
    ensures
        is_ascii_chars(hex_text(bytes)),
        byte_len(hex_text(bytes)) == 2 * bytes.len(),
{
    let t = hex_text(bytes);
    assert forall|i: int| 0 <= i < t.len() implies '\0' <= #[trigger] t[i] <= '\u{7f}' by {
        let n = if i % 2 == 0 { bytes[i / 2] as int / 16 } else { bytes[i / 2] as int % 16 };
        assert(0 <= n < 16);
        assert(t[i] == hex_digit(n));
    }
    is_ascii_chars_encode_utf8(t);
}

proof fn lemma_key_text_is_short(text: Seq<char>, key: Seq<u8>)
    requires
        names_key(text, key),
    ensures
        byte_len(text) <= 64,
{
    if text == hex_text(key) {
        hex_text_is_ascii(key);
    } else {
        base32_case(key);
        assert(uppered(text).len() == text.len());
        assert forall|i: int| 0 <= i < text.len() implies '\0' <= #[trigger] text[i] <= '\u{7f}' by {
            assert(uppered(text)[i] == ascii_upper(text[i]));
            assert(base32_text(key)[i] == ascii_upper(text[i]));
        }
        is_ascii_chars_encode_utf8(text);
    }
}

/// No two byte sequences have the same hexadecimal text.
pub proof fn hex_text_is_injective(a: Seq<u8>, b: Seq<u8>)
    requires
        hex_text(a) == hex_text(b),
    ensures
        a == b,
{
    assert(hex_text(a).len() == 2 * a.len() && hex_text(b).len() == 2 * b.len());
    assert forall|n: int| 0 <= n < a.len() implies a[n] == b[n] by {
        assert(hex_text(a)[2 * n] == hex_digit(a[n] as int / 16));
        assert(hex_text(b)[2 * n] == hex_digit(b[n] as int / 16));
        assert(hex_text(a)[2 * n + 1] == hex_digit(a[n] as int % 16));
        assert(hex_text(b)[2 * n + 1] == hex_digit(b[n] as int % 16));
        lemma_hex_digit_is_injective(a[n] as int / 16, b[n] as int / 16);
        lemma_hex_digit_is_injective(a[n] as int % 16, b[n] as int % 16);
    }
    assert(a =~= b);
}

proof fn lemma_hex_digit_is_injective(d: int, e: int)
    requires
        0 <= d < 16,
        0 <= e < 16,
        hex_digit(d) == hex_digit(e),
    ensures
        d == e,
{
    assert(hex_digit(d) as int == if d < 10 { 48 + d } else { 87 + d });
    assert(hex_digit(e) as int == if e < 10 { 48 + e } else { 87 + e });
}

/// A text names at most one key.
pub proof fn names_one_key(text: Seq<char>, a: Seq<u8>, b: Seq<u8>)
    requires
        names_key(text, a),
        names_key(text, b),
    ensures
        a == b,
{
    assert(hex_text(a).len() == 64 && hex_text(b).len() == 64);
    assert(base32_text(a).len() == 52 && base32_text(b).len() == 52);
    assert(uppered(text).len() == text.len());
    if text == hex_text(a) {
        hex_text_is_injective(a, b);
    } else {
        base32_is_injective(a, b);
    }
}

/// The key that a text names, where it names one.
pub open spec fn key_named(text: Seq<char>) -> Option<Seq<u8>> {
    if exists|key: Seq<u8>| names_key(text, key) {
        Some(choose|key: Seq<u8>| names_key(text, key))
    } else {
        None
    }
}

/// `key_named` is the key that the text names.
pub proof fn lemma_key_named(text: Seq<char>, key: Seq<u8>)
    requires
        names_key(text, key),
    ensures
        key_named(text) == Some(key),
{
    names_one_key(text, choose|k: Seq<u8>| names_key(text, k), key);
}

pub(crate) fn same_bytes<const N: usize>(a: &[u8; N], b: &[u8; N]) -> (r: bool)
    ensures
        r == (a@ == b@),
{
    let mut i: usize = 0;
    while i < N
        invariant
            i <= N,
            forall|j: int| 0 <= j < i ==> a@[j] == b@[j],
        decreases N - i,
    {
        if a[i] != b[i] {
            return false;
        }
        i = i + 1;
    }
    assert(a@ =~= b@);
    true
}

} // verus!
