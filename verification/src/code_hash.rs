//! Content hashes of compiled binaries.
//!
//! A code hash is the SHA-256 digest of the exact bytes of a build
//! output; it is the canonical identity of "this exact compiled code".
//! Externally it travels in a base-58 text encoding, and inside JSON
//! documents as a quoted string of that encoding.

use vstd::prelude::*;

use sha2::Digest;

use crate::hexcode::push_char;

verus! {

/// The SHA-256 digest of a byte string. The digest itself is named, not
/// spelled out: it depends on the bytes alone, and the implementation is
/// trusted to the `sha2` crate.
pub uninterp spec fn sha256_of(bytes: Seq<u8>) -> Seq<u8>;

/// Relies on `sha2::Sha256`: the 32-byte SHA-256 digest of `bytes`,
/// a function of `bytes` alone.
#[verifier::external_body]
fn sha256(bytes: &[u8]) -> (r: Vec<u8>)
    ensures
        r@ == sha256_of(bytes@),
        r@.len() == 32,
{
    sha2::Sha256::digest(bytes).to_vec()
}

/// The base-58 alphabet used for code hashes, in digit-value order.
pub open spec fn b58_alphabet() -> Seq<char> {
    seq![
        '1', '2', '3', '4', '5', '6', '7', '8', '9', 'A', 'B', 'C', 'D', 'E', 'F', 'G', 'H', 'J',
        'K', 'L', 'M', 'N', 'P', 'Q', 'R', 'S', 'T', 'U', 'V', 'W', 'X', 'Y', 'Z', 'a', 'b', 'c',
        'd', 'e', 'f', 'g', 'h', 'i', 'j', 'k', 'm', 'n', 'o', 'p', 'q', 'r', 's', 't', 'u', 'v',
        'w', 'x', 'y', 'z',
    ]
}

pub open spec fn is_b58_char(c: char) -> bool {
    b58_alphabet().contains(c)
}

/// The value of `bytes` read as one big-endian number.
pub open spec fn bytes_to_nat(bytes: Seq<u8>) -> nat
    decreases bytes.len(),
{
    if bytes.len() == 0 {
        0
    } else {
        bytes_to_nat(bytes.drop_last()) * 256 + bytes.last() as nat
    }
}

/// The base-58 digits of `n`, most significant first; empty for zero.
pub open spec fn nat_to_b58(n: nat) -> Seq<char>
    decreases n,
{
    if n == 0 {
        Seq::empty()
    } else {
        nat_to_b58(n / 58) + seq![b58_alphabet()[(n % 58) as int]]
    }
}

pub open spec fn leading_zero_count(bytes: Seq<u8>) -> int
    decreases bytes.len(),
{
    if bytes.len() > 0 && bytes.first() == 0 {
        1 + leading_zero_count(bytes.drop_first())
    } else {
        0
    }
}

/// The base-58 text for `bytes`: one `'1'` per leading zero byte, then
/// the digits of the remaining value.
pub open spec fn base58_of(bytes: Seq<u8>) -> Seq<char> {
    Seq::new(leading_zero_count(bytes) as nat, |i: int| '1') + nat_to_b58(bytes_to_nat(bytes))
}

/// Relies on `bs58::encode` with its default (Bitcoin) alphabet: writes
/// the value of the bytes in base 58, leading zero bytes as `'1'`.
#[verifier::external_body]
fn bs58_encode(bytes: &[u8]) -> (r: String)
    ensures
        r@ == base58_of(bytes@),
{
    bs58::encode(bytes).into_string()
}

/// Relies on `bs58::decode` with its default (Bitcoin) alphabet: succeeds
/// exactly on strings made of alphabet characters, and returns the bytes
/// whose encoding is the input.
#[verifier::external_body]
fn bs58_decode(s: &str) -> (r: Option<Vec<u8>>)
    ensures
        r is Some <==> (forall|i: int| 0 <= i < s@.len() ==> is_b58_char(#[trigger] s@[i])),
        r matches Some(v) ==> base58_of(v@) == s@,
{
    bs58::decode(s).into_vec().ok()
}

/// Byte-string equality, accumulated bitwise over the whole length so
/// that the comparison does not return early on the first mismatch.
pub fn eq_bytes(a: &[u8], b: &[u8]) -> (r: bool)
    ensures
        r == (a@ == b@),
{
    if a.len() != b.len() {
        assert(a@ !~= b@);
        return false;
    }
    let n = a.len();
    let mut diff: u8 = 0;
    let mut i: usize = 0;
    while i < n
        invariant
            a@.len() == n,
            b@.len() == n,
            i <= n,
            diff == 0 <==> (forall|j: int| 0 <= j < i ==> a@[j] == b@[j]),
        decreases n - i,
    {
        let x = a[i];
        let y = b[i];
        assert((((x ^ y) == 0) == (x == y)) && (((diff | (x ^ y)) == 0) == (diff == 0 && (x ^ y)
            == 0))) by (bit_vector);
        diff = diff | (x ^ y);
        i += 1;
    }
    if diff == 0 {
        assert(a@ =~= b@);
        true
    } else {
        false
    }
}

/// A well-formed JSON string literal holding base-58 text: a quote, the
/// alphabet characters, a closing quote.
pub open spec fn is_json_b58_string(s: Seq<char>) -> bool {
    &&& s.len() >= 2
    &&& s.first() == '"'
    &&& s.last() == '"'
    &&& forall|i: int| 1 <= i < s.len() - 1 ==> is_b58_char(#[trigger] s[i])
}

/// The SHA-256 digest of a compiled binary.
#[derive(Debug)]
pub struct CodeHash(pub Vec<u8>);

impl Clone for CodeHash {
    fn clone(&self) -> (r: Self)
        ensures
            r@ == self@,
    {
        let copy = self.0.clone();
        proof {
            assert(copy@ =~= self.0@);
        }
        CodeHash(copy)
    }
}

impl View for CodeHash {
    type V = Seq<u8>;

    open spec fn view(&self) -> Seq<u8> {
        self.0@
    }
}

impl PartialEq for CodeHash {
    fn eq(&self, other: &Self) -> (r: bool) {
        proof {
            assert(self.0@ == other.0@ ==> self@ == other@);
        }
        eq_bytes(self.0.as_slice(), other.0.as_slice())
    }
}

impl Eq for CodeHash {

}

impl vstd::std_specs::cmp::PartialEqSpecImpl for CodeHash {
    open spec fn obeys_eq_spec() -> bool {
        true
    }

    open spec fn eq_spec(&self, other: &Self) -> bool {
        self.0@ == other.0@
    }
}

impl CodeHash {
    /// The digest of the given bytes, computed over exactly those bytes.
    pub fn hash_bytes(bytes: &[u8]) -> (r: Self)
        ensures
            r@ == sha256_of(bytes@),
            r@.len() == 32,
    {
        CodeHash(sha256(bytes))
    }

    /// The base-58 rendering of the digest.
    pub fn to_base58(&self) -> (r: String)
        ensures
            r@ == base58_of(self@),
    {
        bs58_encode(self.0.as_slice())
    }

    /// The digest as a JSON string literal: its base-58 rendering between
    /// double quotes.
    pub fn to_json_string(&self) -> (r: String)
        ensures
            r@ == seq!['"'] + base58_of(self@) + seq!['"'],
    {
        let encoded = self.to_base58();
        let mut r = String::new();
        push_char(&mut r, '"');
        r.append(encoded.as_str());
        push_char(&mut r, '"');
        assert(r@ =~= seq!['"'] + base58_of(self@) + seq!['"']);
        r
    }

    /// Reads a base-58 rendering back into a hash; `None` when a character
    /// falls outside the alphabet.
    pub fn from_base58(s: &str) -> (r: Option<Self>)
        ensures
            r is Some <==> (forall|i: int| 0 <= i < s@.len() ==> is_b58_char(#[trigger] s@[i])),
            r matches Some(h) ==> base58_of(h@) == s@,
    {
        match bs58_decode(s) {
            Some(v) => Some(CodeHash(v)),
            None => None,
        }
    }

    /// Reads a JSON string literal holding a base-58 rendering; `None`
    /// unless the text is quoted and the body stays in the alphabet.
    pub fn from_json_str(s: &str) -> (r: Option<Self>)
        ensures
            r is Some <==> is_json_b58_string(s@),
            r matches Some(h) ==> base58_of(h@) == s@.subrange(1, s@.len() - 1),
    {
        let n = s.unicode_len();
        if n < 2 {
            return None;
        }
        if s.get_char(0) != '"' || s.get_char(n - 1) != '"' {
            return None;
        }
        let inner = s.substring_char(1, n - 1);
        let r = Self::from_base58(inner);
        proof {
            assert(inner@ =~= s@.subrange(1, s@.len() - 1));
            if forall|i: int| 1 <= i < s@.len() - 1 ==> is_b58_char(#[trigger] s@[i]) {
                assert forall|i: int| 0 <= i < inner@.len() implies is_b58_char(
                    #[trigger] inner@[i],
                ) by {
                    assert(inner@[i] == s@[i + 1]);
                }
            }
            if forall|i: int| 0 <= i < inner@.len() ==> is_b58_char(#[trigger] inner@[i]) {
                assert forall|i: int| 1 <= i < s@.len() - 1 implies is_b58_char(
                    #[trigger] s@[i],
                ) by {
                    assert(s@[i] == inner@[i - 1]);
                }
            }
        }
        r
    }
}

/// Hashing is a function of the bytes alone: hashing the same bytes a
/// second time yields the identical digest.
pub proof fn lemma_hash_deterministic(a: Seq<u8>, b: Seq<u8>)
    requires
        a == b,
    ensures
        sha256_of(a) == sha256_of(b),
{
}

/// The SHA-256 digest of the given bytes.
pub fn hash_bytes(bytes: &[u8]) -> (r: Vec<u8>)
    ensures
        r@ == sha256_of(bytes@),
        r@.len() == 32,
{
    sha256(bytes)
}

/// The base-58 rendering of the given bytes.
pub fn encode_bs58(bytes: &[u8]) -> (r: String)
    ensures
        r@ == base58_of(bytes@),
{
    bs58_encode(bytes)
}

/// The base-58 rendering of the SHA-256 digest of the given bytes.
pub fn hash_code(bytes: &[u8]) -> (r: String)
    ensures
        r@ == base58_of(sha256_of(bytes@)),
{
    let digest = hash_bytes(bytes);
    encode_bs58(digest.as_slice())
}

} // verus!
