//! Webhook signature verification.
//!
//! Deliveries carry a header listing `version=signature` pairs separated
//! by commas, the signature being the hex rendering of an HMAC-SHA-256
//! digest computed with a shared secret over the raw body bytes, exactly
//! as they came over the wire. Verification extracts the pair of the one
//! supported version and compares its signature with a freshly computed
//! digest over the whole length of both strings.

use vstd::prelude::*;

use hmac::{Hmac, KeyInit, Mac};
use sha2::Sha256;

use crate::code_hash::eq_bytes;
use crate::hexcode::hex_decode;
use crate::hexcode::hex_decode_spec;
use crate::hexcode::hex_encode_spec;
use crate::hexcode::lemma_hex_round_trip;

verus! {

/// The HMAC-SHA-256 digest of `msg` keyed by `key`. The digest is named,
/// not spelled out: it depends on the two arguments alone, and the
/// implementation is trusted to the `hmac` and `sha2` crates.
pub uninterp spec fn hmac_sha256_of(key: Seq<u8>, msg: Seq<u8>) -> Seq<u8>;

/// Relies on `Hmac<Sha256>` of the `hmac` crate: the 32-byte keyed digest
/// of `msg` under `key`, a function of the two alone. HMAC accepts keys
/// of any length, so construction cannot fail.
#[verifier::external_body]
fn hmac_sha256(key: &[u8], msg: &[u8]) -> (r: Vec<u8>)
    ensures
        r@ == hmac_sha256_of(key@, msg@),
        r@.len() == 32,
{
    let mut mac =
        <Hmac<Sha256> as KeyInit>::new_from_slice(key).expect("HMAC accepts keys of any length");
    mac.update(msg);
    mac.finalize().into_bytes().to_vec()
}

/// The position of the first `sep` in `s`, or `s.len()` when there is none.
pub open spec fn first_at(s: Seq<char>, sep: char) -> nat
    decreases s.len(),
{
    if s.len() == 0 {
        0
    } else if s.first() == sep {
        0
    } else {
        1 + first_at(s.drop_first(), sep)
    }
}

/// The segments of `s` between occurrences of `sep`, in order; an empty
/// string yields one empty segment, as `str::split` does.
pub open spec fn split_on(s: Seq<char>, sep: char) -> Seq<Seq<char>>
    decreases s.len(),
{
    let i = first_at(s, sep) as int;
    if i >= s.len() {
        seq![s]
    } else {
        seq![s.subrange(0, i)] + split_on(s.subrange(i + 1, s.len() as int), sep)
    }
}

/// A `version=signature` pair whose version is the one supported tag
/// `v1`: the text `v1=` followed by the signature, which holds no
/// further `=`.
pub open spec fn is_v1_pair(seg: Seq<char>) -> bool {
    &&& seg.len() >= 3
    &&& seg[0] == 'v'
    &&& seg[1] == '1'
    &&& seg[2] == '='
    &&& forall|i: int| 3 <= i < seg.len() ==> seg[i] != '='
}

/// The signature text of a `v1=` pair.
pub open spec fn sig_of_pair(seg: Seq<char>) -> Seq<char> {
    seg.subrange(3, seg.len() as int)
}

/// The signature of the first compatible pair, or `None` when no pair
/// carries the supported version.
pub open spec fn find_v1(pairs: Seq<Seq<char>>) -> Option<Seq<char>>
    decreases pairs.len(),
{
    if pairs.len() == 0 {
        None
    } else if is_v1_pair(pairs.first()) {
        Some(sig_of_pair(pairs.first()))
    } else {
        find_v1(pairs.drop_first())
    }
}

/// What signature the header offers under the supported version.
pub open spec fn extract_spec(header: Seq<char>) -> Option<Seq<char>> {
    find_v1(split_on(header, ','))
}

proof fn lemma_first_at_is(s: Seq<char>, sep: char, m: int)
    requires
        0 <= m <= s.len(),
        forall|j: int| 0 <= j < m ==> s[j] != sep,
        m < s.len() ==> s[m] == sep,
    ensures
        first_at(s, sep) == m,
    decreases s.len(),
{
    if s.len() > 0 && s.first() != sep {
        assert forall|j: int| 0 <= j < m - 1 implies s.drop_first()[j] != sep by {
            assert(s.drop_first()[j] == s[j + 1]);
        }
        lemma_first_at_is(s.drop_first(), sep, m - 1);
    }
}

/// Extracts the signature of the one supported version from a header of
/// comma-separated `version=signature` pairs; pairs of other versions,
/// and malformed pairs, are passed over.
pub fn extract_compatible_signature(header: &str) -> (r: Option<&str>)
    ensures
        match r {
            Some(sig) => extract_spec(header@) == Some(sig@),
            None => extract_spec(header@) is None,
        },
{
    let n = header.unicode_len();
    let mut pos: usize = 0;
    proof {
        assert(header@.subrange(0, n as int) =~= header@);
    }
    loop
        invariant
            pos <= n,
            n == header@.len(),
            extract_spec(header@) == find_v1(
                split_on(header@.subrange(pos as int, n as int), ','),
            ),
        decreases n - pos,
    {
        let ghost suffix = header@.subrange(pos as int, n as int);
        // Find the end of the segment that starts at `pos`.
        let mut j: usize = pos;
        while j < n && header.get_char(j) != ','
            invariant
                pos <= j <= n,
                n == header@.len(),
                forall|p: int| pos <= p < j ==> header@[p] != ',',
            decreases n - j,
        {
            j += 1;
        }
        proof {
            assert forall|q: int| 0 <= q < j - pos implies suffix[q] != ',' by {
                assert(suffix[q] == header@[pos + q]);
            }
            if j < n {
                assert(suffix[j - pos] == header@[j as int]);
            }
            lemma_first_at_is(suffix, ',', j - pos as int);
        }
        let ghost seg = suffix.subrange(0, j - pos as int);
        proof {
            assert forall|q: int| 0 <= q < seg.len() implies seg[q] == header@[pos + q] by {
                assert(seg[q] == suffix[q]);
            }
        }
        // Does this segment read `v1=<signature>`?
        let matched: bool;
        if j - pos >= 3 && header.get_char(pos) == 'v' && header.get_char(pos + 1) == '1'
            && header.get_char(pos + 2) == '=' {
            // The prefix fits; a further `=` in the remainder would make the
            // pair malformed rather than compatible.
            let mut no_eq = true;
            let mut k: usize = pos + 3;
            while k < j
                invariant
                    pos + 3 <= k <= j <= n,
                    n == header@.len(),
                    no_eq <==> (forall|p: int| pos + 3 <= p < k ==> header@[p] != '='),
                decreases j - k,
            {
                if header.get_char(k) == '=' {
                    no_eq = false;
                }
                k += 1;
            }
            matched = no_eq;
            proof {
                if matched {
                    assert forall|i: int| 3 <= i < seg.len() implies seg[i] != '=' by {
                        assert(seg[i] == header@[pos + i]);
                    }
                    assert(is_v1_pair(seg));
                } else {
                    let p = choose|p: int| pos + 3 <= p < j && header@[p] == '=';
                    assert(seg[p - pos] == header@[p]);
                    assert(!is_v1_pair(seg));
                }
            }
        } else {
            matched = false;
            proof {
                assert(seg.len() == j - pos);
                if is_v1_pair(seg) {
                    assert(seg[0] == header@[pos + 0]);
                    assert(seg[1] == header@[pos + 1]);
                    assert(seg[2] == header@[pos + 2]);
                }
                assert(!is_v1_pair(seg));
            }
        }
        if matched {
            let sig = header.substring_char(pos + 3, j);
            proof {
                let pairs = split_on(suffix, ',');
                if (j as int) - (pos as int) >= suffix.len() {
                    assert(pairs == seq![suffix]);
                    assert(seg =~= suffix);
                } else {
                    assert(pairs.first() == seg);
                }
                assert(find_v1(pairs) == Some(sig_of_pair(seg)));
                assert(sig@ =~= sig_of_pair(seg));
            }
            return Some(sig);
        }
        if j == n {
            proof {
                let pairs = split_on(suffix, ',');
                assert(seg =~= suffix);
                assert(pairs == seq![suffix]);
                assert(pairs.first() == suffix);
                assert(pairs.drop_first() =~= Seq::<Seq<char>>::empty());
                assert(find_v1(Seq::<Seq<char>>::empty()) is None);
                assert(find_v1(pairs) is None);
            }
            return None;
        }
        proof {
            let pairs = split_on(suffix, ',');
            assert(pairs.first() == seg);
            let rest = suffix.subrange(j - pos as int + 1, suffix.len() as int);
            assert(pairs == seq![seg] + split_on(rest, ','));
            assert(pairs.drop_first() =~= split_on(rest, ','));
            assert(rest =~= header@.subrange(j as int + 1, n as int));
        }
        pos = j + 1;
    }
}

/// Whether the hex text `signature` spells exactly the keyed digest of
/// `body` under `key`.
pub open spec fn signature_matches(key: Seq<u8>, signature: Seq<char>, body: Seq<u8>) -> bool {
    hex_decode_spec(signature) == Some(hmac_sha256_of(key, body))
}

/// Computes the keyed digest over the raw body bytes, exactly as
/// received, and compares it with the hex-encoded signature over the
/// whole length of both.
pub fn verify_signature(secret: &[u8], signature: &str, body: &[u8]) -> (r: bool)
    ensures
        r == signature_matches(secret@, signature@, body@),
{
    let expected = hmac_sha256(secret, body);
    match hex_decode(signature) {
        None => false,
        Some(given) => eq_bytes(given.as_slice(), expected.as_slice()),
    }
}

/// Rejection of a webhook delivery before its body is ever parsed.
#[derive(Clone, Copy, Debug, PartialEq, Eq, Structural)]
pub enum SignatureError {
    /// No pair of the header carries the one supported signature version.
    IncompatibleSignatureVersion,
}

/// Full verification of a delivery: extracts the signature of the
/// supported version from the header, failing with
/// [`SignatureError::IncompatibleSignatureVersion`] when no pair carries
/// it, and otherwise reports whether the signature matches the keyed
/// digest of the raw body.
pub fn verify(secret: &[u8], header: &str, body: &[u8]) -> (r: Result<bool, SignatureError>)
    ensures
        match r {
            Ok(ok) => {
                &&& extract_spec(header@) is Some
                &&& ok == signature_matches(secret@, extract_spec(header@).unwrap(), body@)
            },
            Err(e) => {
                &&& extract_spec(header@) is None
                &&& e == SignatureError::IncompatibleSignatureVersion
            },
        },
{
    match extract_compatible_signature(header) {
        None => Err(SignatureError::IncompatibleSignatureVersion),
        Some(sig) => Ok(verify_signature(secret, sig, body)),
    }
}

/// The signature a sender sharing `secret` would attach for `body`: the
/// hex rendering of the keyed digest.
pub fn sign_body(secret: &[u8], body: &[u8]) -> (r: String)
    ensures
        r@ == hex_encode_spec(hmac_sha256_of(secret@, body@)),
{
    let mac = hmac_sha256(secret, body);
    crate::hexcode::hex_encode(mac.as_slice())
}

/// A signature computed with the same secret over the same body always
/// verifies: the hex rendering of the keyed digest matches that digest.
pub proof fn lemma_own_signature_verifies(secret: Seq<u8>, body: Seq<u8>)
    ensures
        signature_matches(secret, hex_encode_spec(hmac_sha256_of(secret, body)), body),
{
    lemma_hex_round_trip(hmac_sha256_of(secret, body));
}

} // verus!
