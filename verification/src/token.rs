//! The token service: issues and verifies signed, stateless bearer tokens.
//!
//! A token is three URL-safe base64 segments joined by dots: a fixed JSON
//! header, a JSON claims object whose only populated claim is the subject,
//! and a keyed SHA-256 digest (HMAC) of the first two segments. Verification
//! recomputes the digest over the header and claims segments with the given
//! secret and compares it to the signature segment; a token that does not
//! split into exactly three segments is rejected, never a crash.
//!
//! The subject is the only populated claim: no expiry, issuer or audience
//! claim is set, so a token stays valid for as long as its secret does.

use vstd::prelude::*;
use vstd::slice::slice_subrange;
use crate::bytes_eq;
use crate::append_bytes;
use crate::codec::hex_digit;
use crate::codec::b64url_of;
use crate::codec::b64url_encode;
use crate::codec::b64url_alphabet_contains;
use crate::codec::is_b64url_byte;
use crate::codec::lemma_b64url_alphabet;

verus! {

/// The HMAC-SHA256 keyed digest (32 bytes) of a message. Left
/// uninterpreted: the trusted wrapper below is the only thing that
/// produces it.
pub uninterp spec fn hmac_sha256_of(key: Seq<u8>, msg: Seq<u8>) -> Seq<u8>;

/// Relies on rust-crypto's `Hmac` over its `Sha256`: the digest is 32 bytes
/// and a function of the key and the message alone.
#[verifier::external_body]
fn hmac_sha256(key: &[u8], msg: &[u8]) -> (r: Vec<u8>)
    ensures
        r@ == hmac_sha256_of(key@, msg@),
        r@.len() == 32,
{
    let mut mac = crypto::hmac::Hmac::new(crypto::sha2::Sha256::new(), key);
    crypto::mac::Mac::input(&mut mac, msg);
    crypto::mac::Mac::result(&mut mac).code().to_vec()
}

/// The escape of one byte inside a JSON string literal: quote and backslash
/// get a backslash, control bytes become a `\u00XX` sequence, every other
/// byte stands as itself.
pub open spec fn json_escape_byte(b: u8) -> Seq<u8> {
    if b == 34 {
        seq![92u8, 34u8]
    } else if b == 92 {
        seq![92u8, 92u8]
    } else if b < 32 {
        seq![92u8, 117u8, 48u8, 48u8, hex_digit(b as int / 16), hex_digit(b as int % 16)]
    } else {
        seq![b]
    }
}

/// A byte string escaped for use inside a JSON string literal.
pub open spec fn json_escaped(s: Seq<u8>) -> Seq<u8>
    decreases s.len(),
{
    if s.len() == 0 {
        Seq::empty()
    } else {
        json_escape_byte(s[0]) + json_escaped(s.skip(1))
    }
}

fn json_escape(s: &[u8]) -> (r: Vec<u8>)
    ensures
        r@ == json_escaped(s@),
{
    let mut out: Vec<u8> = Vec::new();
    let mut i: usize = 0;
    proof {
        assert(s@.skip(0) =~= s@);
        assert(out@ + json_escaped(s@) =~= json_escaped(s@));
    }
    while i < s.len()
        invariant
            0 <= i <= s@.len(),
            json_escaped(s@) == out@ + json_escaped(s@.skip(i as int)),
        decreases s@.len() - i,
    {
        let b = s[i];
        proof {
            assert(s@.skip(i as int)[0] == s@[i as int]);
            assert(s@.skip(i as int).skip(1) =~= s@.skip(i as int + 1));
        }
        if b == 34 {
            out.push(92);
            out.push(34);
        } else if b == 92 {
            out.push(92);
            out.push(92);
        } else if b < 32 {
            out.push(92);
            out.push(117);
            out.push(48);
            out.push(48);
            if b / 16 < 10 {
                out.push(48 + b / 16);
            } else {
                out.push(87 + b / 16);
            }
            if b % 16 < 10 {
                out.push(48 + b % 16);
            } else {
                out.push(87 + b % 16);
            }
        } else {
            out.push(b);
        }
        i = i + 1;
    }
    proof {
        assert(json_escaped(s@.skip(i as int)) =~= Seq::<u8>::empty());
        assert(out@ =~= json_escaped(s@));
    }
    out
}

/// The token's fixed header: the JSON text `{"alg":"HS256","typ":"JWT"}`,
/// byte by byte.
pub open spec fn header_json() -> Seq<u8> {
    seq![
        123u8, 34u8, 97u8, 108u8, 103u8, 34u8, 58u8, 34u8, 72u8, 83u8, 50u8, 53u8, 54u8, 34u8,
        44u8, 34u8, 116u8, 121u8, 112u8, 34u8, 58u8, 34u8, 74u8, 87u8, 84u8, 34u8, 125u8,
    ]
}

/// The token's claims: the JSON text `{"sub":"<subject>"}` with the subject
/// escaped. The subject is the only populated claim.
pub open spec fn claims_json(subject: Seq<u8>) -> Seq<u8> {
    seq![123u8, 34u8, 115u8, 117u8, 98u8, 34u8, 58u8, 34u8] + json_escaped(subject) + seq![
        34u8,
        125u8,
    ]
}

fn build_header() -> (r: Vec<u8>)
    ensures
        r@ == header_json(),
{
    let mut out: Vec<u8> = Vec::new();
    out.push(123);
    out.push(34);
    out.push(97);
    out.push(108);
    out.push(103);
    out.push(34);
    out.push(58);
    out.push(34);
    out.push(72);
    out.push(83);
    out.push(50);
    out.push(53);
    out.push(54);
    out.push(34);
    out.push(44);
    out.push(34);
    out.push(116);
    out.push(121);
    out.push(112);
    out.push(34);
    out.push(58);
    out.push(34);
    out.push(74);
    out.push(87);
    out.push(84);
    out.push(34);
    out.push(125);
    proof {
        assert(out@ =~= header_json());
    }
    out
}

fn build_claims(subject: &[u8]) -> (r: Vec<u8>)
    ensures
        r@ == claims_json(subject@),
{
    let mut out: Vec<u8> = Vec::new();
    out.push(123);
    out.push(34);
    out.push(115);
    out.push(117);
    out.push(98);
    out.push(34);
    out.push(58);
    out.push(34);
    let esc = json_escape(subject);
    append_bytes(&mut out, esc.as_slice());
    out.push(34);
    out.push(125);
    proof {
        assert(out@ =~= claims_json(subject@));
    }
    out
}

/// The part of a token that is signed: the encoded header, a dot, and the
/// encoded claims.
pub open spec fn signing_input_of(subject: Seq<u8>) -> Seq<u8> {
    b64url_of(header_json()) + seq![46u8] + b64url_of(claims_json(subject))
}

/// A freshly issued token for a subject under a secret: the signing input,
/// a dot, and the encoded keyed digest of the signing input.
pub open spec fn token_of(subject: Seq<u8>, secret: Seq<u8>) -> Seq<u8> {
    signing_input_of(subject) + seq![46u8] + b64url_of(
        hmac_sha256_of(secret, signing_input_of(subject)),
    )
}

/// Issues a token whose only populated claim is the subject, signed with
/// the given secret.
pub fn issue(subject: &[u8], secret: &[u8]) -> (t: Vec<u8>)
    ensures
        t@ == token_of(subject@, secret@),
{
    let header = build_header();
    let claims = build_claims(subject);
    let eh = b64url_encode(header.as_slice());
    let ec = b64url_encode(claims.as_slice());
    let mut t: Vec<u8> = Vec::new();
    append_bytes(&mut t, eh.as_slice());
    t.push(46);
    append_bytes(&mut t, ec.as_slice());
    proof {
        assert(t@ =~= signing_input_of(subject@));
    }
    let mac = hmac_sha256(secret, t.as_slice());
    let es = b64url_encode(mac.as_slice());
    t.push(46);
    append_bytes(&mut t, es.as_slice());
    proof {
        assert(t@ =~= token_of(subject@, secret@));
    }
    t
}

/// How many dots (ASCII 46) a byte string contains.
pub open spec fn dot_count(s: Seq<u8>) -> nat
    decreases s.len(),
{
    if s.len() == 0 {
        0
    } else {
        (if s[0] == 46 {
            1nat
        } else {
            0nat
        }) + dot_count(s.skip(1))
    }
}

/// Position `j` splits a byte string into exactly three dot-separated
/// segments: it is the last dot, and exactly one dot stands before it.
pub open spec fn token_split_at(t: Seq<u8>, j: int) -> bool {
    &&& 0 <= j < t.len()
    &&& t[j] == 46
    &&& forall|k: int| j < k < t.len() ==> t[k] != 46
    &&& dot_count(t.take(j)) == 1
}

/// Every byte of a token outside its dots lies in the base64url alphabet:
/// the segments are well-encoded text, not arbitrary bytes.
pub open spec fn segments_in_alphabet(t: Seq<u8>) -> bool {
    forall|k: int| 0 <= k < t.len() && t[k] != 46 ==> #[trigger] is_b64url_byte(t[k])
}

/// A token is accepted under a secret when it has exactly three
/// dot-separated segments of base64url-alphabet bytes and the last segment
/// is the encoded keyed digest of everything before it. A token whose
/// segments are malformed encoding is rejected whatever its signature.
pub open spec fn token_accepted(t: Seq<u8>, secret: Seq<u8>) -> bool {
    &&& segments_in_alphabet(t)
    &&& exists|j: int|
        token_split_at(t, j) && t.skip(j + 1) == b64url_of(hmac_sha256_of(secret, t.take(j)))
}

proof fn lemma_dot_count_split(s: Seq<u8>, j: int)
    requires
        0 <= j <= s.len(),
    ensures
        dot_count(s) == dot_count(s.take(j)) + dot_count(s.skip(j)),
    decreases j,
{
    if j == 0 {
        assert(s.take(0) =~= Seq::<u8>::empty());
        assert(s.skip(0) =~= s);
    } else {
        lemma_dot_count_split(s.skip(1), j - 1);
        assert(s.skip(1).take(j - 1) =~= s.take(j).skip(1));
        assert(s.skip(1).skip(j - 1) =~= s.skip(j));
        assert(s.take(j)[0] == s[0]);
        assert(s.take(j).len() == j);
    }
}

proof fn lemma_dot_count_push(s: Seq<u8>, b: u8)
    ensures
        dot_count(s.push(b)) == dot_count(s) + (if b == 46 {
            1nat
        } else {
            0nat
        }),
{
    lemma_dot_count_split(s.push(b), s.len() as int);
    assert(s.push(b).take(s.len() as int) =~= s);
    let tail = s.push(b).skip(s.len() as int);
    assert(tail.len() == 1);
    assert(tail[0] == b);
    assert(tail.skip(1) =~= Seq::<u8>::empty());
    assert(dot_count(Seq::<u8>::empty()) == 0);
    assert(dot_count(tail) == (if b == 46 {
        1nat
    } else {
        0nat
    }));
}

proof fn lemma_dot_count_none(s: Seq<u8>)
    requires
        forall|k: int| 0 <= k < s.len() ==> s[k] != 46,
    ensures
        dot_count(s) == 0,
    decreases s.len(),
{
    if s.len() > 0 {
        assert(forall|k: int| 0 <= k < s.skip(1).len() ==> s.skip(1)[k] == s[k + 1]);
        lemma_dot_count_none(s.skip(1));
    }
}

/// An accepted token holds exactly two dots.
proof fn lemma_accepted_has_two_dots(t: Seq<u8>, secret: Seq<u8>)
    requires
        token_accepted(t, secret),
    ensures
        dot_count(t) == 2,
{
    let j = choose|j: int|
        token_split_at(t, j) && t.skip(j + 1) == b64url_of(hmac_sha256_of(secret, t.take(j)));
    lemma_dot_count_split(t, j);
    assert(t.skip(j)[0] == t[j]);
    assert(t.skip(j).skip(1) =~= t.skip(j + 1));
    assert(forall|k: int| 0 <= k < t.skip(j + 1).len() ==> #[trigger] t.skip(j + 1)[k] == t[k + j
        + 1]);
    lemma_dot_count_none(t.skip(j + 1));
    assert(dot_count(t.skip(j)) == 1 + dot_count(t.skip(j + 1)));
}

/// Checks a token's structure — three dot-separated segments of
/// base64url-alphabet bytes — then recomputes the keyed digest over the
/// header and claims segments with the given secret and compares it to the
/// signature segment.
pub fn verify(token: &[u8], secret: &[u8]) -> (r: bool)
    ensures
        r == token_accepted(token@, secret@),
{
    let n = token.len();
    let mut i: usize = 0;
    let mut count: usize = 0;
    let mut last: usize = 0;
    let mut wellformed: bool = true;
    proof {
        assert(token@.take(0) =~= Seq::<u8>::empty());
    }
    while i < n
        invariant
            0 <= i <= token@.len(),
            n == token@.len(),
            count == dot_count(token@.take(i as int)),
            count <= i,
            wellformed ==> (forall|k: int|
                0 <= k < i && token@[k] != 46 ==> #[trigger] is_b64url_byte(token@[k])),
            !wellformed ==> (exists|k: int|
                0 <= k < i && token@[k] != 46 && !(#[trigger] is_b64url_byte(token@[k]))),
            count > 0 ==> {
                &&& last < i
                &&& token@[last as int] == 46
                &&& (forall|k: int| last < k < i ==> token@[k] != 46)
                &&& dot_count(token@.take(last as int)) == count - 1
            },
        decreases n - i,
    {
        proof {
            assert(token@.take(i as int + 1) =~= token@.take(i as int).push(token@[i as int]));
            lemma_dot_count_push(token@.take(i as int), token@[i as int]);
        }
        if token[i] == 46 {
            count = count + 1;
            last = i;
        } else if !b64url_alphabet_contains(token[i]) {
            wellformed = false;
        }
        i = i + 1;
    }
    proof {
        assert(token@.take(n as int) =~= token@);
    }
    if !wellformed {
        proof {
            if token_accepted(token@, secret@) {
                let k = choose|k: int|
                    0 <= k < n && token@[k] != 46 && !(#[trigger] is_b64url_byte(token@[k]));
                assert(is_b64url_byte(token@[k]));
            }
        }
        return false;
    }
    if count != 2 {
        proof {
            if token_accepted(token@, secret@) {
                lemma_accepted_has_two_dots(token@, secret@);
            }
        }
        return false;
    }
    let msg = slice_subrange(token, 0, last);
    let sig = slice_subrange(token, last + 1, n);
    let mac = hmac_sha256(secret, msg);
    let expected = b64url_encode(mac.as_slice());
    let ok = bytes_eq(sig, expected.as_slice());
    proof {
        assert(msg@ =~= token@.take(last as int));
        assert(sig@ =~= token@.skip(last as int + 1));
        if ok {
            assert(segments_in_alphabet(token@));
            assert(token_split_at(token@, last as int));
            assert(token_accepted(token@, secret@));
        } else {
            if token_accepted(token@, secret@) {
                let j = choose|j: int|
                    token_split_at(token@, j) && token@.skip(j + 1) == b64url_of(
                        hmac_sha256_of(secret@, token@.take(j)),
                    );
                if j < last as int {
                    assert(token@[last as int] == 46);
                    assert(false);
                } else if j > last as int {
                    assert(token@[j] == 46);
                    assert(false);
                }
                assert(false);
            }
        }
    }
    ok
}

/// An issued token splits exactly at the end of its signing input: the dot
/// there is the last, one dot stands before it, everything before it is
/// the signing input, everything after it is the encoded digest, and every
/// byte outside the dots lies in the base64url alphabet.
proof fn lemma_token_structure(subject: Seq<u8>, secret: Seq<u8>)
    ensures
        token_split_at(token_of(subject, secret), signing_input_of(subject).len() as int),
        token_of(subject, secret).take(signing_input_of(subject).len() as int)
            == signing_input_of(subject),
        token_of(subject, secret).skip(signing_input_of(subject).len() as int + 1)
            == b64url_of(hmac_sha256_of(secret, signing_input_of(subject))),
        segments_in_alphabet(token_of(subject, secret)),
{
    let si = signing_input_of(subject);
    let mac = hmac_sha256_of(secret, si);
    let t = token_of(subject, secret);
    let j = si.len() as int;
    lemma_b64url_alphabet(mac);
    lemma_b64url_alphabet(header_json());
    lemma_b64url_alphabet(claims_json(subject));
    assert(t.take(j) =~= si);
    assert(t.skip(j + 1) =~= b64url_of(mac));
    assert(t[j] == 46);
    assert forall|k: int| j < k < t.len() implies t[k] != 46 by {
        assert(t[k] == b64url_of(mac)[k - j - 1]);
    }
    let hl = b64url_of(header_json()).len() as int;
    lemma_dot_count_split(si, hl);
    lemma_dot_count_none(si.take(hl));
    assert(si.take(hl) =~= b64url_of(header_json()));
    let rest = si.skip(hl);
    assert(rest[0] == 46);
    assert(rest.skip(1) =~= b64url_of(claims_json(subject)));
    lemma_dot_count_none(rest.skip(1));
    assert(dot_count(rest) == 1 + dot_count(rest.skip(1)));
    assert(dot_count(t.take(j)) == 1);
    assert(token_split_at(t, j));
    assert forall|k: int| 0 <= k < t.len() && t[k] != 46 implies is_b64url_byte(t[k]) by {
        if k < hl {
            assert(t[k] == si[k]);
            assert(si[k] == b64url_of(header_json())[k]);
            assert(is_b64url_byte(b64url_of(header_json())[k]));
        } else if k == hl {
            assert(t[k] == si[k]);
            assert(si[k] == 46);
        } else if k < j {
            assert(t[k] == si[k]);
            assert(si[k] == b64url_of(claims_json(subject))[k - hl - 1]);
            assert(is_b64url_byte(b64url_of(claims_json(subject))[k - hl - 1]));
        } else if k > j {
            assert(t[k] == b64url_of(mac)[k - j - 1]);
            assert(is_b64url_byte(b64url_of(mac)[k - j - 1]));
        }
    }
}

/// A freshly issued token verifies under the secret that signed it.
pub proof fn lemma_issue_verifies(subject: Seq<u8>, secret: Seq<u8>)
    ensures
        token_accepted(token_of(subject, secret), secret),
{
    lemma_token_structure(subject, secret);
    let t = token_of(subject, secret);
    let j = signing_input_of(subject).len() as int;
    assert(t.skip(j + 1) == b64url_of(hmac_sha256_of(secret, t.take(j))));
    assert(token_accepted(t, secret));
}

/// A token issued under one secret is never accepted under another secret
/// unless the two keyed digests of its signing input collide.
pub proof fn lemma_wrong_secret_rejected(subject: Seq<u8>, secret: Seq<u8>, other: Seq<u8>)
    requires
        hmac_sha256_of(other, signing_input_of(subject)) != hmac_sha256_of(
            secret,
            signing_input_of(subject),
        ),
    ensures
        !token_accepted(token_of(subject, secret), other),
{
    lemma_token_structure(subject, secret);
    let si = signing_input_of(subject);
    let t = token_of(subject, secret);
    let l = si.len() as int;
    if token_accepted(t, other) {
        let j = choose|j: int|
            token_split_at(t, j) && t.skip(j + 1) == b64url_of(hmac_sha256_of(other, t.take(j)));
        if j < l {
            assert(t[l] == 46);
            assert(false);
        } else if j > l {
            assert(t[j] == 46);
            assert(false);
        }
        assert(b64url_of(hmac_sha256_of(other, si)) == b64url_of(
            hmac_sha256_of(secret, si),
        ));
        crate::codec::lemma_b64url_injective(
            hmac_sha256_of(other, si),
            hmac_sha256_of(secret, si),
        );
        assert(false);
    }
}

/// A token that carries an issued token's header, claims and dots but any
/// other signature segment is rejected under the issuing secret.
pub proof fn lemma_tampered_signature_rejected(subject: Seq<u8>, secret: Seq<u8>, t2: Seq<u8>)
    requires
        t2.len() > signing_input_of(subject).len(),
        t2.take(signing_input_of(subject).len() as int + 1) == token_of(subject, secret).take(
            signing_input_of(subject).len() as int + 1,
        ),
        t2 != token_of(subject, secret),
    ensures
        !token_accepted(t2, secret),
{
    lemma_token_structure(subject, secret);
    let si = signing_input_of(subject);
    let t = token_of(subject, secret);
    let l = si.len() as int;
    let mac = hmac_sha256_of(secret, si);
    if token_accepted(t2, secret) {
        let j = choose|j: int|
            token_split_at(t2, j) && t2.skip(j + 1) == b64url_of(
                hmac_sha256_of(secret, t2.take(j)),
            );
        assert forall|k: int| 0 <= k <= l implies t2[k] == t[k] by {
            assert(t2.take(l + 1)[k] == t2[k]);
            assert(t.take(l + 1)[k] == t[k]);
        }
        if j < l {
            assert(t2[l] == 46);
            assert(false);
        } else if j > l {
            lemma_dot_count_split(t2.take(j), l + 1);
            assert(t2.take(j).take(l + 1) =~= t2.take(l + 1));
            assert(t2.take(l + 1) =~= si.push(46));
            lemma_dot_count_push(si, 46);
            assert(dot_count(si) == 1) by {
                assert(t.take(l) == si);
            }
            assert(dot_count(t2.take(j)) >= 2);
            assert(false);
        }
        assert(t2.take(l) =~= t.take(l));
        assert(t2.skip(l + 1) == b64url_of(mac));
        assert forall|k: int| 0 <= k < t2.len() implies t2[k] == t[k] by {
            if k > l {
                assert(t2.skip(l + 1)[k - l - 1] == t2[k]);
                assert(t.skip(l + 1)[k - l - 1] == t[k]);
            }
        }
        assert(t2.len() == l + 1 + t2.skip(l + 1).len());
        assert(t.len() == l + 1 + t.skip(l + 1).len());
        assert(t2 =~= t);
        assert(false);
    }
}

} // verus!
