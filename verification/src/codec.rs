//! Byte-level codecs the gateway needs: lowercase hexadecimal (for password
//! digests) and URL-safe base64 without padding (for token segments).
//!
//! Each encoder is executable code proved equal to a spec function that
//! states the encoding byte by byte.

use vstd::prelude::*;
use vstd::arithmetic::div_mod::lemma_fundamental_div_mod;
use vstd::arithmetic::div_mod::lemma_fundamental_div_mod_converse;
use vstd::arithmetic::div_mod::lemma_mod_division_less_than_divisor;
use vstd::arithmetic::div_mod::lemma_div_pos_is_pos;
use vstd::arithmetic::div_mod::lemma_div_is_ordered;

verus! {

/// The lowercase hexadecimal digit for a value below 16, as an ASCII byte.
pub open spec fn hex_digit(v: int) -> u8 {
    if v < 10 {
        (48 + v) as u8
    } else {
        (87 + v) as u8
    }
}

/// Lowercase hexadecimal encoding: two digits per byte, high nibble first.
pub open spec fn hex_of(s: Seq<u8>) -> Seq<u8>
    decreases s.len(),
{
    if s.len() == 0 {
        Seq::empty()
    } else {
        seq![hex_digit(s[0] as int / 16), hex_digit(s[0] as int % 16)] + hex_of(s.skip(1))
    }
}

fn hex_digit_byte(v: u8) -> (r: u8)
    requires
        v < 16,
    ensures
        r == hex_digit(v as int),
{
    if v < 10 {
        48 + v
    } else {
        87 + v
    }
}

/// Encodes bytes as lowercase hexadecimal text.
pub fn hex_encode(s: &[u8]) -> (r: Vec<u8>)
    ensures
        r@ == hex_of(s@),
{
    let mut out: Vec<u8> = Vec::new();
    let mut i: usize = 0;
    proof {
        assert(s@.skip(0) =~= s@);
        assert(out@ + hex_of(s@) =~= hex_of(s@));
    }
    while i < s.len()
        invariant
            0 <= i <= s@.len(),
            hex_of(s@) == out@ + hex_of(s@.skip(i as int)),
        decreases s@.len() - i,
    {
        let b = s[i];
        proof {
            assert(s@.skip(i as int)[0] == s@[i as int]);
            assert(s@.skip(i as int).skip(1) =~= s@.skip(i as int + 1));
        }
        out.push(hex_digit_byte(b / 16));
        out.push(hex_digit_byte(b % 16));
        i = i + 1;
    }
    proof {
        assert(s@.skip(i as int) =~= Seq::<u8>::empty());
        assert(out@ =~= hex_of(s@));
    }
    out
}

/// The URL-safe base64 alphabet: the character for a value below 64, as an
/// ASCII byte (`A`-`Z`, `a`-`z`, `0`-`9`, `-`, `_`).
pub open spec fn b64_char(v: int) -> u8 {
    if v < 26 {
        (65 + v) as u8
    } else if v < 52 {
        (71 + v) as u8
    } else if v < 62 {
        (v - 4) as u8
    } else if v == 62 {
        45u8
    } else {
        95u8
    }
}

/// URL-safe base64 encoding without padding: three input bytes become four
/// characters; a final byte becomes two, a final pair three.
pub open spec fn b64url_of(s: Seq<u8>) -> Seq<u8>
    decreases s.len(),
{
    if s.len() == 0 {
        Seq::empty()
    } else if s.len() == 1 {
        seq![b64_char(s[0] as int / 4), b64_char((s[0] as int % 4) * 16)]
    } else if s.len() == 2 {
        seq![
            b64_char(s[0] as int / 4),
            b64_char((s[0] as int % 4) * 16 + s[1] as int / 16),
            b64_char((s[1] as int % 16) * 4),
        ]
    } else {
        seq![
            b64_char(s[0] as int / 4),
            b64_char((s[0] as int % 4) * 16 + s[1] as int / 16),
            b64_char((s[1] as int % 16) * 4 + s[2] as int / 64),
            b64_char(s[2] as int % 64),
        ] + b64url_of(s.skip(3))
    }
}

fn b64_char_byte(v: u8) -> (r: u8)
    requires
        v < 64,
    ensures
        r == b64_char(v as int),
{
    if v < 26 {
        65 + v
    } else if v < 52 {
        71 + v
    } else if v < 62 {
        v - 4
    } else if v == 62 {
        45
    } else {
        95
    }
}

/// Encodes bytes as URL-safe base64 without padding.
pub fn b64url_encode(s: &[u8]) -> (r: Vec<u8>)
    ensures
        r@ == b64url_of(s@),
{
    let mut out: Vec<u8> = Vec::new();
    let mut i: usize = 0;
    proof {
        assert(s@.skip(0) =~= s@);
        assert(out@ + b64url_of(s@) =~= b64url_of(s@));
    }
    while i < s.len() && s.len() - i >= 3
        invariant
            0 <= i <= s@.len(),
            b64url_of(s@) == out@ + b64url_of(s@.skip(i as int)),
        decreases s@.len() - i,
    {
        let b0 = s[i];
        let b1 = s[i + 1];
        let b2 = s[i + 2];
        proof {
            assert(s@.skip(i as int)[0] == s@[i as int]);
            assert(s@.skip(i as int)[1] == s@[i as int + 1]);
            assert(s@.skip(i as int)[2] == s@[i as int + 2]);
            assert(s@.skip(i as int).skip(3) =~= s@.skip(i as int + 3));
        }
        out.push(b64_char_byte(b0 / 4));
        out.push(b64_char_byte((b0 % 4) * 16 + b1 / 16));
        out.push(b64_char_byte((b1 % 16) * 4 + b2 / 64));
        out.push(b64_char_byte(b2 % 64));
        i = i + 3;
    }
    if s.len() - i == 1 {
        let b0 = s[i];
        proof {
            assert(s@.skip(i as int)[0] == s@[i as int]);
            assert(s@.skip(i as int).len() == 1);
        }
        out.push(b64_char_byte(b0 / 4));
        out.push(b64_char_byte((b0 % 4) * 16));
    } else if s.len() - i == 2 {
        let b0 = s[i];
        let b1 = s[i + 1];
        proof {
            assert(s@.skip(i as int)[0] == s@[i as int]);
            assert(s@.skip(i as int)[1] == s@[i as int + 1]);
            assert(s@.skip(i as int).len() == 2);
        }
        out.push(b64_char_byte(b0 / 4));
        out.push(b64_char_byte((b0 % 4) * 16 + b1 / 16));
        out.push(b64_char_byte((b1 % 16) * 4));
    } else {
        proof {
            assert(s@.skip(i as int) =~= Seq::<u8>::empty());
        }
    }
    proof {
        assert(out@ =~= b64url_of(s@));
    }
    out
}

/// Whether a byte lies in the URL-safe base64 alphabet
/// (`A`-`Z`, `a`-`z`, `0`-`9`, `-`, `_`).
pub open spec fn is_b64url_byte(c: u8) -> bool {
    (65 <= c && c <= 90) || (97 <= c && c <= 122) || (48 <= c && c <= 57) || c == 45 || c == 95
}

/// Tests whether a byte lies in the URL-safe base64 alphabet.
pub fn b64url_alphabet_contains(c: u8) -> (r: bool)
    ensures
        r == is_b64url_byte(c),
{
    (65 <= c && c <= 90) || (97 <= c && c <= 122) || (48 <= c && c <= 57) || c == 45 || c == 95
}

/// Every byte of a base64url encoding lies in the encoding's alphabet; in
/// particular none is an ASCII dot, so a dot can delimit encoded segments.
pub proof fn lemma_b64url_alphabet(s: Seq<u8>)
    ensures
        forall|i: int|
            0 <= i < b64url_of(s).len() ==> #[trigger] is_b64url_byte(b64url_of(s)[i]),
        forall|i: int| 0 <= i < b64url_of(s).len() ==> b64url_of(s)[i] != 46,
    decreases s.len(),
{
    if s.len() == 0 {
    } else if s.len() <= 2 {
        assert forall|i: int| 0 <= i < b64url_of(s).len() implies is_b64url_byte(b64url_of(s)[i])
            && b64url_of(s)[i] != 46 by {
            assert(0 <= s[0] as int / 4 < 64);
        }
    } else {
        lemma_b64url_alphabet(s.skip(3));
        assert forall|i: int| 0 <= i < b64url_of(s).len() implies is_b64url_byte(b64url_of(s)[i])
            && b64url_of(s)[i] != 46 by {
            if i >= 4 {
                assert(b64url_of(s)[i] == b64url_of(s.skip(3))[i - 4]);
                assert(is_b64url_byte(b64url_of(s.skip(3))[i - 4]));
            }
        }
    }
}

/// The value a byte of the base64url alphabet encodes.
pub open spec fn b64_val(c: u8) -> int {
    if 65 <= c && c <= 90 {
        c - 65
    } else if 97 <= c && c <= 122 {
        c - 71
    } else if 48 <= c && c <= 57 {
        c + 4
    } else if c == 45 {
        62
    } else {
        63
    }
}

proof fn lemma_b64_char_val(v: int)
    requires
        0 <= v < 64,
    ensures
        b64_val(b64_char(v)) == v,
{
}

proof fn lemma_u8_div_mod(x: u8, d: int)
    requires
        0 < d,
    ensures
        x as int == d * (x as int / d) + (x as int % d),
        0 <= x as int % d < d,
        0 <= x as int / d <= 255int / d,
{
    lemma_fundamental_div_mod(x as int, d);
    lemma_mod_division_less_than_divisor(x as int, d);
    lemma_div_pos_is_pos(x as int, d);
    lemma_div_is_ordered(x as int, 255, d);
}

proof fn lemma_split_scaled(r1: int, q1: int, r2: int, q2: int, d: int)
    requires
        0 < d,
        0 <= q1 < d,
        0 <= q2 < d,
        r1 * d + q1 == r2 * d + q2,
    ensures
        r1 == r2,
        q1 == q2,
{
    let v = r1 * d + q1;
    lemma_fundamental_div_mod_converse(v, d, r1, q1);
    lemma_fundamental_div_mod_converse(v, d, r2, q2);
}

proof fn lemma_b64_group1_inj(a0: u8, b0: u8)
    requires
        b64_char(a0 as int / 4) == b64_char(b0 as int / 4),
        b64_char((a0 as int % 4) * 16) == b64_char((b0 as int % 4) * 16),
    ensures
        a0 == b0,
{
    lemma_u8_div_mod(a0, 4);
    lemma_u8_div_mod(b0, 4);
    lemma_b64_char_val(a0 as int / 4);
    lemma_b64_char_val(b0 as int / 4);
    lemma_b64_char_val((a0 as int % 4) * 16);
    lemma_b64_char_val((b0 as int % 4) * 16);
}

proof fn lemma_b64_group2_inj(a0: u8, a1: u8, b0: u8, b1: u8)
    requires
        b64_char(a0 as int / 4) == b64_char(b0 as int / 4),
        b64_char((a0 as int % 4) * 16 + a1 as int / 16) == b64_char(
            (b0 as int % 4) * 16 + b1 as int / 16,
        ),
        b64_char((a1 as int % 16) * 4) == b64_char((b1 as int % 16) * 4),
    ensures
        a0 == b0,
        a1 == b1,
{
    lemma_u8_div_mod(a0, 4);
    lemma_u8_div_mod(b0, 4);
    lemma_u8_div_mod(a1, 16);
    lemma_u8_div_mod(b1, 16);
    lemma_b64_char_val(a0 as int / 4);
    lemma_b64_char_val(b0 as int / 4);
    lemma_b64_char_val((a0 as int % 4) * 16 + a1 as int / 16);
    lemma_b64_char_val((b0 as int % 4) * 16 + b1 as int / 16);
    lemma_b64_char_val((a1 as int % 16) * 4);
    lemma_b64_char_val((b1 as int % 16) * 4);
    lemma_split_scaled(a0 as int % 4, a1 as int / 16, b0 as int % 4, b1 as int / 16, 16);
}

proof fn lemma_b64_group3_inj(a0: u8, a1: u8, a2: u8, b0: u8, b1: u8, b2: u8)
    requires
        b64_char(a0 as int / 4) == b64_char(b0 as int / 4),
        b64_char((a0 as int % 4) * 16 + a1 as int / 16) == b64_char(
            (b0 as int % 4) * 16 + b1 as int / 16,
        ),
        b64_char((a1 as int % 16) * 4 + a2 as int / 64) == b64_char(
            (b1 as int % 16) * 4 + b2 as int / 64,
        ),
        b64_char(a2 as int % 64) == b64_char(b2 as int % 64),
    ensures
        a0 == b0,
        a1 == b1,
        a2 == b2,
{
    lemma_u8_div_mod(a0, 4);
    lemma_u8_div_mod(b0, 4);
    lemma_u8_div_mod(a1, 16);
    lemma_u8_div_mod(b1, 16);
    lemma_u8_div_mod(a2, 64);
    lemma_u8_div_mod(b2, 64);
    lemma_b64_char_val(a0 as int / 4);
    lemma_b64_char_val(b0 as int / 4);
    lemma_b64_char_val((a0 as int % 4) * 16 + a1 as int / 16);
    lemma_b64_char_val((b0 as int % 4) * 16 + b1 as int / 16);
    lemma_b64_char_val((a1 as int % 16) * 4 + a2 as int / 64);
    lemma_b64_char_val((b1 as int % 16) * 4 + b2 as int / 64);
    lemma_b64_char_val(a2 as int % 64);
    lemma_b64_char_val(b2 as int % 64);
    lemma_split_scaled(a0 as int % 4, a1 as int / 16, b0 as int % 4, b1 as int / 16, 16);
    lemma_split_scaled(a1 as int % 16, a2 as int / 64, b1 as int % 16, b2 as int / 64, 4);
}

/// The encoding is injective: two byte strings with the same base64url
/// encoding are the same byte string.
pub proof fn lemma_b64url_injective(a: Seq<u8>, b: Seq<u8>)
    requires
        b64url_of(a) == b64url_of(b),
    ensures
        a == b,
    decreases a.len(),
{
    let ea = b64url_of(a);
    let eb = b64url_of(b);
    if a.len() == 0 {
        if b.len() != 0 {
            assert(eb.len() > 0);
        }
        assert(a =~= b);
    } else if a.len() == 1 {
        assert(ea.len() == 2);
        if b.len() == 0 {
            assert(eb.len() == 0);
        } else if b.len() == 2 {
            assert(eb.len() == 3);
        } else if b.len() >= 3 {
            assert(eb.len() == 4 + b64url_of(b.skip(3)).len());
        }
        assert(b.len() == 1);
        lemma_b64_group1_inj(a[0], b[0]);
        assert(a =~= b);
    } else if a.len() == 2 {
        assert(ea.len() == 3);
        if b.len() == 0 {
            assert(eb.len() == 0);
        } else if b.len() == 1 {
            assert(eb.len() == 2);
        } else if b.len() >= 3 {
            assert(eb.len() == 4 + b64url_of(b.skip(3)).len());
        }
        assert(b.len() == 2);
        lemma_b64_group2_inj(a[0], a[1], b[0], b[1]);
        assert(a =~= b);
    } else {
        assert(ea.len() == 4 + b64url_of(a.skip(3)).len());
        if b.len() == 0 {
            assert(eb.len() == 0);
        } else if b.len() == 1 {
            assert(eb.len() == 2);
        } else if b.len() == 2 {
            assert(eb.len() == 3);
        }
        assert(b.len() >= 3);
        assert(ea[0] == b64_char(a[0] as int / 4));
        assert(ea[1] == b64_char((a[0] as int % 4) * 16 + a[1] as int / 16));
        assert(ea[2] == b64_char((a[1] as int % 16) * 4 + a[2] as int / 64));
        assert(ea[3] == b64_char(a[2] as int % 64));
        assert(eb[0] == b64_char(b[0] as int / 4));
        assert(eb[1] == b64_char((b[0] as int % 4) * 16 + b[1] as int / 16));
        assert(eb[2] == b64_char((b[1] as int % 16) * 4 + b[2] as int / 64));
        assert(eb[3] == b64_char(b[2] as int % 64));
        lemma_b64_group3_inj(a[0], a[1], a[2], b[0], b[1], b[2]);
        assert(ea.skip(4) =~= b64url_of(a.skip(3)));
        assert(eb.skip(4) =~= b64url_of(b.skip(3)));
        lemma_b64url_injective(a.skip(3), b.skip(3));
        assert forall|i: int| 0 <= i < a.len() implies a[i] == b[i] by {
            if i >= 3 {
                assert(a.skip(3)[i - 3] == b.skip(3)[i - 3]);
            }
        }
        assert(a.len() == 3 + a.skip(3).len());
        assert(b.len() == 3 + b.skip(3).len());
        assert(a =~= b);
    }
}

} // verus!
