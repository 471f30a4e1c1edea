//! The reversible encoding used for payload segments of handler URLs: a
//! URL-safe, unpadded base64 alphabet (`A-Z a-z 0-9 - _`), three bytes to
//! four characters, with canonical (zero) trailing bits required on decode.
use vstd::prelude::*;

verus! {

/// The alphabet character for a 6-bit value.
pub open spec fn enc_byte(v: u8) -> u8
    recommends
        v < 64,
{
    if v < 26 {
        (65 + v) as u8  // 'A'..='Z'
    } else if v < 52 {
        (97 + (v - 26)) as u8  // 'a'..='z'
    } else if v < 62 {
        (48 + (v - 52)) as u8  // '0'..='9'
    } else if v == 62 {
        45u8  // '-'
    } else {
        95u8  // '_'
    }
}

/// True when `c` is a character of the alphabet.
pub open spec fn is_alphabet_byte(c: u8) -> bool {
    ||| 65 <= c <= 90
    ||| 97 <= c <= 122
    ||| 48 <= c <= 57
    ||| c == 45
    ||| c == 95
}

/// The 6-bit value of an alphabet character.
pub open spec fn dec_byte(c: u8) -> u8
    recommends
        is_alphabet_byte(c),
{
    if 65 <= c <= 90 {
        (c - 65) as u8
    } else if 97 <= c <= 122 {
        (26 + (c - 97)) as u8
    } else if 48 <= c <= 57 {
        (52 + (c - 48)) as u8
    } else if c == 45 {
        62u8
    } else {
        63u8
    }
}

proof fn lemma_enc_dec(v: u8)
    requires
        v < 64,
    ensures
        is_alphabet_byte(enc_byte(v)),
        dec_byte(enc_byte(v)) == v,
{
}

/// The four alphabet characters encoding a full group of three bytes.
pub open spec fn enc3(b0: u8, b1: u8, b2: u8) -> Seq<u8> {
    seq![
        enc_byte(b0 >> 2),
        enc_byte(((b0 & 3) << 4) | (b1 >> 4)),
        enc_byte(((b1 & 15) << 2) | (b2 >> 6)),
        enc_byte(b2 & 63),
    ]
}

/// The three alphabet characters encoding a trailing group of two bytes.
pub open spec fn enc2(b0: u8, b1: u8) -> Seq<u8> {
    seq![
        enc_byte(b0 >> 2),
        enc_byte(((b0 & 3) << 4) | (b1 >> 4)),
        enc_byte((b1 & 15) << 2),
    ]
}

/// The two alphabet characters encoding a trailing group of one byte.
pub open spec fn enc1(b0: u8) -> Seq<u8> {
    seq![enc_byte(b0 >> 2), enc_byte((b0 & 3) << 4)]
}

/// The encoding of a byte string: full groups of three, then the remainder.
pub open spec fn encode_spec(s: Seq<u8>) -> Seq<u8>
    decreases s.len(),
{
    if s.len() == 0 {
        Seq::empty()
    } else if s.len() == 1 {
        enc1(s[0])
    } else if s.len() == 2 {
        enc2(s[0], s[1])
    } else {
        enc3(s[0], s[1], s[2]) + encode_spec(s.skip(3))
    }
}

/// The three bytes encoded by a full group of four alphabet characters.
pub open spec fn dec4(c0: u8, c1: u8, c2: u8, c3: u8) -> Seq<u8>
    recommends
        is_alphabet_byte(c0),
        is_alphabet_byte(c1),
        is_alphabet_byte(c2),
        is_alphabet_byte(c3),
{
    seq![
        (dec_byte(c0) << 2) | (dec_byte(c1) >> 4),
        ((dec_byte(c1) & 15) << 4) | (dec_byte(c2) >> 2),
        ((dec_byte(c2) & 3) << 6) | dec_byte(c3),
    ]
}

/// True when a trailing group of three characters is well formed: alphabet
/// characters whose two unused low bits are zero.
pub open spec fn ok3(c0: u8, c1: u8, c2: u8) -> bool {
    &&& is_alphabet_byte(c0)
    &&& is_alphabet_byte(c1)
    &&& is_alphabet_byte(c2)
    &&& dec_byte(c2) & 3 == 0
}

/// The two bytes encoded by a trailing group of three alphabet characters.
pub open spec fn dec3(c0: u8, c1: u8, c2: u8) -> Seq<u8>
    recommends
        ok3(c0, c1, c2),
{
    seq![
        (dec_byte(c0) << 2) | (dec_byte(c1) >> 4),
        ((dec_byte(c1) & 15) << 4) | (dec_byte(c2) >> 2),
    ]
}

/// True when a trailing group of two characters is well formed: alphabet
/// characters whose four unused low bits are zero.
pub open spec fn ok2(c0: u8, c1: u8) -> bool {
    &&& is_alphabet_byte(c0)
    &&& is_alphabet_byte(c1)
    &&& dec_byte(c1) & 15 == 0
}

/// The byte encoded by a trailing group of two alphabet characters.
pub open spec fn dec2(c0: u8, c1: u8) -> Seq<u8>
    recommends
        ok2(c0, c1),
{
    seq![(dec_byte(c0) << 2) | (dec_byte(c1) >> 4)]
}

/// The decoding of a character string, `None` when it is not a canonical
/// encoding of any byte string: full groups of four, then the remainder,
/// where a remainder of one character can encode nothing.
pub open spec fn decode_spec(s: Seq<u8>) -> Option<Seq<u8>>
    decreases s.len(),
{
    if s.len() == 0 {
        Some(Seq::empty())
    } else if s.len() == 1 {
        None
    } else if s.len() == 2 {
        if ok2(s[0], s[1]) {
            Some(dec2(s[0], s[1]))
        } else {
            None
        }
    } else if s.len() == 3 {
        if ok3(s[0], s[1], s[2]) {
            Some(dec3(s[0], s[1], s[2]))
        } else {
            None
        }
    } else {
        if is_alphabet_byte(s[0]) && is_alphabet_byte(s[1]) && is_alphabet_byte(s[2])
            && is_alphabet_byte(s[3]) {
            match decode_spec(s.skip(4)) {
                Some(rest) => Some(dec4(s[0], s[1], s[2], s[3]) + rest),
                None => None,
            }
        } else {
            None
        }
    }
}

proof fn lemma_rt3(b0: u8, b1: u8, b2: u8)
    ensures
        enc3(b0, b1, b2).len() == 4,
        is_alphabet_byte(enc3(b0, b1, b2)[0]),
        is_alphabet_byte(enc3(b0, b1, b2)[1]),
        is_alphabet_byte(enc3(b0, b1, b2)[2]),
        is_alphabet_byte(enc3(b0, b1, b2)[3]),
        dec4(enc3(b0, b1, b2)[0], enc3(b0, b1, b2)[1], enc3(b0, b1, b2)[2], enc3(b0, b1, b2)[3])
            == seq![b0, b1, b2],
{
    let v0 = b0 >> 2;
    let v1 = ((b0 & 3) << 4) | (b1 >> 4);
    let v2 = ((b1 & 15) << 2) | (b2 >> 6);
    let v3 = b2 & 63;
    assert(v0 < 64 && v1 < 64 && v2 < 64 && v3 < 64) by (bit_vector)
        requires
            v0 == b0 >> 2,
            v1 == ((b0 & 3) << 4) | (b1 >> 4),
            v2 == ((b1 & 15) << 2) | (b2 >> 6),
            v3 == b2 & 63,
    ;
    lemma_enc_dec(v0);
    lemma_enc_dec(v1);
    lemma_enc_dec(v2);
    lemma_enc_dec(v3);
    assert(((v0 << 2) | (v1 >> 4)) == b0 && (((v1 & 15) << 4) | (v2 >> 2)) == b1 && (((v2 & 3) << 6)
        | v3) == b2) by (bit_vector)
        requires
            v0 == b0 >> 2,
            v1 == ((b0 & 3) << 4) | (b1 >> 4),
            v2 == ((b1 & 15) << 2) | (b2 >> 6),
            v3 == b2 & 63,
    ;
    assert(dec4(enc_byte(v0), enc_byte(v1), enc_byte(v2), enc_byte(v3)) =~= seq![b0, b1, b2]);
}

proof fn lemma_rt2(b0: u8, b1: u8)
    ensures
        enc2(b0, b1).len() == 3,
        ok3(enc2(b0, b1)[0], enc2(b0, b1)[1], enc2(b0, b1)[2]),
        dec3(enc2(b0, b1)[0], enc2(b0, b1)[1], enc2(b0, b1)[2]) == seq![b0, b1],
{
    let v0 = b0 >> 2;
    let v1 = ((b0 & 3) << 4) | (b1 >> 4);
    let v2 = (b1 & 15) << 2;
    assert(v0 < 64 && v1 < 64 && v2 < 64 && v2 & 3 == 0) by (bit_vector)
        requires
            v0 == b0 >> 2,
            v1 == ((b0 & 3) << 4) | (b1 >> 4),
            v2 == (b1 & 15) << 2,
    ;
    lemma_enc_dec(v0);
    lemma_enc_dec(v1);
    lemma_enc_dec(v2);
    assert(((v0 << 2) | (v1 >> 4)) == b0 && (((v1 & 15) << 4) | (v2 >> 2)) == b1) by (bit_vector)
        requires
            v0 == b0 >> 2,
            v1 == ((b0 & 3) << 4) | (b1 >> 4),
            v2 == (b1 & 15) << 2,
    ;
    assert(dec3(enc_byte(v0), enc_byte(v1), enc_byte(v2)) =~= seq![b0, b1]);
}

proof fn lemma_rt1(b0: u8)
    ensures
        enc1(b0).len() == 2,
        ok2(enc1(b0)[0], enc1(b0)[1]),
        dec2(enc1(b0)[0], enc1(b0)[1]) == seq![b0],
{
    let v0 = b0 >> 2;
    let v1 = (b0 & 3) << 4;
    assert(v0 < 64 && v1 < 64 && v1 & 15 == 0 && ((v0 << 2) | (v1 >> 4)) == b0) by (bit_vector)
        requires
            v0 == b0 >> 2,
            v1 == (b0 & 3) << 4,
    ;
    lemma_enc_dec(v0);
    lemma_enc_dec(v1);
    assert(dec2(enc_byte(v0), enc_byte(v1)) =~= seq![b0]);
}

/// Every character of an encoding belongs to the alphabet.
pub proof fn lemma_encode_alphabet(s: Seq<u8>)
    ensures
        forall|i: int|
            0 <= i < encode_spec(s).len() ==> #[trigger] is_alphabet_byte(encode_spec(s)[i]),
    decreases s.len(),
{
    if s.len() == 0 {
    } else if s.len() == 1 {
        lemma_rt1(s[0]);
    } else if s.len() == 2 {
        lemma_rt2(s[0], s[1]);
    } else {
        lemma_rt3(s[0], s[1], s[2]);
        lemma_encode_alphabet(s.skip(3));
        assert forall|i: int| 0 <= i < encode_spec(s).len() implies #[trigger] is_alphabet_byte(
            encode_spec(s)[i],
        ) by {
            if i >= 4 {
                assert(encode_spec(s)[i] == encode_spec(s.skip(3))[i - 4]);
            } else {
                assert(encode_spec(s)[i] == enc3(s[0], s[1], s[2])[i]);
            }
        }
    }
}

/// The length of an encoding: four characters for every three bytes, a
/// remainder of one byte adding two and of two bytes adding three.
pub proof fn lemma_encode_len(s: Seq<u8>)
    ensures
        encode_spec(s).len() == (s.len() / 3) * 4 + (if s.len() % 3 == 0 {
            0int
        } else if s.len() % 3 == 1 {
            2int
        } else {
            3int
        }),
    decreases s.len(),
{
    if s.len() >= 3 {
        lemma_encode_len(s.skip(3));
        assert((s.len() - 3) / 3 == s.len() / 3 - 1 && (s.len() - 3) % 3 == s.len() % 3) by (
        nonlinear_arith)
            requires
                s.len() >= 3,
        ;
    }
}

/// Decoding inverts encoding: every byte string is recovered exactly from
/// its canonical encoding.
pub proof fn lemma_decode_of_encode(x: Seq<u8>)
    ensures
        decode_spec(encode_spec(x)) == Some(x),
    decreases x.len(),
{
    if x.len() == 0 {
        assert(decode_spec(encode_spec(x)) =~= Some(x));
        assert(Seq::<u8>::empty() =~= x);
    } else if x.len() == 1 {
        lemma_rt1(x[0]);
        assert(encode_spec(x) == enc1(x[0]));
        assert(decode_spec(enc1(x[0])) == Some(dec2(enc1(x[0])[0], enc1(x[0])[1])));
        assert(seq![x[0]] =~= x);
    } else if x.len() == 2 {
        lemma_rt2(x[0], x[1]);
        assert(decode_spec(enc2(x[0], x[1])) == Some(dec3(enc2(x[0], x[1])[0], enc2(x[0], x[1])[1],
            enc2(x[0], x[1])[2])));
        assert(seq![x[0], x[1]] =~= x);
    } else {
        lemma_rt3(x[0], x[1], x[2]);
        lemma_decode_of_encode(x.skip(3));
        let g = enc3(x[0], x[1], x[2]);
        let rest = encode_spec(x.skip(3));
        let e = encode_spec(x);
        assert(e == g + rest);
        lemma_encode_len(x.skip(3));
        assert(e.len() == 4 + rest.len());
        assert(rest.len() != 1);
        assert(e[0] == g[0] && e[1] == g[1] && e[2] == g[2] && e[3] == g[3]);
        assert(e.skip(4) =~= rest);
        if rest.len() == 0 {
            assert(e.len() == 4);
            assert(decode_spec(e.skip(4)) == Some(Seq::<u8>::empty()));
            assert(decode_spec(e) == Some(dec4(e[0], e[1], e[2], e[3]) + Seq::<u8>::empty()));
            assert(dec4(e[0], e[1], e[2], e[3]) + Seq::<u8>::empty() =~= seq![x[0], x[1], x[2]]);
            assert(seq![x[0], x[1], x[2]] =~= x);
        } else {
            assert(e.len() >= 4 + 2);
            assert(decode_spec(e) == Some(dec4(e[0], e[1], e[2], e[3]) + x.skip(3)));
            assert(dec4(e[0], e[1], e[2], e[3]) + x.skip(3) =~= x);
        }
    }
}

fn enc_byte_exec(v: u8) -> (r: u8)
    requires
        v < 64,
    ensures
        r == enc_byte(v),
{
    if v < 26 {
        65 + v
    } else if v < 52 {
        97 + (v - 26)
    } else if v < 62 {
        48 + (v - 52)
    } else if v == 62 {
        45
    } else {
        95
    }
}

fn is_alphabet_byte_exec(c: u8) -> (b: bool)
    ensures
        b == is_alphabet_byte(c),
{
    (65 <= c && c <= 90) || (97 <= c && c <= 122) || (48 <= c && c <= 57) || c == 45 || c == 95
}

fn dec_byte_exec(c: u8) -> (r: u8)
    requires
        is_alphabet_byte(c),
    ensures
        r == dec_byte(c),
{
    if 65 <= c && c <= 90 {
        c - 65
    } else if 97 <= c && c <= 122 {
        26 + (c - 97)
    } else if 48 <= c && c <= 57 {
        52 + (c - 48)
    } else if c == 45 {
        62
    } else {
        63
    }
}

/// Encode a byte string into the URL-safe, unpadded alphabet.
pub fn encode(s: &[u8]) -> (r: Vec<u8>)
    ensures
        r@ == encode_spec(s@),
{
    let mut r: Vec<u8> = Vec::new();
    let mut i: usize = 0;
    proof {
        assert(s@.skip(0) =~= s@);
        assert(r@ + encode_spec(s@) =~= encode_spec(s@));
    }
    while s.len() - i >= 3
        invariant
            i <= s@.len(),
            encode_spec(s@) == r@ + encode_spec(s@.skip(i as int)),
        decreases s@.len() - i,
    {
        let b0 = s[i];
        let b1 = s[i + 1];
        let b2 = s[i + 2];
        proof {
            assert(b0 >> 2 < 64 && ((b0 & 3) << 4) | (b1 >> 4) < 64 && ((b1 & 15) << 2) | (b2 >> 6)
                < 64 && b2 & 63 < 64) by (bit_vector);
        }
        let ghost old_r = r@;
        r.push(enc_byte_exec(b0 >> 2));
        r.push(enc_byte_exec(((b0 & 3) << 4) | (b1 >> 4)));
        r.push(enc_byte_exec(((b1 & 15) << 2) | (b2 >> 6)));
        r.push(enc_byte_exec(b2 & 63));
        proof {
            let t = s@.skip(i as int);
            assert(t[0] == b0 && t[1] == b1 && t[2] == b2);
            assert(t.skip(3) =~= s@.skip(i + 3));
            assert(r@ =~= old_r + enc3(b0, b1, b2));
            assert(old_r + encode_spec(t) =~= r@ + encode_spec(s@.skip(i + 3)));
        }
        i += 3;
    }
    let rem = s.len() - i;
    if rem == 1 {
        let b0 = s[i];
        proof {
            assert(b0 >> 2 < 64 && (b0 & 3) << 4 < 64) by (bit_vector);
        }
        let ghost old_r = r@;
        r.push(enc_byte_exec(b0 >> 2));
        r.push(enc_byte_exec((b0 & 3) << 4));
        proof {
            let t = s@.skip(i as int);
            assert(t.len() == 1 && t[0] == b0);
            assert(r@ =~= old_r + enc1(b0));
        }
    } else if rem == 2 {
        let b0 = s[i];
        let b1 = s[i + 1];
        proof {
            assert(b0 >> 2 < 64 && ((b0 & 3) << 4) | (b1 >> 4) < 64 && (b1 & 15) << 2 < 64)
                by (bit_vector);
        }
        let ghost old_r = r@;
        r.push(enc_byte_exec(b0 >> 2));
        r.push(enc_byte_exec(((b0 & 3) << 4) | (b1 >> 4)));
        r.push(enc_byte_exec((b1 & 15) << 2));
        proof {
            let t = s@.skip(i as int);
            assert(t.len() == 2 && t[0] == b0 && t[1] == b1);
            assert(r@ =~= old_r + enc2(b0, b1));
        }
    } else {
        proof {
            assert(s@.skip(i as int).len() == 0);
            assert(encode_spec(s@.skip(i as int)) =~= Seq::<u8>::empty());
        }
    }
    proof {
        assert(r@ =~= encode_spec(s@));
    }
    r
}

/// Decode a character string of the URL-safe, unpadded alphabet; `None`
/// when the input is not a canonical encoding.
pub fn decode(s: &[u8]) -> (r: Option<Vec<u8>>)
    ensures
        match r {
            Some(v) => decode_spec(s@) == Some(v@),
            None => decode_spec(s@) is None,
        },
{
    let mut r: Vec<u8> = Vec::new();
    let mut i: usize = 0;
    proof {
        assert(s@.skip(0) =~= s@);
        assert(r@ + s@ =~= s@);
    }
    while s.len() - i >= 4
        invariant
            i <= s@.len(),
            match decode_spec(s@.skip(i as int)) {
                Some(rest) => decode_spec(s@) == Some(r@ + rest),
                None => decode_spec(s@) is None,
            },
        decreases s@.len() - i,
    {
        let c0 = s[i];
        let c1 = s[i + 1];
        let c2 = s[i + 2];
        let c3 = s[i + 3];
        let ghost t = s@.skip(i as int);
        proof {
            assert(t.len() >= 4);
            assert(t[0] == c0 && t[1] == c1 && t[2] == c2 && t[3] == c3);
            assert(t.skip(4) =~= s@.skip(i + 4));
        }
        if !(is_alphabet_byte_exec(c0) && is_alphabet_byte_exec(c1) && is_alphabet_byte_exec(c2)
            && is_alphabet_byte_exec(c3)) {
            proof {
                assert(decode_spec(t) is None);
            }
            return None;
        }
        let d0 = dec_byte_exec(c0);
        let d1 = dec_byte_exec(c1);
        let d2 = dec_byte_exec(c2);
        let d3 = dec_byte_exec(c3);
        let ghost old_r = r@;
        r.push((d0 << 2) | (d1 >> 4));
        r.push(((d1 & 15) << 4) | (d2 >> 2));
        r.push(((d2 & 3) << 6) | d3);
        proof {
            assert(r@ =~= old_r + dec4(c0, c1, c2, c3));
            if decode_spec(s@.skip(i + 4)) is Some {
                let rest = decode_spec(s@.skip(i + 4)).unwrap();
                assert(decode_spec(t) == Some(dec4(c0, c1, c2, c3) + rest));
                assert(old_r + (dec4(c0, c1, c2, c3) + rest) =~= r@ + rest);
            } else {
                assert(decode_spec(t) is None);
            }
        }
        i += 4;
    }
    let rem = s.len() - i;
    let ghost t = s@.skip(i as int);
    if rem == 0 {
        proof {
            assert(t.len() == 0);
            assert(decode_spec(t) == Some(Seq::<u8>::empty()));
            assert(r@ + Seq::<u8>::empty() =~= r@);
        }
        Some(r)
    } else if rem == 1 {
        proof {
            assert(t.len() == 1);
            assert(decode_spec(t) is None);
        }
        None
    } else if rem == 2 {
        let c0 = s[i];
        let c1 = s[i + 1];
        proof {
            assert(t.len() == 2 && t[0] == c0 && t[1] == c1);
        }
        if is_alphabet_byte_exec(c0) && is_alphabet_byte_exec(c1) {
            let d0 = dec_byte_exec(c0);
            let d1 = dec_byte_exec(c1);
            if d1 & 15 == 0 {
                let ghost old_r = r@;
                r.push((d0 << 2) | (d1 >> 4));
                proof {
                    assert(ok2(c0, c1));
                    assert(decode_spec(t) == Some(dec2(c0, c1)));
                    assert(r@ =~= old_r + dec2(c0, c1));
                }
                Some(r)
            } else {
                proof {
                    assert(!ok2(c0, c1));
                    assert(decode_spec(t) is None);
                }
                None
            }
        } else {
            proof {
                assert(!ok2(c0, c1));
                assert(decode_spec(t) is None);
            }
            None
        }
    } else {
        let c0 = s[i];
        let c1 = s[i + 1];
        let c2 = s[i + 2];
        proof {
            assert(t.len() == 3 && t[0] == c0 && t[1] == c1 && t[2] == c2);
        }
        if is_alphabet_byte_exec(c0) && is_alphabet_byte_exec(c1) && is_alphabet_byte_exec(c2) {
            let d0 = dec_byte_exec(c0);
            let d1 = dec_byte_exec(c1);
            let d2 = dec_byte_exec(c2);
            if d2 & 3 == 0 {
                let ghost old_r = r@;
                r.push((d0 << 2) | (d1 >> 4));
                r.push(((d1 & 15) << 4) | (d2 >> 2));
                proof {
                    assert(ok3(c0, c1, c2));
                    assert(decode_spec(t) == Some(dec3(c0, c1, c2)));
                    assert(r@ =~= old_r + dec3(c0, c1, c2));
                }
                Some(r)
            } else {
                proof {
                    assert(!ok3(c0, c1, c2));
                    assert(decode_spec(t) is None);
                }
                None
            }
        } else {
            proof {
                assert(!ok3(c0, c1, c2));
                assert(decode_spec(t) is None);
            }
            None
        }
    }
}

proof fn lemma_dec_enc(c: u8)
    requires
        is_alphabet_byte(c),
    ensures
        dec_byte(c) < 64,
        enc_byte(dec_byte(c)) == c,
{
}

proof fn lemma_ce4(c0: u8, c1: u8, c2: u8, c3: u8)
    requires
        is_alphabet_byte(c0),
        is_alphabet_byte(c1),
        is_alphabet_byte(c2),
        is_alphabet_byte(c3),
    ensures
        enc3(dec4(c0, c1, c2, c3)[0], dec4(c0, c1, c2, c3)[1], dec4(c0, c1, c2, c3)[2]) == seq![
            c0,
            c1,
            c2,
            c3,
        ],
{
    lemma_dec_enc(c0);
    lemma_dec_enc(c1);
    lemma_dec_enc(c2);
    lemma_dec_enc(c3);
    let d0 = dec_byte(c0);
    let d1 = dec_byte(c1);
    let d2 = dec_byte(c2);
    let d3 = dec_byte(c3);
    let b0 = (d0 << 2) | (d1 >> 4);
    let b1 = ((d1 & 15) << 4) | (d2 >> 2);
    let b2 = ((d2 & 3) << 6) | d3;
    assert(b0 >> 2 == d0 && ((b0 & 3) << 4) | (b1 >> 4) == d1 && ((b1 & 15) << 2) | (b2 >> 6) == d2
        && b2 & 63 == d3) by (bit_vector)
        requires
            d0 < 64 && d1 < 64 && d2 < 64 && d3 < 64,
            b0 == (d0 << 2) | (d1 >> 4),
            b1 == ((d1 & 15) << 4) | (d2 >> 2),
            b2 == ((d2 & 3) << 6) | d3,
    ;
    assert(enc3(b0, b1, b2) =~= seq![c0, c1, c2, c3]);
}

proof fn lemma_ce3(c0: u8, c1: u8, c2: u8)
    requires
        ok3(c0, c1, c2),
    ensures
        enc2(dec3(c0, c1, c2)[0], dec3(c0, c1, c2)[1]) == seq![c0, c1, c2],
{
    lemma_dec_enc(c0);
    lemma_dec_enc(c1);
    lemma_dec_enc(c2);
    let d0 = dec_byte(c0);
    let d1 = dec_byte(c1);
    let d2 = dec_byte(c2);
    let b0 = (d0 << 2) | (d1 >> 4);
    let b1 = ((d1 & 15) << 4) | (d2 >> 2);
    assert(b0 >> 2 == d0 && ((b0 & 3) << 4) | (b1 >> 4) == d1 && (b1 & 15) << 2 == d2)
        by (bit_vector)
        requires
            d0 < 64 && d1 < 64 && d2 < 64,
            d2 & 3 == 0,
            b0 == (d0 << 2) | (d1 >> 4),
            b1 == ((d1 & 15) << 4) | (d2 >> 2),
    ;
    assert(enc2(b0, b1) =~= seq![c0, c1, c2]);
}

proof fn lemma_ce2(c0: u8, c1: u8)
    requires
        ok2(c0, c1),
    ensures
        enc1(dec2(c0, c1)[0]) == seq![c0, c1],
{
    lemma_dec_enc(c0);
    lemma_dec_enc(c1);
    let d0 = dec_byte(c0);
    let d1 = dec_byte(c1);
    let b0 = (d0 << 2) | (d1 >> 4);
    assert(b0 >> 2 == d0 && (b0 & 3) << 4 == d1) by (bit_vector)
        requires
            d0 < 64 && d1 < 64,
            d1 & 15 == 0,
            b0 == (d0 << 2) | (d1 >> 4),
    ;
    assert(enc1(b0) =~= seq![c0, c1]);
}

/// Encoding inverts decoding as well: every character string the decoder
/// accepts is exactly the canonical encoding of what it decodes to — the
/// encoding is reversible in both directions.
pub proof fn lemma_encode_of_decode(s: Seq<u8>)
    requires
        decode_spec(s) is Some,
    ensures
        encode_spec(decode_spec(s).unwrap()) == s,
    decreases s.len(),
{
    let b = decode_spec(s).unwrap();
    if s.len() == 0 {
        assert(b =~= Seq::<u8>::empty());
        assert(encode_spec(b) =~= s);
    } else if s.len() == 2 {
        lemma_ce2(s[0], s[1]);
        assert(b == dec2(s[0], s[1]));
        assert(encode_spec(b) == enc1(b[0]));
        assert(encode_spec(b) =~= s);
    } else if s.len() == 3 {
        lemma_ce3(s[0], s[1], s[2]);
        assert(b == dec3(s[0], s[1], s[2]));
        assert(encode_spec(b) == enc2(b[0], b[1]));
        assert(encode_spec(b) =~= s);
    } else {
        let rest = decode_spec(s.skip(4)).unwrap();
        lemma_encode_of_decode(s.skip(4));
        lemma_ce4(s[0], s[1], s[2], s[3]);
        let g = dec4(s[0], s[1], s[2], s[3]);
        assert(b == g + rest);
        assert(b.len() == 3 + rest.len());
        assert(b[0] == g[0] && b[1] == g[1] && b[2] == g[2]);
        assert(b.skip(3) =~= rest);
        assert(encode_spec(b) == enc3(g[0], g[1], g[2]) + encode_spec(rest));
        assert(enc3(g[0], g[1], g[2]) + s.skip(4) =~= s);
    }
}

} // verus!

