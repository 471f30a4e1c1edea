//! An executable UTF-8 validity check, proved against the UTF-8 model of
//! `vstd::utf8` (`valid_utf8`).
use vstd::prelude::*;
use vstd::utf8::*;

verus! {

/// Whether `s` is a valid UTF-8 encoding of some character sequence.
pub fn is_valid_utf8(s: &[u8]) -> (b: bool)
    ensures
        b == valid_utf8(s@),
{
    let n = s.len();
    let mut i: usize = 0;
    proof {
        assert(s@.subrange(0, 0) =~= Seq::<u8>::empty());
    }
    while i < n
        invariant
            i <= n,
            n == s@.len(),
            partial_valid_utf8(s@, i as int),
        decreases n - i,
    {
        let ghost t = s@.subrange(i as int, n as int);
        let b0 = s[i];
        proof {
            assert(t.len() == n - i);
            assert(t[0] == b0);
        }
        if b0 < 0x80 {
            proof {
                assert(is_leading_byte_width_1(b0));
                assert(valid_first_scalar(t));
                assert(length_of_first_scalar(t) == 1);
                partial_valid_utf8_extend(s@, i as int);
            }
            i += 1;
        } else if b0 < 0xc0 {
            proof {
                assert(!valid_leading_and_continuation_bytes_first_codepoint(t));
                assert(!valid_utf8(t));
                partial_valid_partial_invalid_utf8(s@, i as int);
            }
            return false;
        } else if b0 < 0xe0 {
            if i + 1 >= n {
                proof {
                    assert(t.len() == 1);
                    assert(!valid_leading_and_continuation_bytes_first_codepoint(t));
                    assert(!valid_utf8(t));
                    partial_valid_partial_invalid_utf8(s@, i as int);
                }
                return false;
            }
            let b1 = s[i + 1];
            proof {
                assert(t[1] == b1);
            }
            if !(0x80 <= b1 && b1 <= 0xbf) {
                proof {
                    assert(!valid_leading_and_continuation_bytes_first_codepoint(t));
                    assert(!valid_utf8(t));
                    partial_valid_partial_invalid_utf8(s@, i as int);
                }
                return false;
            }
            let cp = (((b0 & 0x1f) as u32) << 6) | ((b1 & 0x3f) as u32);
            proof {
                assert(is_leading_byte_width_2(b0) && is_continuation_byte(b1));
                assert(cp == decode_first_codepoint(t));
                assert(length_of_first_codepoint(t) == 2);
            }
            if cp < 0x80 {
                proof {
                    assert(!not_overlong_encoding(decode_first_codepoint(t),
                        length_of_first_codepoint(t)));
                    assert(!valid_utf8(t));
                    partial_valid_partial_invalid_utf8(s@, i as int);
                }
                return false;
            }
            proof {
                assert((((b0 & 0x1f) as u32) << 6) | ((b1 & 0x3f) as u32) < 0xd800) by (bit_vector);
                assert(valid_first_scalar(t));
                partial_valid_utf8_extend(s@, i as int);
            }
            i += 2;
        } else if b0 < 0xf0 {
            if n - i < 3 {
                proof {
                    assert(t.len() <= 2);
                    assert(!valid_leading_and_continuation_bytes_first_codepoint(t));
                    assert(!valid_utf8(t));
                    partial_valid_partial_invalid_utf8(s@, i as int);
                }
                return false;
            }
            let b1 = s[i + 1];
            let b2 = s[i + 2];
            proof {
                assert(t[1] == b1 && t[2] == b2);
            }
            if !(0x80 <= b1 && b1 <= 0xbf) || !(0x80 <= b2 && b2 <= 0xbf) {
                proof {
                    assert(!valid_leading_and_continuation_bytes_first_codepoint(t));
                    assert(!valid_utf8(t));
                    partial_valid_partial_invalid_utf8(s@, i as int);
                }
                return false;
            }
            let cp = (((b0 & 0x0f) as u32) << 12) | ((((b1 & 0x3f) as u32) << 6) | ((b2
                & 0x3f) as u32));
            proof {
                assert(is_leading_byte_width_3(b0));
                assert((((b0 & 0x0f) as u32) << 12) | ((((b1 & 0x3f) as u32) << 6) | ((b2
                    & 0x3f) as u32)) == ((((b0 & 0x0f) as u32) << 12) | (((b1 & 0x3f) as u32) << 6))
                    | ((b2 & 0x3f) as u32)) by (bit_vector);
                assert(cp == decode_first_codepoint(t));
                assert(length_of_first_codepoint(t) == 3);
            }
            if cp < 0x800 || (0xd800 <= cp && cp <= 0xdfff) {
                proof {
                    assert(!valid_first_scalar(t));
                    assert(!valid_utf8(t));
                    partial_valid_partial_invalid_utf8(s@, i as int);
                }
                return false;
            }
            proof {
                assert(valid_first_scalar(t));
                partial_valid_utf8_extend(s@, i as int);
            }
            i += 3;
        } else if b0 < 0xf8 {
            if n - i < 4 {
                proof {
                    assert(t.len() <= 3);
                    assert(!valid_leading_and_continuation_bytes_first_codepoint(t));
                    assert(!valid_utf8(t));
                    partial_valid_partial_invalid_utf8(s@, i as int);
                }
                return false;
            }
            let b1 = s[i + 1];
            let b2 = s[i + 2];
            let b3 = s[i + 3];
            proof {
                assert(t[1] == b1 && t[2] == b2 && t[3] == b3);
            }
            if !(0x80 <= b1 && b1 <= 0xbf) || !(0x80 <= b2 && b2 <= 0xbf) || !(0x80 <= b3 && b3
                <= 0xbf) {
                proof {
                    assert(!valid_leading_and_continuation_bytes_first_codepoint(t));
                    assert(!valid_utf8(t));
                    partial_valid_partial_invalid_utf8(s@, i as int);
                }
                return false;
            }
            let cp = (((b0 & 0x07) as u32) << 18) | ((((b1 & 0x3f) as u32) << 12) | ((((b2
                & 0x3f) as u32) << 6) | ((b3 & 0x3f) as u32)));
            proof {
                assert(is_leading_byte_width_4(b0));
                assert((((b0 & 0x07) as u32) << 18) | ((((b1 & 0x3f) as u32) << 12) | ((((b2
                    & 0x3f) as u32) << 6) | ((b3 & 0x3f) as u32))) == (((((b0 & 0x07) as u32) << 18)
                    | (((b1 & 0x3f) as u32) << 12)) | (((b2 & 0x3f) as u32) << 6)) | ((b3
                    & 0x3f) as u32)) by (bit_vector);
                assert(cp == decode_first_codepoint(t));
                assert(length_of_first_codepoint(t) == 4);
            }
            if !(0x10000 <= cp && cp <= 0x10ffff) {
                proof {
                    assert(!valid_first_scalar(t));
                    assert(!valid_utf8(t));
                    partial_valid_partial_invalid_utf8(s@, i as int);
                }
                return false;
            }
            proof {
                assert(valid_first_scalar(t));
                partial_valid_utf8_extend(s@, i as int);
            }
            i += 4;
        } else {
            proof {
                assert(!valid_leading_and_continuation_bytes_first_codepoint(t));
                assert(!valid_utf8(t));
                partial_valid_partial_invalid_utf8(s@, i as int);
            }
            return false;
        }
    }
    proof {
        assert(s@.subrange(0, n as int) =~= s@);
    }
    true
}

} // verus!
