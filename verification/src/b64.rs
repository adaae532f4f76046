//! A verified base64 codec: standard alphabet, `=` padding, over ASCII
//! byte sequences.

use vstd::prelude::*;

verus! {

/// ASCII code of the `=` padding character.
pub const PAD: u8 = 61;

/// The standard base64 alphabet: the ASCII code of digit `v` (`v < 64`).
pub open spec fn b64_char(v: u8) -> u8 {
    if v < 26 {
        (v + 65) as u8  // 'A'..='Z'
    } else if v < 52 {
        (v + 71) as u8  // 'a'..='z'
    } else if v < 62 {
        (v - 4) as u8  // '0'..='9'
    } else if v == 62 {
        43  // '+'
    } else {
        47  // '/'
    }
}

/// The inverse alphabet: the digit of an ASCII code, if it is one.
pub open spec fn b64_val(c: u8) -> Option<u8> {
    if 65 <= c <= 90 {
        Some((c - 65) as u8)
    } else if 97 <= c <= 122 {
        Some((c - 71) as u8)
    } else if 48 <= c <= 57 {
        Some((c + 4) as u8)
    } else if c == 43 {
        Some(62u8)
    } else if c == 47 {
        Some(63u8)
    } else {
        None
    }
}

/// The four digits encoding one full three-byte group.
pub open spec fn enc3(b0: u8, b1: u8, b2: u8) -> Seq<u8> {
    seq![
        b64_char(b0 >> 2),
        b64_char(((b0 & 3) << 4) | (b1 >> 4)),
        b64_char(((b1 & 15) << 2) | (b2 >> 6)),
        b64_char(b2 & 63),
    ]
}

/// A trailing two-byte group: three digits and one pad.
pub open spec fn enc2(b0: u8, b1: u8) -> Seq<u8> {
    seq![
        b64_char(b0 >> 2),
        b64_char(((b0 & 3) << 4) | (b1 >> 4)),
        b64_char((b1 & 15) << 2),
        PAD,
    ]
}

/// A trailing one-byte group: two digits and two pads.
pub open spec fn enc1(b0: u8) -> Seq<u8> {
    seq![b64_char(b0 >> 2), b64_char((b0 & 3) << 4), PAD, PAD]
}

/// Base64 of a byte sequence, as ASCII codes.
pub open spec fn b64_encode(s: Seq<u8>) -> Seq<u8>
    decreases s.len(),
{
    if s.len() >= 3 {
        enc3(s[0], s[1], s[2]) + b64_encode(s.skip(3))
    } else if s.len() == 2 {
        enc2(s[0], s[1])
    } else if s.len() == 1 {
        enc1(s[0])
    } else {
        Seq::empty()
    }
}

/// Strict base64 decoding: accepts exactly the canonical encodings (length
/// a multiple of four, zero trailing bits under the padding).
pub open spec fn b64_decode(s: Seq<u8>) -> Option<Seq<u8>>
    decreases s.len(),
{
    if s.len() == 0 {
        Some(Seq::empty())
    } else if s.len() < 4 {
        None
    } else if b64_val(s[0]) is None || b64_val(s[1]) is None {
        None
    } else {
        let v0 = b64_val(s[0]).unwrap();
        let v1 = b64_val(s[1]).unwrap();
        if s.len() == 4 && s[3] == PAD {
            if s[2] == PAD {
                if v1 & 15 == 0 {
                    Some(seq![(v0 << 2) | (v1 >> 4)])
                } else {
                    None
                }
            } else if b64_val(s[2]) is None {
                None
            } else {
                let v2 = b64_val(s[2]).unwrap();
                if v2 & 3 == 0 {
                    Some(seq![(v0 << 2) | (v1 >> 4), ((v1 & 15) << 4) | (v2 >> 2)])
                } else {
                    None
                }
            }
        } else if b64_val(s[2]) is None || b64_val(s[3]) is None {
            None
        } else {
            let v2 = b64_val(s[2]).unwrap();
            let v3 = b64_val(s[3]).unwrap();
            match b64_decode(s.skip(4)) {
                None => None,
                Some(rest) => Some(
                    seq![
                        (v0 << 2) | (v1 >> 4),
                        ((v1 & 15) << 4) | (v2 >> 2),
                        ((v2 & 3) << 6) | v3,
                    ] + rest,
                ),
            }
        }
    }
}

/// Every alphabet digit maps back to itself, is ASCII, and is not the pad.
proof fn lemma_b64_char_val(v: u8)
    requires
        v < 64,
    ensures
        b64_val(b64_char(v)) == Some(v),
        b64_char(v) != PAD,
        b64_char(v) < 128,
{
}

/// Decoding inverts encoding: base64 loses no byte.
pub proof fn lemma_b64_round_trip(s: Seq<u8>)
    ensures
        b64_decode(b64_encode(s)) == Some(s),
    decreases s.len(),
{
    if s.len() == 0 {
        assert(s =~= Seq::<u8>::empty());
    } else if s.len() == 1 {
        let b0 = s[0];
        assert(b0 >> 2 < 64 && (b0 & 3) << 4 < 64 && ((b0 & 3) << 4) & 15 == 0
            && (((b0 >> 2) << 2) | (((b0 & 3) << 4) >> 4)) == b0) by (bit_vector);
        lemma_b64_char_val(b0 >> 2);
        lemma_b64_char_val((b0 & 3) << 4);
        assert(seq![((b0 >> 2) << 2) | (((b0 & 3) << 4) >> 4)] =~= s);
    } else if s.len() == 2 {
        let b0 = s[0];
        let b1 = s[1];
        let c1 = ((b0 & 3) << 4) | (b1 >> 4);
        let c2 = (b1 & 15) << 2;
        assert(b0 >> 2 < 64 && (((b0 & 3) << 4) | (b1 >> 4)) < 64 && ((b1 & 15) << 2) < 64
            && (((b1 & 15) << 2) & 3) == 0
            && (((b0 >> 2) << 2) | ((((b0 & 3) << 4) | (b1 >> 4)) >> 4)) == b0
            && ((((((b0 & 3) << 4) | (b1 >> 4)) & 15) << 4) | (((b1 & 15) << 2) >> 2)) == b1)
            by (bit_vector);
        lemma_b64_char_val(b0 >> 2);
        lemma_b64_char_val(c1);
        lemma_b64_char_val(c2);
        assert(seq![
            ((b0 >> 2) << 2) | (c1 >> 4),
            ((c1 & 15) << 4) | (c2 >> 2),
        ] =~= s);
    } else {
        let b0 = s[0];
        let b1 = s[1];
        let b2 = s[2];
        let c1 = ((b0 & 3) << 4) | (b1 >> 4);
        let c2 = ((b1 & 15) << 2) | (b2 >> 6);
        let c3 = b2 & 63;
        assert(b0 >> 2 < 64 && (((b0 & 3) << 4) | (b1 >> 4)) < 64
            && ((((b1 & 15) << 2) | (b2 >> 6))) < 64 && (b2 & 63) < 64
            && (((b0 >> 2) << 2) | ((((b0 & 3) << 4) | (b1 >> 4)) >> 4)) == b0
            && ((((((b0 & 3) << 4) | (b1 >> 4)) & 15) << 4)
                | (((((b1 & 15) << 2) | (b2 >> 6))) >> 2)) == b1
            && ((((((b1 & 15) << 2) | (b2 >> 6)) & 3) << 6) | (b2 & 63)) == b2)
            by (bit_vector);
        lemma_b64_char_val(b0 >> 2);
        lemma_b64_char_val(c1);
        lemma_b64_char_val(c2);
        lemma_b64_char_val(c3);
        let e = enc3(b0, b1, b2);
        let rest = b64_encode(s.skip(3));
        let w = e + rest;
        assert(b64_encode(s) == w);
        assert(w.len() >= 4 && w[0] == e[0] && w[1] == e[1] && w[2] == e[2] && w[3] == e[3]);
        lemma_b64_round_trip(s.skip(3));
        assert(w.skip(4) =~= rest);
        if w.len() == 4 {
            assert(w[3] != PAD);
        }
        let d0 = ((b0 >> 2) << 2) | (c1 >> 4);
        let d1 = ((c1 & 15) << 4) | (c2 >> 2);
        let d2 = ((c2 & 3) << 6) | c3;
        assert(b64_decode(w) == Some(seq![d0, d1, d2] + s.skip(3)));
        assert(seq![d0, d1, d2] + s.skip(3) =~= s);
    }
}

/// Every byte of an encoding is ASCII.
pub proof fn lemma_b64_encode_ascii(s: Seq<u8>)
    ensures
        forall|i: int| 0 <= i < b64_encode(s).len() ==> b64_encode(s)[i] < 128,
    decreases s.len(),
{
    if s.len() >= 3 {
        let b0 = s[0];
        let b1 = s[1];
        let b2 = s[2];
        assert(b0 >> 2 < 64 && (((b0 & 3) << 4) | (b1 >> 4)) < 64
            && ((((b1 & 15) << 2) | (b2 >> 6))) < 64 && (b2 & 63) < 64) by (bit_vector);
        lemma_b64_char_val(b0 >> 2);
        lemma_b64_char_val(((b0 & 3) << 4) | (b1 >> 4));
        lemma_b64_char_val(((b1 & 15) << 2) | (b2 >> 6));
        lemma_b64_char_val(b2 & 63);
        lemma_b64_encode_ascii(s.skip(3));
        let e = enc3(b0, b1, b2);
        let rest = b64_encode(s.skip(3));
        assert forall|i: int| 0 <= i < b64_encode(s).len() implies b64_encode(s)[i] < 128 by {
            if i < 4 {
                assert(b64_encode(s)[i] == e[i]);
            } else {
                assert(b64_encode(s)[i] == rest[i - 4]);
            }
        }
    } else if s.len() == 2 {
        let b0 = s[0];
        let b1 = s[1];
        assert(b0 >> 2 < 64 && (((b0 & 3) << 4) | (b1 >> 4)) < 64
            && ((b1 & 15) << 2) < 64) by (bit_vector);
        lemma_b64_char_val(b0 >> 2);
        lemma_b64_char_val(((b0 & 3) << 4) | (b1 >> 4));
        lemma_b64_char_val((b1 & 15) << 2);
        assert forall|i: int| 0 <= i < b64_encode(s).len() implies b64_encode(s)[i] < 128 by {
            assert(b64_encode(s) == enc2(b0, b1));
        }
    } else if s.len() == 1 {
        let b0 = s[0];
        assert(b0 >> 2 < 64 && ((b0 & 3) << 4) < 64) by (bit_vector);
        lemma_b64_char_val(b0 >> 2);
        lemma_b64_char_val((b0 & 3) << 4);
        assert forall|i: int| 0 <= i < b64_encode(s).len() implies b64_encode(s)[i] < 128 by {
            assert(b64_encode(s) == enc1(b0));
        }
    }
}

/// The ASCII code of digit `v`.
fn b64_digit(v: u8) -> (c: u8)
    requires
        v < 64,
    ensures
        c == b64_char(v),
{
    if v < 26 {
        v + 65
    } else if v < 52 {
        v + 71
    } else if v < 62 {
        v - 4
    } else if v == 62 {
        43
    } else {
        47
    }
}

/// Encodes a byte vector to base64 ASCII.
pub fn encode_bytes(s: &Vec<u8>) -> (r: Vec<u8>)
    ensures
        r@ == b64_encode(s@),
{
    let mut out: Vec<u8> = Vec::new();
    let mut i: usize = 0;
    proof {
        assert(s@.skip(0) =~= s@);
        assert(out@ + b64_encode(s@) =~= b64_encode(s@));
    }
    while i < s.len() && s.len() - i >= 3
        invariant
            i <= s@.len(),
            out@ + b64_encode(s@.skip(i as int)) == b64_encode(s@),
        decreases s@.len() - i,
    {
        let ghost out0 = out@;
        let b0 = s[i];
        let b1 = s[i + 1];
        let b2 = s[i + 2];
        proof {
            assert(b0 >> 2 < 64 && (((b0 & 3) << 4) | (b1 >> 4)) < 64
                && ((((b1 & 15) << 2) | (b2 >> 6))) < 64 && (b2 & 63) < 64) by (bit_vector);
        }
        out.push(b64_digit(b0 >> 2));
        out.push(b64_digit(((b0 & 3) << 4) | (b1 >> 4)));
        out.push(b64_digit(((b1 & 15) << 2) | (b2 >> 6)));
        out.push(b64_digit(b2 & 63));
        proof {
            let tail = s@.skip(i as int);
            assert(tail[0] == s@[i as int] && tail[1] == s@[i as int + 1]
                && tail[2] == s@[i as int + 2]);
            assert(tail.skip(3) =~= s@.skip(i as int + 3));
            assert(out@ =~= out0 + enc3(b0, b1, b2));
            assert(out@ + b64_encode(s@.skip(i as int + 3))
                =~= out0 + b64_encode(s@.skip(i as int)));
        }
        i = i + 3;
    }
    let ghost out1 = out@;
    if i < s.len() {
        let b0 = s[i];
        if i + 1 < s.len() {
            let b1 = s[i + 1];
            proof {
                assert(b0 >> 2 < 64 && (((b0 & 3) << 4) | (b1 >> 4)) < 64
                    && ((b1 & 15) << 2) < 64) by (bit_vector);
            }
            out.push(b64_digit(b0 >> 2));
            out.push(b64_digit(((b0 & 3) << 4) | (b1 >> 4)));
            out.push(b64_digit((b1 & 15) << 2));
            out.push(PAD);
            proof {
                let tail = s@.skip(i as int);
                assert(tail.len() == 2 && tail[0] == b0 && tail[1] == b1);
                assert(out@ =~= out1 + enc2(b0, b1));
                assert(out@ =~= out1 + b64_encode(s@.skip(i as int)));
            }
        } else {
            proof {
                assert(b0 >> 2 < 64 && ((b0 & 3) << 4) < 64) by (bit_vector);
            }
            out.push(b64_digit(b0 >> 2));
            out.push(b64_digit((b0 & 3) << 4));
            out.push(PAD);
            out.push(PAD);
            proof {
                let tail = s@.skip(i as int);
                assert(tail.len() == 1 && tail[0] == b0);
                assert(out@ =~= out1 + enc1(b0));
                assert(out@ =~= out1 + b64_encode(s@.skip(i as int)));
            }
        }
    } else {
        proof {
            assert(s@.skip(i as int) =~= Seq::<u8>::empty());
            assert(out@ =~= out1 + b64_encode(s@.skip(i as int)));
        }
    }
    out
}

} // verus!
