//! Base64 of the synchronous response body: the standard alphabet with
//! `=` padding, encoding verified down to every character, and a decode
//! model exact enough to prove the round trip.

use vstd::prelude::*;
use vstd::string::StrSliceExecFns;
use crate::strutil::push_char;

verus! {

/// The 64 base64 digit characters, indexed by their 6-bit value.
pub const BASE64_CHARS: [char; 64] = [
    'A', 'B', 'C', 'D', 'E', 'F', 'G', 'H', 'I', 'J', 'K', 'L', 'M',
    'N', 'O', 'P', 'Q', 'R', 'S', 'T', 'U', 'V', 'W', 'X', 'Y', 'Z',
    'a', 'b', 'c', 'd', 'e', 'f', 'g', 'h', 'i', 'j', 'k', 'l', 'm',
    'n', 'o', 'p', 'q', 'r', 's', 't', 'u', 'v', 'w', 'x', 'y', 'z',
    '0', '1', '2', '3', '4', '5', '6', '7', '8', '9', '+', '/',
];

/// The 6-bit value of a base64 digit character, or -1 for any character
/// outside the alphabet (the padding character included).
pub open spec fn spec_b64_val(c: char) -> int {
    if c == 'A' {
        0
    } else if c == 'B' {
        1
    } else if c == 'C' {
        2
    } else if c == 'D' {
        3
    } else if c == 'E' {
        4
    } else if c == 'F' {
        5
    } else if c == 'G' {
        6
    } else if c == 'H' {
        7
    } else if c == 'I' {
        8
    } else if c == 'J' {
        9
    } else if c == 'K' {
        10
    } else if c == 'L' {
        11
    } else if c == 'M' {
        12
    } else if c == 'N' {
        13
    } else if c == 'O' {
        14
    } else if c == 'P' {
        15
    } else if c == 'Q' {
        16
    } else if c == 'R' {
        17
    } else if c == 'S' {
        18
    } else if c == 'T' {
        19
    } else if c == 'U' {
        20
    } else if c == 'V' {
        21
    } else if c == 'W' {
        22
    } else if c == 'X' {
        23
    } else if c == 'Y' {
        24
    } else if c == 'Z' {
        25
    } else if c == 'a' {
        26
    } else if c == 'b' {
        27
    } else if c == 'c' {
        28
    } else if c == 'd' {
        29
    } else if c == 'e' {
        30
    } else if c == 'f' {
        31
    } else if c == 'g' {
        32
    } else if c == 'h' {
        33
    } else if c == 'i' {
        34
    } else if c == 'j' {
        35
    } else if c == 'k' {
        36
    } else if c == 'l' {
        37
    } else if c == 'm' {
        38
    } else if c == 'n' {
        39
    } else if c == 'o' {
        40
    } else if c == 'p' {
        41
    } else if c == 'q' {
        42
    } else if c == 'r' {
        43
    } else if c == 's' {
        44
    } else if c == 't' {
        45
    } else if c == 'u' {
        46
    } else if c == 'v' {
        47
    } else if c == 'w' {
        48
    } else if c == 'x' {
        49
    } else if c == 'y' {
        50
    } else if c == 'z' {
        51
    } else if c == '0' {
        52
    } else if c == '1' {
        53
    } else if c == '2' {
        54
    } else if c == '3' {
        55
    } else if c == '4' {
        56
    } else if c == '5' {
        57
    } else if c == '6' {
        58
    } else if c == '7' {
        59
    } else if c == '8' {
        60
    } else if c == '9' {
        61
    } else if c == '+' {
        62
    } else if c == '/' {
        63
    } else {
        -1
    }
}

/// The base64 text of `bytes`: each group of three bytes becomes four
/// digit characters; a final group of one or two bytes is padded with
/// `=` to a full four.
pub open spec fn spec_base64(bytes: Seq<u8>) -> Seq<char>
    decreases bytes.len(),
{
    if bytes.len() == 0 {
        Seq::empty()
    } else if bytes.len() == 1 {
        let b0 = bytes[0] as int;
        seq![BASE64_CHARS@[b0 / 4], BASE64_CHARS@[(b0 % 4) * 16], '=', '=']
    } else if bytes.len() == 2 {
        let b0 = bytes[0] as int;
        let b1 = bytes[1] as int;
        seq![
            BASE64_CHARS@[b0 / 4],
            BASE64_CHARS@[(b0 % 4) * 16 + b1 / 16],
            BASE64_CHARS@[(b1 % 16) * 4],
            '=',
        ]
    } else {
        let b0 = bytes[0] as int;
        let b1 = bytes[1] as int;
        let b2 = bytes[2] as int;
        seq![
            BASE64_CHARS@[b0 / 4],
            BASE64_CHARS@[(b0 % 4) * 16 + b1 / 16],
            BASE64_CHARS@[(b1 % 16) * 4 + b2 / 64],
            BASE64_CHARS@[b2 % 64],
        ] + spec_base64(bytes.skip(3))
    }
}

/// Appends the base64 digit of the 6-bit value `v` to `s`.
fn push_b64_digit(s: &mut String, v: u8)
    requires
        v < 64,
    ensures
        final(s)@ == old(s)@.push(BASE64_CHARS@[v as int]),
{
    let c = BASE64_CHARS[v as usize];
    push_char(s, c);
}

/// Encodes `bytes` as base64 text.
pub fn encode_base64(bytes: &[u8]) -> (s: String)
    ensures
        s@ == spec_base64(bytes@),
{
    let n = bytes.len();
    let mut s = String::new();
    let mut i: usize = 0;
    proof {
        assert(bytes@.skip(0) =~= bytes@);
    }
    while n - i >= 3
        invariant
            i <= n,
            n == bytes@.len(),
            spec_base64(bytes@) =~= s@ + spec_base64(bytes@.skip(i as int)),
        decreases n - i,
    {
        let b0 = bytes[i];
        let b1 = bytes[i + 1];
        let b2 = bytes[i + 2];
        push_b64_digit(&mut s, b0 / 4);
        push_b64_digit(&mut s, (b0 % 4) * 16 + b1 / 16);
        push_b64_digit(&mut s, (b1 % 16) * 4 + b2 / 64);
        push_b64_digit(&mut s, b2 % 64);
        proof {
            let rest = bytes@.skip(i as int);
            assert(rest[0] == bytes@[i as int]);
            assert(rest[1] == bytes@[i as int + 1]);
            assert(rest[2] == bytes@[i as int + 2]);
            assert(rest.skip(3) =~= bytes@.skip(i as int + 3));
        }
        i = i + 3;
    }
    if n - i == 1 {
        let b0 = bytes[i];
        push_b64_digit(&mut s, b0 / 4);
        push_b64_digit(&mut s, (b0 % 4) * 16);
        push_char(&mut s, '=');
        push_char(&mut s, '=');
        proof {
            let rest = bytes@.skip(i as int);
            assert(rest.len() == 1);
            assert(rest[0] == bytes@[i as int]);
        }
    } else if n - i == 2 {
        let b0 = bytes[i];
        let b1 = bytes[i + 1];
        push_b64_digit(&mut s, b0 / 4);
        push_b64_digit(&mut s, (b0 % 4) * 16 + b1 / 16);
        push_b64_digit(&mut s, (b1 % 16) * 4);
        push_char(&mut s, '=');
        proof {
            let rest = bytes@.skip(i as int);
            assert(rest.len() == 2);
            assert(rest[0] == bytes@[i as int]);
            assert(rest[1] == bytes@[i as int + 1]);
        }
    } else {
        proof {
            assert(bytes@.skip(i as int).len() == 0);
        }
    }
    s
}

/// The bytes a base64 text stands for, when it is a well-formed encoding
/// as [`spec_base64`] produces it, and nothing otherwise.
pub open spec fn spec_b64_decode(s: Seq<char>) -> Option<Seq<u8>>
    decreases s.len(),
{
    if s.len() == 0 {
        Some(Seq::empty())
    } else if s.len() < 4 {
        None
    } else {
        let v0 = spec_b64_val(s[0]);
        let v1 = spec_b64_val(s[1]);
        if v0 < 0 || v1 < 0 {
            None
        } else if s[2] == '=' && s[3] == '=' {
            if s.len() == 4 && v1 % 16 == 0 {
                Some(seq![(v0 * 4 + v1 / 16) as u8])
            } else {
                None
            }
        } else if s[3] == '=' {
            let v2 = spec_b64_val(s[2]);
            if v2 < 0 || s.len() != 4 || v2 % 4 != 0 {
                None
            } else {
                Some(seq![(v0 * 4 + v1 / 16) as u8, ((v1 % 16) * 16 + v2 / 4) as u8])
            }
        } else {
            let v2 = spec_b64_val(s[2]);
            let v3 = spec_b64_val(s[3]);
            if v2 < 0 || v3 < 0 {
                None
            } else {
                match spec_b64_decode(s.skip(4)) {
                    Some(rest) => Some(
                        seq![
                            (v0 * 4 + v1 / 16) as u8,
                            ((v1 % 16) * 16 + v2 / 4) as u8,
                            ((v2 % 4) * 64 + v3) as u8,
                        ] + rest,
                    ),
                    None => None,
                }
            }
        }
    }
}

/// Every base64 digit character decodes back to its own value.
proof fn lemma_b64_val_of_char(v: int)
    requires
        0 <= v < 64,
    ensures
        spec_b64_val(BASE64_CHARS@[v]) == v,
        BASE64_CHARS@[v] != '=',
{
}

/// Law: decoding an encoding returns exactly the original bytes — for
/// every byte sequence, including the empty one.
pub proof fn lemma_base64_round_trip(bytes: Seq<u8>)
    ensures
        spec_b64_decode(spec_base64(bytes)) == Some(bytes),
    decreases bytes.len(),
{
    let s = spec_base64(bytes);
    if bytes.len() == 0 {
        assert(bytes =~= Seq::<u8>::empty());
    } else if bytes.len() == 1 {
        let b0 = bytes[0] as int;
        lemma_b64_val_of_char(b0 / 4);
        lemma_b64_val_of_char((b0 % 4) * 16);
        assert(((b0 / 4) * 4 + ((b0 % 4) * 16) / 16) == b0);
        assert(spec_b64_decode(s) == Some(seq![bytes[0]]));
        assert(seq![bytes[0]] =~= bytes);
    } else if bytes.len() == 2 {
        let b0 = bytes[0] as int;
        let b1 = bytes[1] as int;
        lemma_b64_val_of_char(b0 / 4);
        lemma_b64_val_of_char((b0 % 4) * 16 + b1 / 16);
        lemma_b64_val_of_char((b1 % 16) * 4);
        assert((b0 / 4) * 4 + ((b0 % 4) * 16 + b1 / 16) / 16 == b0);
        assert((((b0 % 4) * 16 + b1 / 16) % 16) * 16 + ((b1 % 16) * 4) / 4 == b1);
        assert(spec_b64_decode(s) == Some(seq![bytes[0], bytes[1]]));
        assert(seq![bytes[0], bytes[1]] =~= bytes);
    } else {
        let b0 = bytes[0] as int;
        let b1 = bytes[1] as int;
        let b2 = bytes[2] as int;
        lemma_b64_val_of_char(b0 / 4);
        lemma_b64_val_of_char((b0 % 4) * 16 + b1 / 16);
        lemma_b64_val_of_char((b1 % 16) * 4 + b2 / 64);
        lemma_b64_val_of_char(b2 % 64);
        lemma_base64_round_trip(bytes.skip(3));
        let tail = spec_base64(bytes.skip(3));
        assert(s.skip(4) =~= tail);
        assert(s.len() >= 4);
        assert((b0 / 4) * 4 + ((b0 % 4) * 16 + b1 / 16) / 16 == b0);
        assert((((b0 % 4) * 16 + b1 / 16) % 16) * 16 + (((b1 % 16) * 4 + b2 / 64)) / 4 == b1);
        assert(((((b1 % 16) * 4 + b2 / 64)) % 4) * 64 + (b2 % 64) == b2);
        let rest = spec_b64_decode(s.skip(4))->Some_0;
        assert(spec_b64_decode(s) == Some(seq![bytes[0], bytes[1], bytes[2]] + rest));
        assert(seq![bytes[0], bytes[1], bytes[2]] + bytes.skip(3) =~= bytes);
    }
}

/// The 6-bit value of one base64 digit character, `-1` for any other.
fn b64_val(c: char) -> (v: i16)
    ensures
        v as int == spec_b64_val(c),
{
    if c == 'A' {
        0
    } else if c == 'B' {
        1
    } else if c == 'C' {
        2
    } else if c == 'D' {
        3
    } else if c == 'E' {
        4
    } else if c == 'F' {
        5
    } else if c == 'G' {
        6
    } else if c == 'H' {
        7
    } else if c == 'I' {
        8
    } else if c == 'J' {
        9
    } else if c == 'K' {
        10
    } else if c == 'L' {
        11
    } else if c == 'M' {
        12
    } else if c == 'N' {
        13
    } else if c == 'O' {
        14
    } else if c == 'P' {
        15
    } else if c == 'Q' {
        16
    } else if c == 'R' {
        17
    } else if c == 'S' {
        18
    } else if c == 'T' {
        19
    } else if c == 'U' {
        20
    } else if c == 'V' {
        21
    } else if c == 'W' {
        22
    } else if c == 'X' {
        23
    } else if c == 'Y' {
        24
    } else if c == 'Z' {
        25
    } else if c == 'a' {
        26
    } else if c == 'b' {
        27
    } else if c == 'c' {
        28
    } else if c == 'd' {
        29
    } else if c == 'e' {
        30
    } else if c == 'f' {
        31
    } else if c == 'g' {
        32
    } else if c == 'h' {
        33
    } else if c == 'i' {
        34
    } else if c == 'j' {
        35
    } else if c == 'k' {
        36
    } else if c == 'l' {
        37
    } else if c == 'm' {
        38
    } else if c == 'n' {
        39
    } else if c == 'o' {
        40
    } else if c == 'p' {
        41
    } else if c == 'q' {
        42
    } else if c == 'r' {
        43
    } else if c == 's' {
        44
    } else if c == 't' {
        45
    } else if c == 'u' {
        46
    } else if c == 'v' {
        47
    } else if c == 'w' {
        48
    } else if c == 'x' {
        49
    } else if c == 'y' {
        50
    } else if c == 'z' {
        51
    } else if c == '0' {
        52
    } else if c == '1' {
        53
    } else if c == '2' {
        54
    } else if c == '3' {
        55
    } else if c == '4' {
        56
    } else if c == '5' {
        57
    } else if c == '6' {
        58
    } else if c == '7' {
        59
    } else if c == '8' {
        60
    } else if c == '9' {
        61
    } else if c == '+' {
        62
    } else if c == '/' {
        63
    } else {
        -1
    }
}

/// Decodes base64 text: returns the bytes for exactly the texts that
/// [`spec_b64_decode`] accepts — well-formed encodings as [`spec_base64`]
/// produces them — and nothing for every other text.
pub fn decode_base64(s: &str) -> (r: Option<Vec<u8>>)
    ensures
        r is Some <==> spec_b64_decode(s@) is Some,
        r matches Some(b) ==> spec_b64_decode(s@) == Some(b@),
{
    let n = s.unicode_len();
    let mut out: Vec<u8> = Vec::new();
    let mut i: usize = 0;
    proof {
        assert(s@.skip(0) =~= s@);
    }
    while n - i >= 4
        invariant
            i <= n,
            n == s@.len(),
            (match spec_b64_decode(s@.skip(i as int)) {
                Some(rest) => spec_b64_decode(s@) == Some(out@ + rest),
                None => spec_b64_decode(s@) is None,
            }),
        decreases n - i,
    {
        let ghost rest = s@.skip(i as int);
        proof {
            assert(rest[0] == s@[i as int]);
            assert(rest[1] == s@[i as int + 1]);
            assert(rest[2] == s@[i as int + 2]);
            assert(rest[3] == s@[i as int + 3]);
        }
        let c0 = s.get_char(i);
        let c1 = s.get_char(i + 1);
        let c2 = s.get_char(i + 2);
        let c3 = s.get_char(i + 3);
        let v0 = b64_val(c0);
        let v1 = b64_val(c1);
        if v0 < 0 || v1 < 0 {
            return None;
        }
        if c2 == '=' && c3 == '=' {
            if n - i == 4 && v1 % 16 == 0 {
                out.push((v0 * 4 + v1 / 16) as u8);
                i = i + 4;
                proof {
                    assert(s@.skip(i as int).len() == 0);
                    assert(spec_b64_decode(rest) == Some(seq![(v0 * 4 + v1 / 16) as u8]));
                    assert(out@ + Seq::<u8>::empty() =~= out@);
                }
            } else {
                return None;
            }
        } else if c3 == '=' {
            let v2 = b64_val(c2);
            if v2 >= 0 && n - i == 4 && v2 % 4 == 0 {
                out.push((v0 * 4 + v1 / 16) as u8);
                out.push(((v1 % 16) * 16 + v2 / 4) as u8);
                i = i + 4;
                proof {
                    assert(s@.skip(i as int).len() == 0);
                    assert(spec_b64_decode(rest) == Some(
                        seq![(v0 * 4 + v1 / 16) as u8, ((v1 % 16) * 16 + v2 / 4) as u8],
                    ));
                    assert(out@ + Seq::<u8>::empty() =~= out@);
                }
            } else {
                return None;
            }
        } else {
            let v2 = b64_val(c2);
            let v3 = b64_val(c3);
            if v2 < 0 || v3 < 0 {
                return None;
            }
            let ghost out_before = out@;
            out.push((v0 * 4 + v1 / 16) as u8);
            out.push(((v1 % 16) * 16 + v2 / 4) as u8);
            out.push(((v2 % 4) * 64 + v3) as u8);
            i = i + 4;
            proof {
                assert(rest.skip(4) =~= s@.skip(i as int));
                assert(out@ =~= out_before + seq![
                    (v0 * 4 + v1 / 16) as u8,
                    ((v1 % 16) * 16 + v2 / 4) as u8,
                    ((v2 % 4) * 64 + v3) as u8,
                ]);
                match spec_b64_decode(s@.skip(i as int)) {
                    Some(tail) => {
                        assert(spec_b64_decode(rest) == Some(
                            seq![
                                (v0 * 4 + v1 / 16) as u8,
                                ((v1 % 16) * 16 + v2 / 4) as u8,
                                ((v2 % 4) * 64 + v3) as u8,
                            ] + tail,
                        ));
                        assert(out_before + (seq![
                            (v0 * 4 + v1 / 16) as u8,
                            ((v1 % 16) * 16 + v2 / 4) as u8,
                            ((v2 % 4) * 64 + v3) as u8,
                        ] + tail) =~= out@ + tail);
                    },
                    None => {},
                }
            }
        }
    }
    if i == n {
        proof {
            assert(s@.skip(i as int).len() == 0);
            assert(out@ + Seq::<u8>::empty() =~= out@);
        }
        Some(out)
    } else {
        None
    }
}

} // verus!
