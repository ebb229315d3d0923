use reverbq::base64::{decode_base64, encode_base64};

const B64: &str = "ABCDEFGHIJKLMNOPQRSTUVWXYZabcdefghijklmnopqrstuvwxyz0123456789+/";

/// A plain reference decoder for the standard alphabet with `=` padding.
fn decode(s: &str) -> Option<Vec<u8>> {
    let chars: Vec<char> = s.chars().collect();
    if chars.len() % 4 != 0 {
        return None;
    }
    let mut out = Vec::new();
    for group in chars.chunks(4) {
        let vals: Vec<Option<usize>> = group.iter().map(|c| B64.find(*c)).collect();
        match (vals[0], vals[1], vals[2], vals[3]) {
            (Some(v0), Some(v1), Some(v2), Some(v3)) => {
                out.push((v0 * 4 + v1 / 16) as u8);
                out.push(((v1 % 16) * 16 + v2 / 4) as u8);
                out.push(((v2 % 4) * 64 + v3) as u8);
            }
            (Some(v0), Some(v1), Some(v2), None) if group[3] == '=' => {
                out.push((v0 * 4 + v1 / 16) as u8);
                out.push(((v1 % 16) * 16 + v2 / 4) as u8);
            }
            (Some(v0), Some(v1), None, None) if group[2] == '=' && group[3] == '=' => {
                out.push((v0 * 4 + v1 / 16) as u8);
            }
            _ => return None,
        }
    }
    Some(out)
}

#[test]
fn known_vectors_encode_exactly() {
    assert_eq!(encode_base64(b""), "");
    assert_eq!(encode_base64(b"M"), "TQ==");
    assert_eq!(encode_base64(b"Ma"), "TWE=");
    assert_eq!(encode_base64(b"Man"), "TWFu");
    assert_eq!(encode_base64(b"light work."), "bGlnaHQgd29yay4=");
    assert_eq!(encode_base64(&[0xFF, 0xFF, 0xFF]), "////");
    assert_eq!(encode_base64(&[0xFB]), "+w==");
    assert_eq!(encode_base64(&[0, 0, 0, 0]), "AAAAAA==");
}

#[test]
fn encoded_body_is_decodable_base64() {
    let cases: Vec<Vec<u8>> = vec![
        Vec::new(),
        vec![0],
        vec![255],
        vec![1, 2],
        vec![1, 2, 3],
        vec![1, 2, 3, 4],
        vec![1, 2, 3, 4, 5],
        (0u8..=255).collect(),
        b"some processed audio bytes".to_vec(),
    ];
    for bytes in cases {
        let text = encode_base64(&bytes);
        assert_eq!(decode(&text), Some(bytes.clone()), "case {bytes:?}");
    }
}

#[test]
fn library_decoder_round_trips_every_encoding() {
    let cases: Vec<Vec<u8>> = vec![
        Vec::new(),
        vec![0],
        vec![255],
        vec![77, 97],
        vec![77, 97, 110],
        (0u8..=255).collect(),
        b"processed audio".to_vec(),
    ];
    for bytes in cases {
        assert_eq!(decode_base64(&encode_base64(&bytes)), Some(bytes.clone()));
    }
}

#[test]
fn decoder_rejects_malformed_text() {
    assert_eq!(decode_base64("a"), None);
    assert_eq!(decode_base64("ab"), None);
    assert_eq!(decode_base64("abc"), None);
    assert_eq!(decode_base64("abcde"), None);
    assert_eq!(decode_base64("ab=c"), None);
    assert_eq!(decode_base64("=AAA"), None);
    assert_eq!(decode_base64("TQ==TQ=="), None);
    assert_eq!(decode_base64("T!=="), None);
    assert_eq!(decode_base64(" TWFu"), None);
}

#[test]
fn decoder_accepts_known_vectors() {
    assert_eq!(decode_base64(""), Some(Vec::new()));
    assert_eq!(decode_base64("TQ=="), Some(b"M".to_vec()));
    assert_eq!(decode_base64("TWE="), Some(b"Ma".to_vec()));
    assert_eq!(decode_base64("TWFu"), Some(b"Man".to_vec()));
    assert_eq!(decode_base64("////"), Some(vec![0xFF, 0xFF, 0xFF]));
}

#[test]
fn padding_length_follows_the_input_length() {
    assert_eq!(encode_base64(&[1]).matches('=').count(), 2);
    assert_eq!(encode_base64(&[1, 2]).matches('=').count(), 1);
    assert_eq!(encode_base64(&[1, 2, 3]).matches('=').count(), 0);
    for n in 0..30usize {
        let bytes: Vec<u8> = (0..n as u8).collect();
        assert_eq!(encode_base64(&bytes).len() % 4, 0);
    }
}
