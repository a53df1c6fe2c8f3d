use ps_ecc::{PolynomialDivError, RSDecodeError, RSGenerateParityError, ReedSolomon};
use ps_hash::{HashError, HashValidationError, PsHashError};
use ps_pint16::PackedInt;

fn hex(bytes: &[u8]) -> String {
    let mut out = String::new();
    for byte in bytes {
        out.push_str(&format!("{byte:02x}"));
    }
    out
}

#[test]
fn sha256_of_abc() {
    assert_eq!(
        hex(&ps_hash::sha256(b"abc")),
        "ba7816bf8f01cfea414140de5dae2223b00361a396177a9cb410ff61f20015ad"
    );
}

#[test]
fn blake3_is_that_of_the_crate() {
    for payload in [&b""[..], &b"abc"[..], &b"The quick brown fox"[..]] {
        assert_eq!(ps_hash::blake3(payload), *blake3::hash(payload).as_bytes());
    }
    assert_ne!(ps_hash::blake3(b"abc"), ps_hash::blake3(b"abd"));
}

#[test]
fn the_mixed_digest_is_the_xor() {
    let payload = b"mixed";
    let sha = ps_hash::sha256(payload);
    let blake = ps_hash::blake3(payload);
    let mixed = ps_hash::combine(payload);
    for i in 0..32 {
        assert_eq!(mixed[i], sha[i] ^ blake[i]);
    }
    assert_eq!(ps_hash::hash(payload).unwrap().digest(), &mixed);
}

#[test]
fn a_token_is_frame_and_parity() {
    let payload = vec![9u8; 700];
    let token = ps_hash::hash(&payload).unwrap();
    let mut expected = ps_hash::combine(&payload).to_vec();
    expected.extend_from_slice(&PackedInt::from_usize(700).to_16_bits());
    let parity = ReedSolomon::new(7).unwrap().generate_parity(&expected).unwrap();
    assert_eq!(parity.len(), 14);
    expected.extend_from_slice(&parity);
    assert_eq!(token.as_ref(), &expected[..]);
    assert_eq!(token.digest(), &expected[..32]);
    assert_eq!(token.length().to_16_bits(), expected[32..34]);
    assert_eq!(token.parity(), &expected[34..]);
    assert_eq!(token.compact(), &expected[..42]);
    assert_eq!(token.data_max_len(), token.length());
    assert_eq!(token.data_max_len().to_usize(), 700);
}

#[test]
fn text_is_base64url_of_the_binary_form() {
    let token = ps_hash::hash(b"text").unwrap();
    assert_eq!(token.to_string(), ps_base64::encode(token.as_ref()));
    assert_eq!(ps_base64::decode(&token.to_vec()), token.as_ref());
    let array: [u8; 64] = token.into();
    assert_eq!(array.to_vec(), token.to_vec());
    assert_eq!(String::from(token), token.to_string());
    assert_eq!(String::from(&token), token.to_string());
    assert_eq!(Vec::<u8>::from(token), token.to_vec());
}

#[test]
fn sealing_passes_a_refusal_on() {
    let refusal = RSGenerateParityError::Division(PolynomialDivError::ZeroDivisor);
    assert_eq!(
        ps_hash::Hash::seal(&[0u8; 34], Err(refusal.clone())),
        Err(HashError::RSGenerateParityError(refusal))
    );
}

#[test]
fn sealing_joins_frame_and_parity() {
    let token = ps_hash::hash(b"seal").unwrap();
    let mut frame = [0u8; 34];
    frame.copy_from_slice(&token.as_ref()[..34]);
    let sealed = ps_hash::Hash::seal(&frame, Ok(token.parity().to_vec())).unwrap();
    assert_eq!(sealed, token);
}

#[test]
fn accepting_passes_an_error_on() {
    assert_eq!(
        ps_hash::Hash::accept(Err(RSDecodeError::TooManyErrors), [0u8; 48]),
        Err(HashValidationError::RSDecodeError(
            RSDecodeError::TooManyErrors
        ))
    );
}

#[test]
fn accepting_takes_the_bytes() {
    let token = ps_hash::hash(b"accept").unwrap();
    let accepted = ps_hash::Hash::accept(Ok(()), *token).unwrap();
    assert_eq!(accepted, token);
}

#[test]
fn parts_of_a_text() {
    let token = ps_hash::hash(b"parts").unwrap();
    let (digest, parity, length) = ps_hash::Hash::decode_parts(&token.to_vec()).unwrap();
    assert_eq!(&digest, token.digest());
    assert_eq!(&parity, token.parity());
    assert_eq!(length, token.length());
}

#[test]
fn parts_of_a_damaged_text_are_not_repaired() {
    let token = ps_hash::hash(b"parts").unwrap();
    let mut text = token.to_vec();
    text[0] = if text[0] == b'A' { b'B' } else { b'A' };
    let (digest, parity, length) = ps_hash::Hash::decode_parts(&text).unwrap();
    assert_ne!(&digest, token.digest());
    assert_eq!(digest[1..], token.digest()[1..]);
    assert_eq!(&parity, token.parity());
    assert_eq!(length, token.length());
}

#[test]
fn parts_of_a_short_text() {
    let token = ps_hash::hash(b"parts").unwrap();
    assert_eq!(
        ps_hash::Hash::decode_parts(&token.to_vec()[..63]),
        Err(PsHashError::InputTooShort)
    );
    assert_eq!(
        ps_hash::Hash::decode_parts(b""),
        Err(PsHashError::InputTooShort)
    );
}

#[test]
fn parts_of_a_text_with_gaps() {
    let mut text = vec![b' '; 60];
    text.extend_from_slice(b"AAAA");
    let (digest, parity, length) = ps_hash::Hash::decode_parts(&text).unwrap();
    assert_eq!(digest, [0u8; 32]);
    assert_eq!(parity, [0u8; 14]);
    assert_eq!(length.to_usize(), 0);
}

#[test]
fn messages() {
    assert_eq!(
        PsHashError::InputTooShort.message(),
        "The input was too short and could not be decoded."
    );
    assert_eq!(
        PsHashError::TryFromSliceError.message(),
        "Reading from a slice failed."
    );
    assert_eq!(
        PsHashError::BadInputLength.message(),
        "When converting &[u8] to Hash: incorrect length"
    );
    assert_eq!(
        PsHashError::BadInputByte.message(),
        "When converting &[u8] to Hash: invalid byte"
    );
}

#[test]
fn lenient_text_is_read() {
    let token = ps_hash::hash(b"lenient").unwrap();
    let standard: Vec<u8> = token
        .to_vec()
        .iter()
        .map(|&c| match c {
            b'-' => b'+',
            b'_' => b'/',
            other => other,
        })
        .collect();
    assert_eq!(ps_hash::Hash::validate(&standard), Ok(token));
}
