use base64::engine::general_purpose::STANDARD;
use base64::Engine;
use mailomat::utils::{b64_decode, b64_encode, b64_encode_bytes};

/// A small generator of byte strings: the same on every run.
fn bytes(seed: u32, len: usize) -> Vec<u8> {
    let mut state = seed.wrapping_mul(2_654_435_761).wrapping_add(1);
    (0..len)
        .map(|_| {
            state = state.wrapping_mul(1_664_525).wrapping_add(1_013_904_223);
            (state >> 24) as u8
        })
        .collect()
}

#[test]
fn encoding_agrees_with_the_base64_crate() {
    for len in 0..100usize {
        for seed in 0..20u32 {
            let input = bytes(seed, len);
            assert_eq!(b64_encode_bytes(&input), STANDARD.encode(&input), "{input:?}");
        }
    }
    assert_eq!(b64_encode("admin:password"), STANDARD.encode("admin:password"));
    assert_eq!(b64_encode("pässwörd"), STANDARD.encode("pässwörd"));
}

#[test]
fn decoding_agrees_with_the_base64_crate_on_encodings() {
    for len in 0..100usize {
        for seed in 0..20u32 {
            let input = bytes(seed, len);
            let text = STANDARD.encode(&input);
            assert_eq!(b64_decode(&text), Ok(input.clone()));
            assert_eq!(STANDARD.decode(&text).ok(), Some(input));
        }
    }
}

#[test]
fn decoding_accepts_what_the_base64_crate_accepts() {
    let alphabet: Vec<char> =
        "ABCDEFGHIJKLMNOPQRSTUVWXYZabcdefghijklmnopqrstuvwxyz0123456789+/=-_ \n".chars().collect();
    for len in 0..9usize {
        for seed in 0..400u32 {
            let text: String = bytes(seed, len)
                .into_iter()
                .map(|b| alphabet[b as usize % alphabet.len()])
                .collect();
            let ours = b64_decode(&text).ok();
            let theirs = STANDARD.decode(&text).ok();
            assert_eq!(ours, theirs, "{text:?}");
        }
    }
}
