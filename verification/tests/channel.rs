use adex_validator_stack::channel::{Channel, Nonce};
use adex_validator_stack::ids::{Address, ValidatorId};
use tiny_keccak::{Hasher, Keccak};

#[test]
fn nonce_from_u32_is_big_endian() {
    let nonce = Nonce::from(0x01020304u32);
    let bytes = nonce.to_bytes();
    assert!(bytes[..28].iter().all(|b| *b == 0));
    assert_eq!(&bytes[28..], &[1, 2, 3, 4]);
    assert_eq!(Nonce::from(12345u32).to_bytes()[30..], [0x30, 0x39]);
}

#[test]
fn channel_id_is_keccak_of_abi_encoding() {
    let channel = Channel {
        leader: ValidatorId::from(&Address([1; 20])),
        follower: ValidatorId::from(&Address([2; 20])),
        guardian: Address([3; 20]),
        token: Address([4; 20]),
        nonce: Nonce::from(5u32),
    };
    let mut encoded = Vec::new();
    for byte in 1u8..=4 {
        encoded.extend_from_slice(&[0u8; 12]);
        encoded.extend_from_slice(&[byte; 20]);
    }
    encoded.extend_from_slice(&[0u8; 31]);
    encoded.push(5);
    let mut hasher = Keccak::v256();
    hasher.update(&encoded);
    let mut expected = [0u8; 32];
    hasher.finalize(&mut expected);
    assert_eq!(channel.id().0, expected);
}

#[test]
fn channel_encoding_layout() {
    let channel = Channel {
        leader: ValidatorId::from(&Address([1; 20])),
        follower: ValidatorId::from(&Address([2; 20])),
        guardian: Address([3; 20]),
        token: Address([4; 20]),
        nonce: Nonce::from(0x0a0b0c0du32),
    };
    let encoded = channel.encode();
    assert_eq!(encoded.len(), 160);
    for word in 0..4 {
        assert!(encoded[word * 32..word * 32 + 12].iter().all(|b| *b == 0));
        assert!(encoded[word * 32 + 12..word * 32 + 32].iter().all(|b| *b == word as u8 + 1));
    }
    assert_eq!(&encoded[156..], &[0x0a, 0x0b, 0x0c, 0x0d]);
}
