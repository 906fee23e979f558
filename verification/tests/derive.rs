use address_gen::address::{digest_to_raw_address, point_to_address};
use address_gen::hex::decode_hex;
use address_gen::sec1::{has_sec1_frame, is_valid_public_key};
use address_gen::{derive_address, pubkey_bytes_to_address, DerivationError};

const G_UNCOMPRESSED: &str = "0479be667ef9dcbbac55a06295ce870b07029bfcdb2dce28d959f2815b16f81798483ada7726a3c4655da4fbfc0e1108a8fd17b448a68554199c47d08ffb10d4b8";
const G_COMPRESSED: &str = "0279be667ef9dcbbac55a06295ce870b07029bfcdb2dce28d959f2815b16f81798";
const G_ADDRESS: &str = "0x7E5F4552091A69125d5DfCb7b8C2659029395Bdf";

const NEG_G_UNCOMPRESSED: &str = "0479be667ef9dcbbac55a06295ce870b07029bfcdb2dce28d959f2815b16f81798b7c52588d95c3b9aa25b0403f1eef75702e84bb7597aabe663b82f6f04ef2777";
const NEG_G_COMPRESSED: &str = "0379be667ef9dcbbac55a06295ce870b07029bfcdb2dce28d959f2815b16f81798";
const NEG_G_ADDRESS: &str = "0x80C0dbf239224071c59dD8970ab9d542E3414aB2";

const SIX_G_UNCOMPRESSED: &str = "04fff97bd5755eeea420453a14355235d382f6472f8568a18b2f057a1460297556ae12777aacfbb620f3be96017f45c560de80f0f6518fe4a03c870c36b075f297";
const SIX_G_COMPRESSED: &str = "03fff97bd5755eeea420453a14355235d382f6472f8568a18b2f057a1460297556";
const SIX_G_ADDRESS: &str = "0xE57bFE9F44b819898F47BF37E5AF72a0783e1141";

fn bytes(hex: &str) -> Vec<u8> {
    decode_hex(hex.as_bytes()).unwrap()
}

#[test]
fn generator_point_has_the_known_address() {
    let key = bytes(G_UNCOMPRESSED);
    assert_eq!(key.len(), 65);
    assert_eq!(key[0], 0x04);
    assert_eq!(derive_address(&key), Ok(G_ADDRESS.to_string()));
}

#[test]
fn compressed_generator_point_has_the_same_address() {
    let compressed = bytes(G_COMPRESSED);
    assert_eq!(compressed.len(), 33);
    assert_eq!(derive_address(&compressed), Ok(G_ADDRESS.to_string()));
    assert_eq!(derive_address(&compressed), derive_address(&bytes(G_UNCOMPRESSED)));
}

#[test]
fn compressed_point_with_odd_y_has_the_address_of_its_uncompressed_form() {
    assert_eq!(derive_address(&bytes(NEG_G_COMPRESSED)), Ok(NEG_G_ADDRESS.to_string()));
    assert_eq!(derive_address(&bytes(NEG_G_UNCOMPRESSED)), Ok(NEG_G_ADDRESS.to_string()));
    assert_eq!(derive_address(&bytes(SIX_G_COMPRESSED)), Ok(SIX_G_ADDRESS.to_string()));
    assert_eq!(derive_address(&bytes(SIX_G_UNCOMPRESSED)), Ok(SIX_G_ADDRESS.to_string()));
}

#[test]
fn the_tag_of_a_compressed_point_picks_the_root() {
    let even = derive_address(&bytes(G_COMPRESSED)).unwrap();
    let odd = derive_address(&bytes(NEG_G_COMPRESSED)).unwrap();
    assert_ne!(even, odd);
}

#[test]
fn more_multiples_of_the_generator() {
    let two = "04c6047f9441ed7d6d3045406e95c07cd85c778e4b8cef3ca7abac09b95c709ee51ae168fea63dc339a3c58419466ceaeef7f632653266d0e1236431a950cfe52a";
    let three = "02f9308a019258c31049344f85f89d5229b531c845836f99b08601f113bce036f9";
    assert_eq!(
        derive_address(&bytes(two)),
        Ok("0x2B5AD5c4795c026514f8317c7a215E218DcCD6cF".to_string())
    );
    assert_eq!(
        derive_address(&bytes(three)),
        Ok("0x6813Eb9362372EEF6200f3b1dbC3f819671cBA69".to_string())
    );
}

#[test]
fn an_address_is_a_prefix_and_forty_hex_digits() {
    for key in [G_UNCOMPRESSED, NEG_G_UNCOMPRESSED, SIX_G_UNCOMPRESSED] {
        let text = derive_address(&bytes(key)).unwrap();
        assert_eq!(text.len(), 42);
        assert!(text.starts_with("0x"));
        assert!(text[2..].chars().all(|c| c.is_ascii_hexdigit()));
    }
}

#[test]
fn deriving_twice_gives_the_same_address() {
    let key = bytes(SIX_G_UNCOMPRESSED);
    let first = derive_address(&key);
    let second = derive_address(&key);
    assert_eq!(first, second);
    let copy = key.clone();
    assert_eq!(derive_address(&copy), first);
    let bad = vec![0x04u8; 65];
    assert_eq!(derive_address(&bad), derive_address(&bad));
}

#[test]
fn a_ten_byte_buffer_is_rejected() {
    assert_eq!(derive_address(&[0x04u8; 10]), Err(DerivationError::InvalidEncoding));
    assert_eq!(derive_address(&[0x02u8; 10]), Err(DerivationError::InvalidEncoding));
}

#[test]
fn sixty_five_bytes_behind_a_wrong_tag_are_rejected() {
    let mut key = bytes(G_UNCOMPRESSED);
    key[0] = 0x05;
    assert_eq!(derive_address(&key), Err(DerivationError::InvalidEncoding));
    key[0] = 0x02;
    assert_eq!(derive_address(&key), Err(DerivationError::InvalidEncoding));
    key[0] = 0x00;
    assert_eq!(derive_address(&key), Err(DerivationError::InvalidEncoding));
}

#[test]
fn thirty_three_bytes_behind_a_wrong_tag_are_rejected() {
    let mut key = bytes(G_COMPRESSED);
    key[0] = 0x04;
    assert_eq!(derive_address(&key), Err(DerivationError::InvalidEncoding));
    key[0] = 0x05;
    assert_eq!(derive_address(&key), Err(DerivationError::InvalidEncoding));
    key[0] = 0x06;
    assert_eq!(derive_address(&key), Err(DerivationError::InvalidEncoding));
}

#[test]
fn empty_and_truncated_input_is_rejected() {
    assert_eq!(derive_address(&[]), Err(DerivationError::InvalidEncoding));
    assert_eq!(derive_address(&[0x00]), Err(DerivationError::InvalidEncoding));
    let key = bytes(G_UNCOMPRESSED);
    assert_eq!(derive_address(&key[..64]), Err(DerivationError::InvalidEncoding));
    let mut long = key.clone();
    long.push(0);
    assert_eq!(derive_address(&long), Err(DerivationError::InvalidEncoding));
}

#[test]
fn coordinates_off_the_curve_are_rejected() {
    let mut key = bytes(G_UNCOMPRESSED);
    key[64] ^= 0x01;
    assert_eq!(derive_address(&key), Err(DerivationError::InvalidEncoding));
    let mut no_root = vec![0u8; 33];
    no_root[0] = 0x02;
    no_root[32] = 0x05;
    assert_eq!(derive_address(&no_root), Err(DerivationError::InvalidEncoding));
    let mut zero = vec![0u8; 65];
    zero[0] = 0x04;
    assert_eq!(derive_address(&zero), Err(DerivationError::InvalidEncoding));
}

#[test]
fn a_coordinate_beyond_the_field_is_rejected() {
    let mut key = vec![0xffu8; 33];
    key[0] = 0x03;
    assert_eq!(derive_address(&key), Err(DerivationError::InvalidEncoding));
}

#[test]
fn frame_check_looks_at_length_and_tag_only() {
    assert!(has_sec1_frame(&bytes(G_COMPRESSED)));
    assert!(has_sec1_frame(&bytes(NEG_G_COMPRESSED)));
    assert!(has_sec1_frame(&bytes(G_UNCOMPRESSED)));
    let mut zero = vec![0u8; 65];
    zero[0] = 0x04;
    assert!(has_sec1_frame(&zero));
    zero[0] = 0x03;
    assert!(!has_sec1_frame(&zero));
    assert!(!has_sec1_frame(&[]));
    assert!(!has_sec1_frame(&[0x02]));
    assert!(!has_sec1_frame(&[0x05; 33]));
}

#[test]
fn validity_asks_for_a_point_of_the_curve() {
    assert!(is_valid_public_key(&bytes(G_COMPRESSED)));
    assert!(is_valid_public_key(&bytes(SIX_G_UNCOMPRESSED)));
    let mut zero = vec![0u8; 65];
    zero[0] = 0x04;
    assert!(!is_valid_public_key(&zero));
    let mut compact = bytes(G_COMPRESSED);
    compact[0] = 0x05;
    assert!(!is_valid_public_key(&compact));
    assert!(!is_valid_public_key(&[0x04u8; 10]));
}

#[test]
fn a_valid_key_goes_straight_to_its_address() {
    for key in [G_UNCOMPRESSED, G_COMPRESSED, NEG_G_COMPRESSED, SIX_G_UNCOMPRESSED] {
        let key = bytes(key);
        assert!(is_valid_public_key(&key));
        assert_eq!(Ok(pubkey_bytes_to_address(&key)), derive_address(&key));
    }
    assert_eq!(pubkey_bytes_to_address(&bytes(G_COMPRESSED)), G_ADDRESS);
}

#[test]
fn an_uncompressed_point_is_hashed_without_its_tag() {
    assert_eq!(point_to_address(&bytes(G_UNCOMPRESSED)), G_ADDRESS);
    assert_eq!(point_to_address(&bytes(NEG_G_UNCOMPRESSED)), NEG_G_ADDRESS);
    let digest = ethers_core::utils::keccak256(&bytes(G_UNCOMPRESSED)[1..]);
    let raw = digest_to_raw_address(&digest);
    assert_eq!(raw.to_vec(), bytes("7e5f4552091a69125d5dfcb7b8c2659029395bdf"));
}

#[test]
fn the_raw_address_is_the_end_of_the_digest() {
    let mut digest = [0u8; 32];
    for (i, byte) in digest.iter_mut().enumerate() {
        *byte = i as u8;
    }
    let raw = digest_to_raw_address(&digest);
    assert_eq!(
        raw,
        [12, 13, 14, 15, 16, 17, 18, 19, 20, 21, 22, 23, 24, 25, 26, 27, 28, 29, 30, 31]
    );
}
