use zk_precompiles::abi::DecodedToken;
use zk_precompiles::error::Error;
use zk_precompiles::utils::{
    into_address, into_bytes, into_bytes32, into_bytes32_array, into_bytes_2d_array,
    into_bytes_array, into_uint, into_uint256, into_uint256_array, into_uint_array, join_bytes32,
    split_bytes32,
};
use zk_precompiles::word::U256;

fn uint(low: u128) -> U256 {
    let mut bytes = [0u8; 32];
    bytes[16..].copy_from_slice(&low.to_be_bytes());
    U256::from_big_endian(bytes)
}

fn every_other_shape() -> Vec<DecodedToken> {
    vec![
        DecodedToken::Bool(true),
        DecodedToken::String("text".to_string()),
        DecodedToken::Int(uint(3)),
        DecodedToken::FixedArray(vec![]),
        DecodedToken::Tuple(vec![]),
    ]
}

#[test]
fn into_bytes32_takes_exactly_32_bytes() {
    let word: Vec<u8> = (0u8..32).collect();
    let mut expected = [0u8; 32];
    expected.copy_from_slice(&word);
    assert_eq!(into_bytes32(Some(DecodedToken::FixedBytes(word.clone()))), Some(expected));
    assert_eq!(into_bytes32(Some(DecodedToken::FixedBytes(word[..31].to_vec()))), None);
    assert_eq!(into_bytes32(Some(DecodedToken::FixedBytes(vec![0u8; 33]))), None);
    assert_eq!(into_bytes32(Some(DecodedToken::FixedBytes(vec![]))), None);
    assert_eq!(into_bytes32(Some(DecodedToken::Bytes(word))), None);
    assert_eq!(into_bytes32(None), None);
    for other in every_other_shape() {
        assert_eq!(into_bytes32(Some(other)), None);
    }
}

#[test]
fn into_bytes32_array_needs_every_item_to_be_a_word() {
    let tokens = DecodedToken::Array(vec![
        DecodedToken::FixedBytes(vec![1u8; 32]),
        DecodedToken::FixedBytes(vec![2u8; 32]),
    ]);
    assert_eq!(into_bytes32_array(Some(tokens)), Some(vec![[1u8; 32], [2u8; 32]]));
    assert_eq!(into_bytes32_array(Some(DecodedToken::Array(vec![]))), Some(vec![]));
    let broken = DecodedToken::Array(vec![
        DecodedToken::FixedBytes(vec![1u8; 32]),
        DecodedToken::FixedBytes(vec![2u8; 31]),
    ]);
    assert_eq!(into_bytes32_array(Some(broken)), None);
    let mixed = DecodedToken::Array(vec![
        DecodedToken::FixedBytes(vec![1u8; 32]),
        DecodedToken::Bytes(vec![2u8; 32]),
    ]);
    assert_eq!(into_bytes32_array(Some(mixed)), None);
    let fixed = DecodedToken::FixedArray(vec![DecodedToken::FixedBytes(vec![1u8; 32])]);
    assert_eq!(into_bytes32_array(Some(fixed)), None);
    assert_eq!(into_bytes32_array(Some(DecodedToken::FixedBytes(vec![1u8; 32]))), None);
    assert_eq!(into_bytes32_array(None), None);
}

#[test]
fn into_address_takes_an_address() {
    assert_eq!(into_address(Some(DecodedToken::Address([7u8; 20]))), Some([7u8; 20]));
    assert_eq!(into_address(Some(DecodedToken::FixedBytes(vec![7u8; 20]))), None);
    assert_eq!(into_address(None), None);
}

#[test]
fn into_uint256_takes_an_unsigned_integer() {
    let u = U256::from_big_endian([0xabu8; 32]);
    assert_eq!(into_uint256(Some(DecodedToken::Uint(u))), Some(u));
    assert_eq!(into_uint256(Some(DecodedToken::Int(u))), None);
    assert_eq!(into_uint256(Some(DecodedToken::FixedBytes(vec![0xab; 32]))), None);
    assert_eq!(into_uint256(None), None);
    assert_eq!(u.to_big_endian(), [0xabu8; 32]);
}

#[test]
fn into_uint_takes_what_fits_in_128_bits() {
    assert_eq!(into_uint(Some(DecodedToken::Uint(uint(0)))), Some(0));
    assert_eq!(into_uint(Some(DecodedToken::Uint(uint(1)))), Some(1));
    assert_eq!(into_uint(Some(DecodedToken::Uint(uint(258)))), Some(258));
    assert_eq!(
        into_uint(Some(DecodedToken::Uint(uint(0x0102_0304_0506_0708_090a_0b0c_0d0e_0f10)))),
        Some(0x0102_0304_0506_0708_090a_0b0c_0d0e_0f10)
    );
    assert_eq!(into_uint(Some(DecodedToken::Uint(uint(u128::MAX)))), Some(u128::MAX));

    // two to the 128th
    let mut bytes = [0u8; 32];
    bytes[15] = 1;
    assert_eq!(into_uint(Some(DecodedToken::Uint(U256::from_big_endian(bytes)))), None);
    assert_eq!(U256::from_big_endian(bytes).to_u128(), None);
    let mut high = [0u8; 32];
    high[0] = 0x80;
    assert_eq!(into_uint(Some(DecodedToken::Uint(U256::from_big_endian(high)))), None);
    assert_eq!(into_uint(Some(DecodedToken::Uint(U256::from_big_endian([0xff; 32])))), None);

    assert_eq!(into_uint(Some(DecodedToken::Int(uint(1)))), None);
    assert_eq!(into_uint(None), None);
}

#[test]
fn into_uint_array_needs_every_item_to_fit() {
    let tokens =
        DecodedToken::Array(vec![DecodedToken::Uint(uint(5)), DecodedToken::Uint(uint(6))]);
    assert_eq!(into_uint_array(Some(tokens)), Some(vec![5, 6]));
    assert_eq!(into_uint_array(Some(DecodedToken::Array(vec![]))), Some(vec![]));
    let too_large = DecodedToken::Array(vec![
        DecodedToken::Uint(uint(5)),
        DecodedToken::Uint(U256::from_big_endian([1u8; 32])),
    ]);
    assert_eq!(into_uint_array(Some(too_large)), None);
    let mixed =
        DecodedToken::Array(vec![DecodedToken::Uint(uint(5)), DecodedToken::Bool(false)]);
    assert_eq!(into_uint_array(Some(mixed)), None);
    assert_eq!(into_uint_array(Some(DecodedToken::Uint(uint(5)))), None);
    assert_eq!(into_uint_array(None), None);
}

#[test]
fn into_uint256_array_needs_every_item_to_be_an_integer() {
    let big = U256::from_big_endian([1u8; 32]);
    let tokens = DecodedToken::Array(vec![DecodedToken::Uint(uint(5)), DecodedToken::Uint(big)]);
    assert_eq!(into_uint256_array(Some(tokens)), Some(vec![uint(5), big]));
    let mixed = DecodedToken::Array(vec![DecodedToken::Uint(uint(5)), DecodedToken::Int(big)]);
    assert_eq!(into_uint256_array(Some(mixed)), None);
    assert_eq!(into_uint256_array(Some(DecodedToken::Tuple(vec![]))), None);
    assert_eq!(into_uint256_array(None), None);
}

#[test]
fn into_bytes_takes_a_byte_string_of_any_length() {
    assert_eq!(into_bytes(Some(DecodedToken::Bytes(vec![]))), Some(vec![]));
    assert_eq!(into_bytes(Some(DecodedToken::Bytes(vec![1, 2, 3]))), Some(vec![1, 2, 3]));
    assert_eq!(into_bytes(Some(DecodedToken::FixedBytes(vec![1, 2, 3]))), None);
    assert_eq!(into_bytes(None), None);
    for other in every_other_shape() {
        assert_eq!(into_bytes(Some(other)), None);
    }
}

#[test]
fn into_bytes_array_needs_every_item_to_be_a_byte_string() {
    let tokens =
        DecodedToken::Array(vec![DecodedToken::Bytes(vec![1]), DecodedToken::Bytes(vec![])]);
    assert_eq!(into_bytes_array(Some(tokens)), Some(vec![vec![1], vec![]]));
    let mixed = DecodedToken::Array(vec![
        DecodedToken::Bytes(vec![1]),
        DecodedToken::FixedBytes(vec![2]),
    ]);
    assert_eq!(into_bytes_array(Some(mixed)), None);
    assert_eq!(into_bytes_array(Some(DecodedToken::Bytes(vec![1]))), None);
    assert_eq!(into_bytes_array(None), None);
}

#[test]
fn into_bytes_2d_array_reads_row_by_row() {
    let row = |items: Vec<Vec<u8>>| {
        DecodedToken::Array(items.into_iter().map(DecodedToken::Bytes).collect())
    };
    let tokens = DecodedToken::Array(vec![row(vec![vec![1], vec![2, 3]]), row(vec![])]);
    assert_eq!(
        into_bytes_2d_array(Some(tokens)),
        Some(vec![vec![vec![1], vec![2, 3]], vec![]])
    );
    let flat = DecodedToken::Array(vec![DecodedToken::Bytes(vec![1])]);
    assert_eq!(into_bytes_2d_array(Some(flat)), None);
    let broken = DecodedToken::Array(vec![
        row(vec![vec![1]]),
        DecodedToken::Array(vec![DecodedToken::Uint(uint(1))]),
    ]);
    assert_eq!(into_bytes_2d_array(Some(broken)), None);
    assert_eq!(into_bytes_2d_array(None), None);
}

#[test]
fn join_bytes32_writes_the_words_in_order() {
    assert_eq!(join_bytes32(&[]), Vec::<u8>::new());
    let joined = join_bytes32(&[[1u8; 32], [2u8; 32], [3u8; 32]]);
    assert_eq!(joined.len(), 96);
    assert_eq!(&joined[..32], &[1u8; 32]);
    assert_eq!(&joined[32..64], &[2u8; 32]);
    assert_eq!(&joined[64..], &[3u8; 32]);
}

#[test]
fn split_bytes32_leaves_out_what_is_behind_the_last_word() {
    let bytes: Vec<u8> = (0u8..70).collect();
    let words = split_bytes32(&bytes).unwrap();
    assert_eq!(words.len(), 2);
    assert_eq!(&words[0][..], &bytes[..32]);
    assert_eq!(&words[1][..], &bytes[32..64]);
    assert_eq!(split_bytes32(&bytes[..31]), Ok::<_, Error>(vec![]));
    assert_eq!(split_bytes32(&[]), Ok::<_, Error>(vec![]));
    assert_eq!(split_bytes32(&bytes[..32]).unwrap().len(), 1);
}

#[test]
fn split_and_join_undo_each_other() {
    let words = vec![[9u8; 32], [8u8; 32], [7u8; 32]];
    let joined = join_bytes32(&words);
    let split: Vec<[u8; 32]> = split_bytes32(&joined).unwrap().into_iter().copied().collect();
    assert_eq!(split, words);
    let bytes: Vec<u8> = (0u8..100).collect();
    let whole: Vec<[u8; 32]> = split_bytes32(&bytes).unwrap().into_iter().copied().collect();
    assert_eq!(join_bytes32(&whole), bytes[..96].to_vec());
}
