use filecrypt::config::KEY_BYTES;
use filecrypt::crypto::block::decrypt_vec_block;
use filecrypt::crypto::block::encrypt_vec_block;
use filecrypt::crypto::compress_data;
use filecrypt::crypto::decompress_data;
use filecrypt::crypto::decrypt;
use filecrypt::crypto::decrypt_data;
use filecrypt::crypto::encrypt;
use filecrypt::crypto::encrypt_data;
use filecrypt::crypto::run;
use filecrypt::crypto::try_encrypt_data;
use filecrypt::error::CryptoError;
use filecrypt::operation_type::OperationType;

const PLAIN_BLOCK: [u8; 16] = [
    0x32, 0x43, 0xf6, 0xa8, 0x88, 0x5a, 0x30, 0x8d, 0x31, 0x31, 0x98, 0xa2, 0xe0, 0x37, 0x07, 0x34,
];

const CIPHER_BLOCK: [u8; 16] = [
    0x39, 0x25, 0x84, 0x1d, 0x02, 0xdc, 0x09, 0xfb, 0xdc, 0x11, 0x85, 0x97, 0x19, 0x6a, 0x0b, 0x32,
];

fn random_bytes(len: usize) -> Vec<u8> {
    (0..len).map(|_| rand::random::<u8>()).collect()
}

#[test]
fn block_encrypts_to_the_published_vector() {
    let encrypted = encrypt_vec_block(&KEY_BYTES, &PLAIN_BLOCK.to_vec());
    assert_eq!(encrypted, CIPHER_BLOCK.to_vec());
}

#[test]
fn block_decrypts_to_the_published_vector() {
    let decrypted = decrypt_vec_block(&KEY_BYTES, &CIPHER_BLOCK.to_vec());
    assert_eq!(decrypted, Ok(PLAIN_BLOCK.to_vec()));
}

#[test]
fn block_of_wrong_size_is_refused() {
    assert_eq!(
        decrypt_vec_block(&KEY_BYTES, &vec![0u8; 15]),
        Err(CryptoError::InvalidBlockSize)
    );
    assert_eq!(
        decrypt_vec_block(&KEY_BYTES, &vec![0u8; 17]),
        Err(CryptoError::InvalidBlockSize)
    );
    assert_eq!(
        decrypt_vec_block(&KEY_BYTES, &Vec::new()),
        Err(CryptoError::InvalidBlockSize)
    );
}

#[test]
fn empty_input_gives_a_bare_header() {
    let frame = encrypt_data(&Vec::new());
    assert_eq!(frame, vec![0u8, 0, 0, 0]);
    assert_eq!(decrypt_data(&frame), Ok(Vec::new()));
}

#[test]
fn hello_world_fills_one_block() {
    let input = Vec::from("Hello world");
    assert_eq!(input.len(), 11);
    let frame = encrypt_data(&input);
    assert_eq!(frame.len(), 20);
    assert_eq!(&frame[0..4], &[0u8, 0, 0, 11]);
    assert_eq!(decrypt_data(&frame), Ok(input));
}

#[test]
fn frame_holds_the_published_vector() {
    let frame = encrypt_data(&PLAIN_BLOCK.to_vec());
    let mut expected = vec![0u8, 0, 0, 16];
    expected.extend_from_slice(&CIPHER_BLOCK);
    assert_eq!(frame, expected);
    assert_eq!(decrypt_data(&expected), Ok(PLAIN_BLOCK.to_vec()));
}

#[test]
fn frame_length_is_header_plus_whole_blocks() {
    for len in 0..70usize {
        let frame = encrypt_data(&vec![7u8; len]);
        assert_eq!(frame.len(), 4 + ((len + 15) / 16) * 16);
    }
    assert_eq!(encrypt_data(&vec![1u8; 16]).len(), 20);
    assert_eq!(encrypt_data(&vec![1u8; 17]).len(), 36);
    assert_eq!(encrypt_data(&vec![1u8; 256]).len(), 260);
}

#[test]
fn header_is_big_endian() {
    let frame = encrypt_data(&vec![0u8; 0x0102_03]);
    assert_eq!(&frame[0..4], &[0u8, 0x01, 0x02, 0x03]);
}

#[test]
fn round_trip_of_every_short_length() {
    for len in 0..100usize {
        let input = random_bytes(len);
        let frame = encrypt_data(&input);
        assert_eq!(decrypt_data(&frame), Ok(input));
    }
}

#[test]
fn round_trip_of_large_random_data() {
    let input = random_bytes(100_000);
    let frame = encrypt(&input, false).unwrap();
    assert_eq!(frame.len(), 4 + 100_000);
    assert_eq!(decrypt(&frame, false), Ok(input));
}

#[test]
fn round_trip_with_compression() {
    let input = random_bytes(1_000);
    let frame = encrypt(&input, true).unwrap();
    assert_eq!(decrypt(&frame, true), Ok(input));
}

#[test]
fn round_trip_of_empty_input_with_compression() {
    let frame = encrypt(&Vec::new(), true).unwrap();
    assert_eq!(decrypt(&frame, true), Ok(Vec::new()));
}

#[test]
fn compression_comes_before_encryption() {
    let input = vec![b'a'; 4_000];
    let frame = encrypt(&input, true).unwrap();
    assert!(frame.len() < input.len());
    let compressed = compress_data(&input).unwrap();
    assert_eq!(frame, encrypt_data(&compressed));
    assert_eq!(decrypt_data(&frame), Ok(compressed));
}

#[test]
fn flag_must_match_between_directions() {
    let input = Vec::from("Hello world");
    let frame = encrypt(&input, false).unwrap();
    assert_eq!(decrypt(&frame, true), Err(CryptoError::DecompressionError));
}

#[test]
fn equal_blocks_encrypt_alike() {
    let mut first = vec![0x5au8; 16];
    first.extend_from_slice(&[1u8; 16]);
    let mut second = vec![0x5au8; 16];
    second.extend_from_slice(&[2u8; 16]);
    assert_ne!(first, second);

    let a = encrypt_data(&first);
    let b = encrypt_data(&second);
    assert_eq!(&a[4..20], &b[4..20]);
    assert_ne!(&a[20..36], &b[20..36]);

    let repeated = encrypt_data(&vec![9u8; 48]);
    assert_eq!(&repeated[4..20], &repeated[20..36]);
    assert_eq!(&repeated[4..20], &repeated[36..52]);
}

#[test]
fn short_frame_is_truncated() {
    assert_eq!(decrypt_data(&Vec::new()), Err(CryptoError::TruncatedFrame));
    assert_eq!(decrypt_data(&vec![0u8, 0, 0]), Err(CryptoError::TruncatedFrame));
    assert_eq!(decrypt(&vec![0u8; 3], true), Err(CryptoError::TruncatedFrame));
}

#[test]
fn overlong_header_is_a_length_mismatch() {
    assert_eq!(decrypt_data(&vec![0u8, 0, 0, 1]), Err(CryptoError::LengthMismatch));

    let mut frame = encrypt_data(&Vec::from("Hello world"));
    frame[3] = 17;
    assert_eq!(decrypt_data(&frame), Err(CryptoError::LengthMismatch));
    frame[3] = 16;
    let mut padded = Vec::from("Hello world");
    padded.extend_from_slice(&[0u8; 5]);
    assert_eq!(decrypt_data(&frame), Ok(padded));

    let mut cut = encrypt_data(&vec![3u8; 32]);
    cut.truncate(4 + 16);
    assert_eq!(decrypt_data(&cut), Err(CryptoError::LengthMismatch));
}

#[test]
fn bytes_behind_the_last_whole_block_are_passed_over() {
    let mut frame = encrypt_data(&PLAIN_BLOCK.to_vec());
    frame.extend_from_slice(&[0xffu8; 5]);
    assert_eq!(decrypt_data(&frame), Ok(PLAIN_BLOCK.to_vec()));

    let mut short = vec![0u8, 0, 0, 0];
    short.extend_from_slice(&[0xffu8; 15]);
    assert_eq!(decrypt_data(&short), Ok(Vec::new()));
    short[3] = 1;
    assert_eq!(decrypt_data(&short), Err(CryptoError::LengthMismatch));
}

#[test]
fn header_shorter_than_the_data_cuts_it() {
    let mut frame = encrypt_data(&Vec::from("Hello world"));
    frame[3] = 5;
    assert_eq!(decrypt_data(&frame), Ok(Vec::from("Hello")));
}

#[test]
fn try_encrypt_data_agrees_with_encrypt_data() {
    let input = random_bytes(37);
    assert_eq!(try_encrypt_data(&input), Ok(encrypt_data(&input)));
    assert_eq!(encrypt(&input, false), Ok(encrypt_data(&input)));
}

#[test]
fn compression_round_trip_keeps_every_byte() {
    for len in [0usize, 1, 15, 16, 17, 1_000, 70_000] {
        let input = random_bytes(len);
        let compressed = compress_data(&input).unwrap();
        assert_eq!(decompress_data(&compressed), Ok(input));
    }
}

#[test]
fn compressed_data_is_a_gzip_stream() {
    let input = vec![0u8; 10_000];
    let compressed = compress_data(&input).unwrap();
    assert_eq!(&compressed[0..3], &[0x1fu8, 0x8b, 0x08]);
    assert_eq!(&compressed[4..8], &[0u8, 0, 0, 0]);
    assert!(compressed.len() < 200);
    assert_ne!(compressed, input);
}

#[test]
fn malformed_stream_is_a_decompression_error() {
    assert_eq!(
        decompress_data(&Vec::from("Hello world")),
        Err(CryptoError::DecompressionError)
    );
    assert_eq!(decompress_data(&Vec::new()), Err(CryptoError::DecompressionError));

    let mut compressed = compress_data(&random_bytes(500)).unwrap();
    let half = compressed.len() / 2;
    compressed.truncate(half);
    assert_eq!(decompress_data(&compressed), Err(CryptoError::DecompressionError));
}

#[test]
fn corrupted_checksum_is_a_decompression_error() {
    let mut compressed = compress_data(&Vec::from("Hello world")).unwrap();
    let last = compressed.len() - 8;
    compressed[last] ^= 0xff;
    assert_eq!(decompress_data(&compressed), Err(CryptoError::DecompressionError));
}

#[test]
fn run_dispatches_on_the_operation() {
    let input = Vec::from("Hello world");
    let frame = run(OperationType::ENCRYPT, &input, false).unwrap();
    assert_eq!(frame, encrypt_data(&input));
    assert_eq!(run(OperationType::DECRYPT, &frame, false), Ok(input.clone()));

    let packed = run(OperationType::ENCRYPT, &input, true).unwrap();
    assert_eq!(run(OperationType::DECRYPT, &packed, true), Ok(input));
    assert_eq!(
        run(OperationType::DECRYPT, &vec![1u8, 2], false),
        Err(CryptoError::TruncatedFrame)
    );
}

#[test]
fn compression_succeeds_on_every_input_tried() {
    for len in [0usize, 1, 16, 1_000, 100_000] {
        assert!(compress_data(&vec![0xabu8; len]).is_ok());
        assert!(compress_data(&random_bytes(len)).is_ok());
        assert!(encrypt(&random_bytes(len), true).is_ok());
    }
}

#[test]
fn header_holds_the_length_after_compression() {
    let input = vec![b'z'; 5_000];
    let compressed = compress_data(&input).unwrap();
    let frame = encrypt(&input, true).unwrap();
    let announced = u32::from_be_bytes([frame[0], frame[1], frame[2], frame[3]]);
    assert_eq!(announced as usize, compressed.len());
    assert_eq!(frame.len(), 4 + ((compressed.len() + 15) / 16) * 16);
    assert_eq!(run(OperationType::ENCRYPT, &input, true), Ok(frame));
}
