use bincode::Options;
use bytes::BytesMut;
use foliage::message::length::{can_encode_len, encode_len, len_header_size, MAX_LEN_BYTES};
use foliage::message::BincodeFrameEncoder;

#[test]
fn test_length_encode() {
    let lengths: Vec<usize> = vec![0, 1, 10, 32, 128, 256, 3450];
    let encoded_lengths: Vec<Vec<u8>> = lengths
        .iter()
        .map(|len| {
            let mut buffer = BytesMut::new();
            encode_len(*len, &mut buffer);
            buffer.to_vec()
        })
        .collect();

    let expected_lengths: Vec<Vec<u8>> = vec![
        vec![0x00],
        vec![0x01],
        vec![0x0a],
        vec![0x20],
        vec![0x81, 0x00],
        vec![0x82, 0x00],
        vec![0x9a, 0x7a],
    ];

    for index in 0..lengths.len() {
        assert_eq!(
            encoded_lengths[index], expected_lengths[index],
            "testing encoding of length {}",
            lengths[index]
        );
    }
}

#[test]
fn test_encode() {
    let decoded_content: Vec<u8> = vec![0x01, 0x12, 0x54, 0x85];

    let expected_content = bincode::DefaultOptions::new().serialize(&decoded_content).unwrap();
    let expected_length = {
        let mut buffer = BytesMut::new();
        encode_len(expected_content.len(), &mut buffer);
        buffer.to_vec()
    };

    // Encode: the item is serialized with bincode, then framed
    let payload = bincode::DefaultOptions::new().serialize(&decoded_content).unwrap();
    let mut encoded = BytesMut::new();
    BincodeFrameEncoder::<Vec<u8>>::default().encode(&payload, &mut encoded);

    assert_eq!(encoded.len(), expected_length.len() + expected_content.len());

    let encoded_length = encoded.split_to(expected_length.len());
    assert_eq!(encoded_length[..], expected_length);

    let encoded_content = encoded.split_to(expected_content.len());
    assert_eq!(encoded_content[..], expected_content);
}

#[test]
fn encode_len_appends_after_existing_bytes() {
    let mut buffer = BytesMut::new();
    buffer.extend_from_slice(&[0xaa, 0xbb]);
    encode_len(300, &mut buffer);
    // 300 = 2 * 128 + 44
    assert_eq!(buffer.to_vec(), vec![0xaa, 0xbb, 0x82, 0x2c]);
}

#[test]
fn encode_len_of_largest_values() {
    let mut buffer = BytesMut::new();
    encode_len(127, &mut buffer);
    assert_eq!(buffer.to_vec(), vec![0x7f]);

    let mut buffer = BytesMut::new();
    encode_len(16383, &mut buffer);
    assert_eq!(buffer.to_vec(), vec![0xff, 0x7f]);

    let mut buffer = BytesMut::new();
    encode_len(16384, &mut buffer);
    assert_eq!(buffer.to_vec(), vec![0x81, 0x80, 0x00]);

    let mut buffer = BytesMut::new();
    encode_len(usize::MAX, &mut buffer);
    assert!(buffer.len() <= MAX_LEN_BYTES);
    if usize::BITS == 64 {
        assert_eq!(
            buffer.to_vec(),
            vec![0x81, 0xff, 0xff, 0xff, 0xff, 0xff, 0xff, 0xff, 0xff, 0x7f]
        );
    }
}

#[test]
fn encode_frames_one_after_another() {
    let mut encoded = BytesMut::new();
    let mut encoder = BincodeFrameEncoder::<Vec<u8>>::default();
    encoder.encode(&[1, 2, 3], &mut encoded);
    encoder.encode(&[], &mut encoded);
    encoder.encode(&[9], &mut encoded);
    assert_eq!(encoded.to_vec(), vec![3, 1, 2, 3, 0, 1, 9]);
}

#[test]
fn header_sizes() {
    assert_eq!(len_header_size(0), 1);
    assert_eq!(len_header_size(127), 1);
    assert_eq!(len_header_size(128), 2);
    assert_eq!(len_header_size(16383), 2);
    assert_eq!(len_header_size(16384), 3);
    if usize::BITS == 64 {
        assert_eq!(len_header_size(1 << 62), 9);
        assert_eq!(len_header_size(1 << 63), 10);
        assert_eq!(len_header_size(usize::MAX), 10);
    }
    for len in [0usize, 5, 300, 3450, 1 << 20] {
        let mut buffer = BytesMut::new();
        encode_len(len, &mut buffer);
        assert_eq!(buffer.len(), len_header_size(len));
    }
}

#[test]
fn encoding_fits() {
    let buffer = BytesMut::new();
    assert!(can_encode_len(usize::MAX, &buffer));
    let encoder = BincodeFrameEncoder::<Vec<u8>>::default();
    assert!(encoder.can_encode(&[1, 2, 3], &buffer));
}
