use bincode::Options;
use bytes::{BufMut, BytesMut};
use foliage::message::length::{decode_len, decoded_len_in_range, encode_len};
use foliage::message::{BincodeFrameDecoder, BincodeFrameEncoder};

#[test]
fn test_length_decode() {
    let lengths: Vec<Vec<u8>> = vec![
        // Valid lengths
        vec![0x00, 0x00, 0x00, 0x00, 0x00],
        vec![0x01, 0x00, 0x00, 0x00, 0x00],
        vec![0x0a, 0x00, 0x00, 0x00, 0x00],
        vec![0x20, 0x00, 0x00, 0x00, 0x00],
        vec![0x81, 0x00, 0x00, 0x00, 0x00, 0x00],
        vec![0x82, 0x00, 0x00, 0x00, 0x00, 0x00],
        vec![0x9a, 0x7a, 0x00, 0x00, 0x00, 0x00],
        // Invalid lengths
        vec![],
        vec![0x81],
        vec![0x81, 0xff],
        vec![0x82, 0x80, 0xf1],
        vec![0xff, 0x93, 0x80, 0xa2],
    ];
    let decoded_lengths: Vec<Option<(usize, usize)>> =
        lengths.iter().map(|len| decode_len(&len[..])).collect();

    let expected_lengths: Vec<Option<(usize, usize)>> = vec![
        Some((0 + 1, 1)),
        Some((1 + 1, 1)),
        Some((10 + 1, 1)),
        Some((32 + 1, 1)),
        Some((128 + 2, 2)),
        Some((256 + 2, 2)),
        Some((3450 + 2, 2)),
        None,
        None,
        None,
        None,
        None,
    ];

    for index in 0..lengths.len() {
        assert_eq!(
            decoded_lengths[index].map(|x| x.0),
            expected_lengths[index].map(|x| x.0),
            "testing decoding length length of {:02x?}",
            lengths[index]
        );
        assert_eq!(
            decoded_lengths[index].map(|x| x.1),
            expected_lengths[index].map(|x| x.1),
            "testing decoding length of {:02x?}",
            lengths[index]
        );
    }
}

#[test]
fn test_decode() {
    let expected_content: Vec<u8> = vec![0x01, 0x12, 0x54, 0x85];
    let encoded_content = bincode::DefaultOptions::new()
        .serialize(&expected_content)
        .unwrap();

    let expected_length = encoded_content.len();
    let encoded_length = {
        let mut buffer = BytesMut::new();
        encode_len(expected_length, &mut buffer);
        buffer.to_vec()
    };

    let mut encoded = BytesMut::new();
    encoded.put_slice(&encoded_length);
    encoded.put_slice(&encoded_content);

    // Decode: the frame is cut off, then its bytes are deserialized with bincode
    let frame = BincodeFrameDecoder::<Vec<u8>>::default()
        .decode(&mut encoded)
        .unwrap();
    let decoded_content: Vec<u8> = bincode::DefaultOptions::new().deserialize(&frame).unwrap();

    assert_eq!(decoded_content[..], expected_content[..]);
}

#[test]
fn test_decode_with_missing_length_bytes() {
    let expected_length = 3456;
    let encoded_length = {
        let mut buffer = BytesMut::new();
        encode_len(expected_length, &mut buffer);
        buffer.to_vec()
    };

    let mut encoded = BytesMut::new();
    encoded.put_slice(&encoded_length[..(encoded_length.len() - 1)]); // Don't add last byte

    // Try Decode
    let x: Option<Vec<u8>> = BincodeFrameDecoder::<Vec<u8>>::default().decode(&mut encoded);

    assert_eq!(x, None, "testing decoding with missing length bytes");
}

#[test]
fn test_decode_with_missing_length_data() {
    let expected_content: Vec<u8> = vec![0x01, 0x12, 0x54, 0x85];
    let encoded_content = bincode::DefaultOptions::new()
        .serialize(&expected_content)
        .unwrap();

    let expected_length = encoded_content.len();
    let encoded_length = {
        let mut buffer = BytesMut::new();
        encode_len(expected_length, &mut buffer);
        buffer.to_vec()
    };

    let mut encoded = BytesMut::new();
    encoded.put_slice(&encoded_length);
    encoded.put_slice(&encoded_content[..(encoded_content.len() - 2)]); // Don't add last 2 bytes

    // Try Decode
    let x: Option<Vec<u8>> = BincodeFrameDecoder::<Vec<u8>>::default().decode(&mut encoded);

    assert_eq!(x, None, "testing decoding with missing content bytes");
}

#[test]
fn test_decode_with_invalid_data() {
    let expected_content: Vec<u8> = vec![0x01, 0x12, 0x54, 0x85];
    let mut encoded_content = bincode::DefaultOptions::new()
        .serialize(&expected_content)
        .unwrap();

    // Mess data up
    encoded_content[0] += 0x03;

    let expected_length = encoded_content.len();
    let encoded_length = {
        let mut buffer = BytesMut::new();
        encode_len(expected_length, &mut buffer);
        buffer.to_vec()
    };

    let mut encoded = BytesMut::new();
    encoded.put_slice(&encoded_length);
    encoded.put_slice(&encoded_content);

    // Try Decode: the frame is complete, its bytes are no bincode Vec<u8>
    let frame = BincodeFrameDecoder::<Vec<u8>>::default().decode(&mut encoded).unwrap();
    let x: Result<Vec<u8>, bincode::Error> = bincode::DefaultOptions::new().deserialize(&frame);

    assert!(x.is_err(), "testing decoding with invalid data");
}

#[test]
fn decode_leaves_the_next_frame() {
    let mut buffer = BytesMut::new();
    let mut encoder = BincodeFrameEncoder::<Vec<u8>>::default();
    encoder.encode(&[7, 8], &mut buffer);
    encoder.encode(&[5], &mut buffer);
    buffer.put_slice(&[0x81]); // start of a third header

    let mut decoder = BincodeFrameDecoder::<Vec<u8>>::default();
    assert!(decoder.can_decode(&buffer));
    assert_eq!(decoder.decode(&mut buffer), Some(vec![7, 8]));
    assert_eq!(buffer.to_vec(), vec![1, 5, 0x81]);
    assert_eq!(decoder.decode(&mut buffer), Some(vec![5]));
    assert_eq!(buffer.to_vec(), vec![0x81]);
    assert_eq!(decoder.decode(&mut buffer), None);
    assert_eq!(buffer.to_vec(), vec![0x81]);
}

#[test]
fn decode_keeps_an_incomplete_frame() {
    let mut buffer = BytesMut::new();
    buffer.put_slice(&[0x03, 0xaa, 0xbb]);
    let mut decoder = BincodeFrameDecoder::<Vec<u8>>::default();
    assert_eq!(decoder.decode(&mut buffer), None);
    assert_eq!(buffer.to_vec(), vec![0x03, 0xaa, 0xbb]);
    buffer.put_slice(&[0xcc, 0xdd]);
    assert_eq!(decoder.decode(&mut buffer), Some(vec![0xaa, 0xbb, 0xcc]));
    assert_eq!(buffer.to_vec(), vec![0xdd]);
}

#[test]
fn decode_len_reads_an_empty_body() {
    assert_eq!(decode_len(&[0x00]), Some((1, 1)));
    assert_eq!(decode_len(&[0x80, 0x00]), Some((2, 2)));
}

#[test]
fn decode_len_reports_an_overflowing_header() {
    // Ten bytes of 0x7f digits: the value wraps in usize arithmetic
    let all_ones = [0xff; 9];
    let mut header = all_ones.to_vec();
    header.push(0x7f);
    assert!(!decoded_len_in_range(&header));
    assert!(decoded_len_in_range(&[0x9a, 0x7a]));
    assert!(decoded_len_in_range(&[0x81]));
    let mut buffer = BytesMut::new();
    buffer.put_slice(&header);
    assert!(!BincodeFrameDecoder::<Vec<u8>>::default().can_decode(&buffer));
}

#[test]
fn decode_consumes_a_frame_of_invalid_data() {
    let expected_content: Vec<u8> = vec![0x01, 0x12, 0x54, 0x85];
    let mut encoded_content = bincode::DefaultOptions::new()
        .serialize(&expected_content)
        .unwrap();
    encoded_content[0] += 0x03;

    let mut encoded = BytesMut::new();
    encode_len(encoded_content.len(), &mut encoded);
    encoded.put_slice(&encoded_content);

    let frame = BincodeFrameDecoder::<Vec<u8>>::default().decode(&mut encoded).unwrap();
    assert_eq!(frame, encoded_content);
    // The frame is taken off the buffer though its bytes are no Vec<u8>
    assert!(encoded.is_empty());
}
