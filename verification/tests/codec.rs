use bytes::{BufMut, BytesMut};
use sensor_exporter::codec::{find_sentinel, read_window, Codec, Decoded};
use sensor_exporter::frame::{FRAME_LEN, READ_RESPONSE, SENTINEL, WINDOW_LEN};

fn buffer(bytes: &[u8]) -> BytesMut {
    BytesMut::from(bytes)
}

#[test]
fn frame_constants() {
    assert_eq!(SENTINEL, 0xff);
    assert_eq!(READ_RESPONSE, 0x86);
    assert_eq!(WINDOW_LEN, 8);
    assert_eq!(FRAME_LEN, 9);
}

#[test]
fn clean_reading() {
    let mut codec = Codec::new();
    let mut src = buffer(&[0xff, 0x86, 0x00, 0xc8, 0x00, 0x00, 0x00, 0x00, 0x79]);
    assert_eq!(codec.decode(&mut src), Decoded::Frame(200));
    assert!(src.is_empty());
}

#[test]
fn sentinel_and_seven_bytes_are_not_yet_a_frame() {
    let mut codec = Codec::new();
    let bytes = [0xff, 0x86, 0x00, 0xc8, 0x00, 0x00, 0x00, 0x79];
    let mut src = buffer(&bytes);
    assert_eq!(codec.decode(&mut src), Decoded::NeedMoreData);
    assert_eq!(&src[..], &bytes[..]);
    src.put_slice(&[0x00]);
    assert_eq!(codec.decode(&mut src), Decoded::Frame(200));
    assert!(src.is_empty());
}

#[test]
fn noisy_prefix() {
    let mut codec = Codec::new();
    let frame = [0xff, 0x86, 0x01, 0x2c, 0x00, 0x00, 0x00, 0x00, 0x79];
    let mut clean = buffer(&frame);
    let mut noisy = buffer(&[0xaa, 0xbb]);
    noisy.put_slice(&frame);
    let expected = codec.decode(&mut clean);
    assert_eq!(expected, Decoded::Frame(300));
    assert_eq!(codec.decode(&mut noisy), expected);
    assert!(noisy.is_empty());
}

#[test]
fn noisy_prefix_before_a_partial_frame_is_dropped() {
    let mut codec = Codec::new();
    let mut src = buffer(&[0xaa, 0xbb, 0xff, 0x86, 0x01, 0x2c, 0x00, 0x00, 0x00, 0x79]);
    assert_eq!(codec.decode(&mut src), Decoded::NeedMoreData);
    assert_eq!(&src[..], &[0xff, 0x86, 0x01, 0x2c, 0x00, 0x00, 0x00, 0x79][..]);
    src.put_slice(&[0x55]);
    assert_eq!(codec.decode(&mut src), Decoded::Frame(300));
    assert!(src.is_empty());
}

#[test]
fn split_across_two_deliveries() {
    let mut codec = Codec::new();
    let mut src = buffer(&[0xff, 0x86, 0x00]);
    assert_eq!(codec.decode(&mut src), Decoded::NeedMoreData);
    assert_eq!(&src[..], &[0xff, 0x86, 0x00][..]);
    src.put_slice(&[0xc8, 0x00, 0x00, 0x00, 0x00, 0x79]);
    assert_eq!(codec.decode(&mut src), Decoded::Frame(200));
    assert!(src.is_empty());
}

#[test]
fn split_short_of_a_frame_keeps_waiting() {
    let mut codec = Codec::new();
    let mut src = buffer(&[0xff, 0x86, 0x00]);
    assert_eq!(codec.decode(&mut src), Decoded::NeedMoreData);
    src.put_slice(&[0xc8, 0x00, 0x00, 0x00, 0x79]);
    assert_eq!(codec.decode(&mut src), Decoded::NeedMoreData);
    assert_eq!(&src[..], &[0xff, 0x86, 0x00, 0xc8, 0x00, 0x00, 0x00, 0x79][..]);
}

#[test]
fn one_byte_at_a_time() {
    let mut codec = Codec::new();
    let stream = [0x12, 0x34, 0xff, 0x86, 0x03, 0xe8, 0x01, 0x02, 0x03, 0x04, 0x79];
    let mut src = BytesMut::new();
    for (i, byte) in stream.iter().enumerate() {
        src.put_slice(&[*byte]);
        let decoded = codec.decode(&mut src);
        if i + 1 < stream.len() {
            assert_eq!(decoded, Decoded::NeedMoreData);
        } else {
            assert_eq!(decoded, Decoded::Frame(1000));
        }
    }
    assert!(src.is_empty());
}

#[test]
fn one_byte_at_a_time_equals_one_delivery() {
    let stream = [0x00, 0xff, 0x42, 0x01, 0x02, 0x03, 0x04, 0x05, 0x06, 0x07];
    let mut codec = Codec::new();
    let mut whole = buffer(&stream);
    let expected = codec.decode(&mut whole);
    let mut src = BytesMut::new();
    let mut last = Decoded::NeedMoreData;
    for byte in stream.iter() {
        assert_eq!(last, Decoded::NeedMoreData);
        src.put_slice(&[*byte]);
        last = codec.decode(&mut src);
    }
    assert_eq!(last, expected);
    assert_eq!(&src[..], &whole[..]);
}

#[test]
fn reading_consumes_exactly_its_frame() {
    let mut codec = Codec::new();
    let mut src = buffer(&[
        0x01, 0xff, 0x86, 0x12, 0x34, 0x0a, 0x0b, 0x0c, 0x0d, 0x0e, 0xff, 0x86, 0x00,
    ]);
    assert_eq!(codec.decode(&mut src), Decoded::Frame(0x1234));
    assert_eq!(&src[..], &[0xff, 0x86, 0x00][..]);
    assert_eq!(codec.decode(&mut src), Decoded::NeedMoreData);
    assert_eq!(&src[..], &[0xff, 0x86, 0x00][..]);
}

#[test]
fn largest_and_smallest_reading() {
    let mut codec = Codec::new();
    let mut src = buffer(&[0xff, 0x86, 0xff, 0xff, 0xff, 0xff, 0xff, 0xff, 0xff]);
    assert_eq!(codec.decode(&mut src), Decoded::Frame(65535));
    assert!(src.is_empty());
    let mut src = buffer(&[0xff, 0x86, 0x00, 0x00, 0x00, 0x00, 0x00, 0x00, 0x00]);
    assert_eq!(codec.decode(&mut src), Decoded::Frame(0));
    assert!(src.is_empty());
}

#[test]
fn high_byte_counts_two_hundred_fifty_six() {
    let mut codec = Codec::new();
    let mut src = buffer(&[0xff, 0x86, 0x01, 0x00, 0x00, 0x00, 0x00, 0x00, 0x00]);
    assert_eq!(codec.decode(&mut src), Decoded::Frame(256));
    let mut src = buffer(&[0xff, 0x86, 0x00, 0x01, 0x00, 0x00, 0x00, 0x00, 0x00]);
    assert_eq!(codec.decode(&mut src), Decoded::Frame(1));
}

#[test]
fn checksum_is_not_looked_at() {
    let mut codec = Codec::new();
    for checksum in [0x00u8, 0x79, 0xb1, 0xff] {
        let mut src = buffer(&[0xff, 0x86, 0x01, 0x90, 0x00, 0x00, 0x00, 0x00, checksum]);
        assert_eq!(codec.decode(&mut src), Decoded::Frame(400));
        assert!(src.is_empty());
    }
}

#[test]
fn unexpected_response_code_is_malformed() {
    let mut codec = Codec::new();
    let mut src = buffer(&[0xff, 0x87, 0x00, 0xc8, 0x01, 0x02, 0x03, 0x04, 0x79]);
    assert_eq!(
        codec.decode(&mut src),
        Decoded::Malformed(vec![0x87, 0x00, 0xc8, 0x01, 0x02, 0x03, 0x04, 0x79])
    );
    assert!(src.is_empty());
}

#[test]
fn decoding_goes_on_after_a_malformed_frame() {
    let mut codec = Codec::new();
    let mut src = buffer(&[
        0x07, 0xff, 0x01, 0x11, 0x22, 0x33, 0x44, 0x55, 0x66, 0x77, 0xff, 0x86, 0x02, 0x58, 0x00,
        0x00, 0x00, 0x00, 0x79, 0x5a,
    ]);
    assert_eq!(
        codec.decode(&mut src),
        Decoded::Malformed(vec![0x01, 0x11, 0x22, 0x33, 0x44, 0x55, 0x66, 0x77])
    );
    assert_eq!(src.len(), 10);
    assert_eq!(codec.decode(&mut src), Decoded::Frame(600));
    assert_eq!(&src[..], &[0x5a][..]);
    assert_eq!(codec.decode(&mut src), Decoded::NeedMoreData);
    assert_eq!(&src[..], &[0x5a][..]);
}

#[test]
fn second_sentinel_right_after_the_first_is_a_response_code() {
    let mut codec = Codec::new();
    let mut src = buffer(&[0xff, 0xff, 0x86, 0x00, 0xc8, 0x00, 0x00, 0x00, 0x79]);
    assert_eq!(
        codec.decode(&mut src),
        Decoded::Malformed(vec![0xff, 0x86, 0x00, 0xc8, 0x00, 0x00, 0x00, 0x79])
    );
    assert!(src.is_empty());
}

#[test]
fn without_a_sentinel_the_buffer_is_left_alone() {
    let mut codec = Codec::new();
    let noise = [0x01, 0x86, 0x00, 0xc8, 0x00, 0x00, 0x00, 0x00, 0x79, 0x10, 0x20];
    let mut src = buffer(&noise);
    assert_eq!(codec.decode(&mut src), Decoded::NeedMoreData);
    assert_eq!(&src[..], &noise[..]);
}

#[test]
fn empty_buffer_needs_more_data() {
    let mut codec = Codec::new();
    let mut src = BytesMut::new();
    assert_eq!(codec.decode(&mut src), Decoded::NeedMoreData);
    assert!(src.is_empty());
}

#[test]
fn lone_sentinel_is_kept() {
    let mut codec = Codec::new();
    let mut src = buffer(&[0x33, 0x44, 0xff]);
    assert_eq!(codec.decode(&mut src), Decoded::NeedMoreData);
    assert_eq!(&src[..], &[0xff][..]);
    assert_eq!(codec.decode(&mut src), Decoded::NeedMoreData);
    assert_eq!(&src[..], &[0xff][..]);
}

#[test]
fn two_frames_in_one_delivery() {
    let mut codec = Codec::new();
    let mut src = buffer(&[
        0xff, 0x86, 0x01, 0xf4, 0x00, 0x00, 0x00, 0x00, 0x79, 0xff, 0x86, 0x01, 0xf5, 0x00, 0x00,
        0x00, 0x00, 0x78,
    ]);
    assert_eq!(codec.decode(&mut src), Decoded::Frame(500));
    assert_eq!(src.len(), 9);
    assert_eq!(codec.decode(&mut src), Decoded::Frame(501));
    assert!(src.is_empty());
    assert_eq!(codec.decode(&mut src), Decoded::NeedMoreData);
}

#[test]
fn find_sentinel_gives_the_first() {
    assert_eq!(find_sentinel(&[]), None);
    assert_eq!(find_sentinel(&[0x00, 0xfe, 0x86]), None);
    assert_eq!(find_sentinel(&[0xff]), Some(0));
    assert_eq!(find_sentinel(&[0x01, 0x02, 0xff, 0x03, 0xff]), Some(2));
}

#[test]
fn read_window_reads_a_reading() {
    assert_eq!(
        read_window(vec![0x86, 0x00, 0xc8, 0x00, 0x00, 0x00, 0x00, 0x79]),
        Decoded::Frame(200)
    );
    assert_eq!(
        read_window(vec![0x86, 0x13, 0x88, 0xff, 0xff, 0xff, 0xff, 0xff]),
        Decoded::Frame(5000)
    );
}

#[test]
fn read_window_hands_back_other_bytes() {
    let window = vec![0x85, 0x00, 0xc8, 0x00, 0x00, 0x00, 0x00, 0x79];
    assert_eq!(read_window(window.clone()), Decoded::Malformed(window));
}
