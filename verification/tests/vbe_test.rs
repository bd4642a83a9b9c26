use mapsforge_rs::reader::Reader;
use mapsforge_rs::utils::{
    encode_vbe_s, encode_vbe_u, read_vbe_s_int, read_vbe_u, read_vbe_u_int,
};
use mapsforge_rs::MapforgeError;

#[test]
fn test_encode_vbe_u_seeds() {
    assert_eq!(encode_vbe_u(0), vec![0x00]);
    assert_eq!(encode_vbe_u(5), vec![0x05]);
    assert_eq!(encode_vbe_u(130), vec![0x82, 0x01]);
}

#[test]
fn test_encode_vbe_s_seeds() {
    assert_eq!(encode_vbe_s(-5), vec![0x45]);
    assert_eq!(encode_vbe_s(-66), vec![0xc2, 0x40]);
    assert_eq!(encode_vbe_s(-129), vec![0x81, 0x41]);
}

#[test]
fn test_vbe_u_round_trip_values() {
    let values: [u64; 8] = [
        0,
        5,
        127,
        128,
        130,
        0xffff_ffff,
        0x1_0000_0000,
        u64::MAX,
    ];
    for v in values {
        let mut reader = Reader::new(encode_vbe_u(v));
        assert_eq!(read_vbe_u_int(&mut reader).unwrap(), v);
    }
}

#[test]
fn test_vbe_s_round_trip_values() {
    let values: [i64; 10] = [
        0,
        5,
        -5,
        63,
        -64,
        -66,
        -129,
        2_147_483_647,
        -2_147_483_647,
        i64::MIN + 1,
    ];
    for v in values {
        let mut reader = Reader::new(encode_vbe_s(v));
        assert_eq!(read_vbe_s_int(&mut reader).unwrap(), v);
    }
}

#[test]
fn test_vbe_u_max_and_overflow() {
    // nine full continuation groups and a final 1 bit: exactly u64::MAX
    let mut data = vec![0xff; 9];
    data.push(0x01);
    let mut reader = Reader::new(data);
    assert_eq!(read_vbe_u_int(&mut reader).unwrap(), u64::MAX);

    // one past the top: rejected, not wrapped
    let mut data = vec![0xff; 9];
    data.push(0x02);
    let mut reader = Reader::new(data);
    assert!(matches!(
        read_vbe_u_int(&mut reader),
        Err(MapforgeError::NumericOverflow)
    ));

    // an eleventh byte can never be reached
    let mut data = vec![0xff; 10];
    data.push(0x01);
    let mut reader = Reader::new(data);
    assert!(matches!(
        read_vbe_u_int(&mut reader),
        Err(MapforgeError::NumericOverflow)
    ));
}

#[test]
fn test_vbe_truncated_input() {
    // a continuation bit with nothing after it
    let data = vec![0x80];
    let mut reader = Reader::new(data);
    assert!(matches!(
        read_vbe_u_int(&mut reader),
        Err(MapforgeError::UnexpectedEof)
    ));

    let data = vec![0x80];
    let mut reader = Reader::new(data);
    assert!(matches!(
        read_vbe_s_int(&mut reader),
        Err(MapforgeError::UnexpectedEof)
    ));
}

#[test]
fn test_vbe_string_malformed_utf8() {
    // two bytes announced, but they are not valid UTF-8
    let data = vec![0x02, 0xff, 0xfe];
    let mut reader = Reader::new(data);
    assert!(matches!(
        read_vbe_u(&mut reader),
        Err(MapforgeError::MalformedString)
    ));
}

#[test]
fn test_vbe_string_truncated() {
    // five bytes announced, two present
    let data = vec![0x05, 0x48, 0x65];
    let mut reader = Reader::new(data);
    assert!(matches!(
        read_vbe_u(&mut reader),
        Err(MapforgeError::UnexpectedEof)
    ));
}
