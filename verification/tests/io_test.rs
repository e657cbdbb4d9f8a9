use byteorder::LittleEndian;
use byteorder::WriteBytesExt;
use std::io::Write;
use unterflow_protocol::error::EnumKind;
use unterflow_protocol::error::Error;
use unterflow_protocol::error::SbeError;
use unterflow_protocol::io::Data;
use unterflow_protocol::io::FromBytes;
use unterflow_protocol::io::HasBlockLength;
use unterflow_protocol::io::HasData;
use unterflow_protocol::io::HasMessageLength;
use unterflow_protocol::io::ToBytes;
use unterflow_protocol::sbe::ControlMessageResponse;
use unterflow_protocol::sbe::ControlMessageType;
use unterflow_protocol::sbe::ErrorCode;
use unterflow_protocol::sbe::EventType;
use unterflow_protocol::sbe::SubscriptionType;

#[test]
fn from_bytes_u8() {
    let mut buffer: &[u8] = &[1];
    assert_eq!(1u8, FromBytes::from_bytes(&mut buffer).unwrap());

    let mut empty: &[u8] = &[];
    assert!(u8::from_bytes(&mut empty).is_err());
}

#[test]
fn to_bytes_u8() {
    let mut buffer = vec![];
    1u8.to_bytes(&mut buffer).unwrap();
    assert_eq!(vec![1], buffer);
}

#[test]
fn from_bytes_i8() {
    let mut buffer: &[u8] = &[1];
    assert_eq!(1i8, FromBytes::from_bytes(&mut buffer).unwrap());

    let mut empty: &[u8] = &[];
    assert!(i8::from_bytes(&mut empty).is_err());
}

#[test]
fn to_bytes_i8() {
    let mut buffer = vec![];
    1i8.to_bytes(&mut buffer).unwrap();
    assert_eq!(vec![1], buffer);
}

#[test]
fn from_bytes_u16() {
    let mut buffer: &[u8] = &[0, 1];
    assert_eq!(256u16, FromBytes::from_bytes(&mut buffer).unwrap());

    let mut empty: &[u8] = &[];
    assert!(u16::from_bytes(&mut empty).is_err());
}

#[test]
fn to_bytes_u16() {
    let mut buffer = vec![];
    256u16.to_bytes(&mut buffer).unwrap();
    assert_eq!(vec![0, 1], buffer);
}

#[test]
fn from_bytes_i16() {
    let mut buffer: &[u8] = &[0, 1];
    assert_eq!(256i16, FromBytes::from_bytes(&mut buffer).unwrap());

    let mut empty: &[u8] = &[];
    assert!(i16::from_bytes(&mut empty).is_err());
}

#[test]
fn to_bytes_i16() {
    let mut buffer = vec![];
    256i16.to_bytes(&mut buffer).unwrap();
    assert_eq!(vec![0, 1], buffer);
}

#[test]
fn from_bytes_u32() {
    let mut buffer: &[u8] = &[0, 0, 1, 0];
    assert_eq!(65536u32, FromBytes::from_bytes(&mut buffer).unwrap());

    let mut empty: &[u8] = &[];
    assert!(u32::from_bytes(&mut empty).is_err());
}

#[test]
fn to_bytes_u32() {
    let mut buffer = vec![];
    65536u32.to_bytes(&mut buffer).unwrap();
    assert_eq!(vec![0, 0, 1, 0], buffer);
}

#[test]
fn from_bytes_i32() {
    let mut buffer: &[u8] = &[0, 0, 1, 0];
    assert_eq!(65536i32, FromBytes::from_bytes(&mut buffer).unwrap());

    let mut empty: &[u8] = &[];
    assert!(i32::from_bytes(&mut empty).is_err());
}

#[test]
fn to_bytes_i32() {
    let mut buffer = vec![];
    65536i32.to_bytes(&mut buffer).unwrap();
    assert_eq!(vec![0, 0, 1, 0], buffer);
}

#[test]
fn from_bytes_u64() {
    let mut buffer: &[u8] = &[0, 0, 0, 1, 0, 0, 0, 0];
    assert_eq!(16777216u64, FromBytes::from_bytes(&mut buffer).unwrap());

    let mut empty: &[u8] = &[];
    assert!(u64::from_bytes(&mut empty).is_err());
}

#[test]
fn to_bytes_u64() {
    let mut buffer = vec![];
    16777216u64.to_bytes(&mut buffer).unwrap();
    assert_eq!(vec![0, 0, 0, 1, 0, 0, 0, 0], buffer);
}

#[test]
fn from_bytes_i64() {
    let mut buffer: &[u8] = &[0, 0, 0, 1, 0, 0, 0, 0];
    assert_eq!(16777216i64, FromBytes::from_bytes(&mut buffer).unwrap());

    let mut empty: &[u8] = &[];
    assert!(i64::from_bytes(&mut empty).is_err());
}

#[test]
fn to_bytes_i64() {
    let mut buffer = vec![];
    16777216i64.to_bytes(&mut buffer).unwrap();
    assert_eq!(vec![0, 0, 0, 1, 0, 0, 0, 0], buffer);
}

#[test]
fn from_bytes_string() {
    let expected = "foobar".to_string();

    let mut buffer = vec![];
    buffer.write_u16::<LittleEndian>(6).unwrap();
    buffer.write_all(expected.as_bytes()).unwrap();

    assert_eq!(expected, String::from_bytes(&mut &buffer[..]).unwrap());
}

#[test]
fn to_bytes_string() {
    let s = "foobar".to_string();

    let mut buffer = vec![];
    s.to_bytes(&mut buffer).unwrap();

    assert_eq!(vec![6, 0, 102, 111, 111, 98, 97, 114], buffer);
}

#[test]
fn from_bytes_data() {
    let expected = Data::from(vec![1, 2, 3, 4]);

    let mut buffer = vec![];
    buffer.write_u16::<LittleEndian>(4).unwrap();
    buffer.write_all(expected.as_slice()).unwrap();

    assert_eq!(expected, Data::from_bytes(&mut &buffer[..]).unwrap());
}

#[test]
fn to_bytes_data() {
    let data = Data::from(vec![1, 2, 3, 4]);
    let mut buffer = vec![];

    data.to_bytes(&mut buffer).unwrap();

    assert_eq!(vec![4, 0, 1, 2, 3, 4], buffer);
}

#[test]
fn from_bytes_collection() {
    let expected = vec![1u32, 2u32, 3u32, 4u32];

    let mut buffer = vec![];
    buffer
        .write_u16::<LittleEndian>(u32::block_length())
        .unwrap();
    buffer.write_u8(expected.len() as u8).unwrap();
    buffer.write_u32::<LittleEndian>(1).unwrap();
    buffer.write_u32::<LittleEndian>(2).unwrap();
    buffer.write_u32::<LittleEndian>(3).unwrap();
    buffer.write_u32::<LittleEndian>(4).unwrap();

    assert_eq!(expected, Vec::<u32>::from_bytes(&mut &buffer[..]).unwrap());
}

#[test]
fn to_bytes_collection() {
    let c = vec![1u16, 2u16, 3u16, 4u16];

    let mut buffer = vec![];
    c.to_bytes(&mut buffer).unwrap();

    assert_eq!(vec![2, 0, 4, 1, 0, 2, 0, 3, 0, 4, 0], buffer);
}

#[test]
fn io_has_block_length() {
    assert_eq!(1, u8::block_length());
    assert_eq!(1, i8::block_length());
    assert_eq!(2, u16::block_length());
    assert_eq!(2, i16::block_length());
    assert_eq!(4, u32::block_length());
    assert_eq!(4, i32::block_length());
    assert_eq!(8, u64::block_length());
    assert_eq!(8, i64::block_length());

    assert_eq!(1, SubscriptionType::block_length());
    assert_eq!(1, EventType::block_length());
    assert_eq!(1, ControlMessageType::block_length());
    assert_eq!(1, ErrorCode::block_length());
}

#[test]
fn from_bytes_enum() {
    let mut buffer: &[u8] = &[1, 9, 4, 6];

    assert_eq!(
        SubscriptionType::TopicSubscription,
        FromBytes::from_bytes(&mut buffer).unwrap()
    );
    assert_eq!(EventType::TopicEvent, FromBytes::from_bytes(&mut buffer).unwrap());
    assert_eq!(
        ControlMessageType::RequestTopology,
        FromBytes::from_bytes(&mut buffer).unwrap()
    );
    assert_eq!(ErrorCode::InvalidMessage, FromBytes::from_bytes(&mut buffer).unwrap());
    assert!(buffer.is_empty());
}

#[test]
fn from_bytes_enum_error() {
    let mut buffer: &[u8] = &[2, 11, 5, 7];

    assert!(SubscriptionType::from_bytes(&mut buffer).is_err());
    assert_eq!(4, buffer.len());
    assert_eq!(
        Error::UnknownEnum(EnumKind::SubscriptionType, 2),
        SubscriptionType::from_bytes(&mut buffer).unwrap_err()
    );
    buffer = &buffer[1..];
    assert_eq!(
        Error::UnknownEnum(EnumKind::EventType, 11),
        EventType::from_bytes(&mut buffer).unwrap_err()
    );
    buffer = &buffer[1..];
    assert_eq!(
        Error::UnknownEnum(EnumKind::ControlMessageType, 5),
        ControlMessageType::from_bytes(&mut buffer).unwrap_err()
    );
    buffer = &buffer[1..];
    assert_eq!(
        Error::UnknownEnum(EnumKind::ErrorCode, 7),
        ErrorCode::from_bytes(&mut buffer).unwrap_err()
    );
}

#[test]
fn to_bytes_enum() {
    let mut buffer = vec![];
    SubscriptionType::TopicSubscription.to_bytes(&mut buffer).unwrap();
    EventType::PartitionEvent.to_bytes(&mut buffer).unwrap();
    ControlMessageType::RemoveTopicSubscription.to_bytes(&mut buffer).unwrap();
    ErrorCode::TopicNotFound.to_bytes(&mut buffer).unwrap();
    assert_eq!(vec![1, 10, 3, 1], buffer);
}

#[test]
fn has_data() {
    let data = Data::from(vec![1, 2, 3]);
    assert_eq!(&Data::from(vec![1, 2, 3]), data.data());
}

#[test]
fn integers_are_little_endian_and_signed_ones_twos_complement() {
    let mut buffer = vec![];
    0x0102u16.to_bytes(&mut buffer).unwrap();
    (-2i16).to_bytes(&mut buffer).unwrap();
    0x01020304u32.to_bytes(&mut buffer).unwrap();
    (-1i32).to_bytes(&mut buffer).unwrap();
    0x0102030405060708u64.to_bytes(&mut buffer).unwrap();
    i64::MIN.to_bytes(&mut buffer).unwrap();
    (-128i8).to_bytes(&mut buffer).unwrap();
    assert_eq!(
        vec![
            2, 1, 254, 255, 4, 3, 2, 1, 255, 255, 255, 255, 8, 7, 6, 5, 4, 3, 2, 1, 0, 0, 0, 0,
            0, 0, 0, 128, 128
        ],
        buffer
    );

    let mut reader: &[u8] = &buffer;
    assert_eq!(0x0102u16, u16::from_bytes(&mut reader).unwrap());
    assert_eq!(-2i16, i16::from_bytes(&mut reader).unwrap());
    assert_eq!(0x01020304u32, u32::from_bytes(&mut reader).unwrap());
    assert_eq!(-1i32, i32::from_bytes(&mut reader).unwrap());
    assert_eq!(0x0102030405060708u64, u64::from_bytes(&mut reader).unwrap());
    assert_eq!(i64::MIN, i64::from_bytes(&mut reader).unwrap());
    assert_eq!(-128i8, i8::from_bytes(&mut reader).unwrap());
    assert!(reader.is_empty());
}

#[test]
fn failed_read_leaves_the_reader_where_it_was() {
    let buffer = [1u8, 2, 3];
    let mut reader: &[u8] = &buffer;
    assert_eq!(
        Error::SbeError(SbeError::NotEnoughBytes),
        u32::from_bytes(&mut reader).unwrap_err()
    );
    assert_eq!(3, reader.len());
    // a string whose length prefix promises more than there is
    let short = [5u8, 0, b'a', b'b'];
    let mut reader: &[u8] = &short;
    assert_eq!(
        Error::SbeError(SbeError::NotEnoughBytes),
        String::from_bytes(&mut reader).unwrap_err()
    );
    assert_eq!(4, reader.len());
    assert_eq!(
        Error::SbeError(SbeError::NotEnoughBytes),
        Data::from_bytes(&mut reader).unwrap_err()
    );
    assert_eq!(4, reader.len());
}

#[test]
fn string_must_be_utf8() {
    let bytes = [2u8, 0, 0xc3, 0x28];
    let mut reader: &[u8] = &bytes;
    assert_eq!(Error::InvalidUtf8, String::from_bytes(&mut reader).unwrap_err());
    assert_eq!(4, reader.len());

    let bytes = [2u8, 0, 0xc3, 0xa9, 7];
    let mut reader: &[u8] = &bytes;
    assert_eq!("\u{e9}", String::from_bytes(&mut reader).unwrap());
    assert_eq!(&[7u8][..], reader);
}

#[test]
fn slices_longer_than_the_schema_allows_are_refused() {
    let mut buffer = vec![9u8];
    let data = Data::from(vec![0u8; 65535]);
    assert_eq!(
        Error::SbeError(SbeError::SliceIsLongerThanAllowedBySchema),
        data.to_bytes(&mut buffer).unwrap_err()
    );
    assert_eq!(vec![9u8], buffer);

    let longest = Data::from(vec![7u8; 65534]);
    longest.to_bytes(&mut buffer).unwrap();
    assert_eq!(1 + 2 + 65534, buffer.len());
    assert_eq!(&[9u8, 0xfe, 0xff, 7][..], &buffer[..4]);

    let text = "x".repeat(65535);
    let mut buffer = vec![];
    assert_eq!(
        Error::SbeError(SbeError::SliceIsLongerThanAllowedBySchema),
        text.to_bytes(&mut buffer).unwrap_err()
    );
    assert!(buffer.is_empty());
}

#[test]
fn repeated_field_round_trips_for_every_length() {
    for n in [0usize, 1, 2, 17, 254, 255] {
        let list: Vec<u32> = (0..n as u32).map(|i| i * 16_777_259).collect();
        let mut buffer = vec![];
        list.to_bytes(&mut buffer).unwrap();
        assert_eq!(3 + 4 * n, buffer.len());
        assert_eq!(&[4u8, 0, n as u8][..], &buffer[..3]);
        buffer.push(0xaa);
        let mut reader: &[u8] = &buffer;
        assert_eq!(list, Vec::<u32>::from_bytes(&mut reader).unwrap());
        assert_eq!(&[0xaau8][..], reader);
    }
}

#[test]
fn repeated_field_of_more_than_255_items_is_refused() {
    let list = vec![0u8; 256];
    let mut buffer = vec![1u8, 2];
    assert_eq!(
        Error::SbeError(SbeError::SliceIsLongerThanAllowedBySchema),
        list.to_bytes(&mut buffer).unwrap_err()
    );
    assert_eq!(vec![1u8, 2], buffer);
}

#[test]
fn repeated_field_with_longer_blocks_is_read_by_its_known_prefix() {
    // blocks of 6 bytes, of which a u32 knows the first 4
    let buffer = [6u8, 0, 2, 1, 0, 0, 0, 9, 9, 2, 0, 0, 0, 8, 8, 5];
    let mut reader: &[u8] = &buffer;
    assert_eq!(vec![1u32, 2u32], Vec::<u32>::from_bytes(&mut reader).unwrap());
    assert_eq!(&[5u8][..], reader);

    // blocks of 2 bytes are too short for a u32
    let buffer = [2u8, 0, 1, 1, 0];
    let mut reader: &[u8] = &buffer;
    assert_eq!(
        Error::SbeError(SbeError::NotEnoughBytes),
        Vec::<u32>::from_bytes(&mut reader).unwrap_err()
    );
    assert_eq!(5, reader.len());

    // the last block is cut short
    let buffer = [4u8, 0, 2, 1, 0, 0, 0, 2, 0];
    let mut reader: &[u8] = &buffer;
    assert!(Vec::<u32>::from_bytes(&mut reader).is_err());
    assert_eq!(9, reader.len());
}

#[test]
fn repeated_field_of_items_of_another_length_is_refused() {
    // a message with variable-length data takes more than its block
    let list = vec![ControlMessageResponse {
        data: Data::from(vec![1, 2]),
    }];
    let mut buffer = vec![];
    assert_eq!(
        Error::SbeError(SbeError::SliceIsLongerThanAllowedBySchema),
        list.to_bytes(&mut buffer).unwrap_err()
    );
    assert!(buffer.is_empty());
}

#[test]
fn message_length_counts_the_bytes_on_the_wire() {
    assert_eq!(1, 7u8.message_length());
    assert_eq!(8, 7i64.message_length());
    assert_eq!(6, Data::from(vec![1, 2, 3, 4]).message_length());
    assert_eq!(8, "foobar".to_string().message_length());
}
