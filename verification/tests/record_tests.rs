use xiv_packet_tools::record::{
    next_record, read_varint, read_varint_from, split_records, Direction, Protocol, RecordError,
};

fn framed(body: &[u8]) -> Vec<u8> {
    let mut out = Vec::new();
    prost::encode_length_delimiter(body.len(), &mut out).unwrap();
    out.extend_from_slice(body);
    out
}

#[test]
fn one_record_with_a_one_byte_prefix() {
    let data = [3, 0xa, 0xb, 0xc];
    assert_eq!(next_record(&data, 0), Ok((1, 4)));
    assert_eq!(split_records(&data), Ok(vec![vec![0xa, 0xb, 0xc]]));
}

#[test]
fn empty_stream_has_no_records() {
    assert_eq!(split_records(&[]), Ok(vec![]));
    assert_eq!(next_record(&[], 0), Err(RecordError::BadLength { offset: 0 }));
}

#[test]
fn empty_record_is_a_record() {
    assert_eq!(split_records(&[0]), Ok(vec![vec![]]));
    assert_eq!(split_records(&[0, 0, 1, 9]), Ok(vec![vec![], vec![], vec![9]]));
}

#[test]
fn two_byte_prefix() {
    let body = vec![0x5a; 300];
    let data = framed(&body);
    assert_eq!(&data[..2], &[0xac, 0x02]);
    assert_eq!(next_record(&data, 0), Ok((2, 302)));
    assert_eq!(split_records(&data), Ok(vec![body]));
}

#[test]
fn records_come_in_stream_order() {
    let bodies = vec![vec![1u8; 5], vec![], vec![2u8; 200], vec![3u8; 1]];
    let mut data = Vec::new();
    for body in &bodies {
        data.extend(framed(body));
    }
    assert_eq!(split_records(&data), Ok(bodies));
}

#[test]
fn records_can_be_walked_one_by_one() {
    let mut data = framed(&[7; 130]);
    data.extend(framed(&[8; 2]));
    let (start, end) = next_record(&data, 0).unwrap();
    assert_eq!((start, end), (2, 132));
    assert_eq!(&data[start..end], &[7; 130][..]);
    let (start, end) = next_record(&data, end).unwrap();
    assert_eq!((start, end), (133, 135));
    assert_eq!(end, data.len());
    assert_eq!(next_record(&data, end), Err(RecordError::BadLength { offset: 135 }));
}

#[test]
fn overlong_prefix_is_read_as_its_value() {
    let data = [0x82, 0x80, 0x00, 0xee, 0xff];
    assert_eq!(next_record(&data, 0), Ok((3, 5)));
}

#[test]
fn body_shorter_than_declared_is_truncated() {
    assert_eq!(next_record(&[4, 1, 2, 3], 0), Err(RecordError::Truncated { offset: 0 }));
    assert_eq!(split_records(&[1, 9, 4, 1, 2, 3]), Err(RecordError::Truncated { offset: 2 }));
}

#[test]
fn unfinished_prefix_is_a_bad_length() {
    assert_eq!(next_record(&[0x80], 0), Err(RecordError::BadLength { offset: 0 }));
    assert_eq!(next_record(&[0xff, 0xff, 0xff], 0), Err(RecordError::BadLength { offset: 0 }));
    assert_eq!(split_records(&[1, 9, 0x80]), Err(RecordError::BadLength { offset: 2 }));
}

#[test]
fn prefix_of_more_than_ten_bytes_is_a_bad_length() {
    let mut data = vec![0x80; 10];
    data.push(0x00);
    data.extend_from_slice(&[0; 16]);
    assert_eq!(next_record(&data, 0), Err(RecordError::BadLength { offset: 0 }));
}

#[test]
fn tenth_byte_above_one_is_a_bad_length() {
    let mut data = vec![0x80; 9];
    data.push(0x02);
    data.extend_from_slice(&[0; 16]);
    assert_eq!(next_record(&data, 0), Err(RecordError::BadLength { offset: 0 }));
    let mut short = vec![0xff; 9];
    short.push(0x7f);
    assert_eq!(next_record(&short, 0), Err(RecordError::BadLength { offset: 0 }));
}

#[test]
fn ten_byte_prefix_of_a_small_value() {
    let mut data = vec![0x85];
    data.extend_from_slice(&[0x80; 8]);
    data.push(0x00);
    data.extend_from_slice(&[1, 2, 3, 4, 5]);
    assert_eq!(next_record(&data, 0), Ok((10, 15)));
}

#[test]
fn largest_prefix_is_truncation() {
    let mut data = vec![0xff; 9];
    data.push(0x01);
    data.extend_from_slice(&[0; 4]);
    assert_eq!(next_record(&data, 0), Err(RecordError::Truncated { offset: 0 }));
}

#[test]
fn offset_past_the_end_is_a_bad_length() {
    assert_eq!(next_record(&[1, 2], 2), Err(RecordError::BadLength { offset: 2 }));
    assert_eq!(next_record(&[1, 2], 50), Err(RecordError::BadLength { offset: 50 }));
}

#[test]
fn protocol_directories() {
    assert_eq!(Protocol::Unset.directory(), "none");
    assert_eq!(Protocol::Zone.directory(), "zone");
    assert_eq!(Protocol::Chat.directory(), "chat");
    assert_eq!(Protocol::Lobby.directory(), "lobby");
}

#[test]
fn direction_targets() {
    assert_eq!(Direction::Unset.target_name(), "none");
    assert_eq!(Direction::Rx.target_name(), "client");
    assert_eq!(Direction::Tx.target_name(), "server");
}

fn by_prost(data: &[u8]) -> Option<(u64, usize)> {
    let mut buf = data;
    prost::encoding::decode_varint(&mut buf).ok().map(|value| (value, data.len() - buf.len()))
}

#[test]
fn length_prefix_values() {
    assert_eq!(read_varint(&[0]), Some((0, 1)));
    assert_eq!(read_varint(&[0x7f, 0xff]), Some((127, 1)));
    assert_eq!(read_varint(&[0x80, 0x01]), Some((128, 2)));
    assert_eq!(read_varint(&[0xac, 0x02, 0x99]), Some((300, 2)));
    assert_eq!(read_varint(&[0xff, 0xff, 0xff, 0xff, 0x0f]), Some((u32::MAX as u64, 5)));
    let mut largest = vec![0xff; 9];
    largest.push(0x01);
    assert_eq!(read_varint(&largest), Some((u64::MAX, 10)));
    assert_eq!(read_varint(&[]), None);
    assert_eq!(read_varint(&[0x80]), None);
    assert_eq!(read_varint_from(&[0xee, 0x05], 1), Some((5, 1)));
    assert_eq!(read_varint_from(&[0xee, 0x05], 2), None);
}

#[test]
fn length_prefix_agrees_with_prost() {
    let bytes = [0x00u8, 0x01, 0x02, 0x7f, 0x80, 0x81, 0xfe, 0xff];
    for len in 0..=4usize {
        let mut digits = vec![0usize; len];
        loop {
            let data: Vec<u8> = digits.iter().map(|&d| bytes[d]).collect();
            assert_eq!(read_varint(&data), by_prost(&data), "{:?}", data);
            let mut at = 0;
            while at < len && digits[at] == bytes.len() - 1 {
                digits[at] = 0;
                at += 1;
            }
            if at == len {
                break;
            }
            digits[at] += 1;
        }
    }
    for lead in [8usize, 9, 10, 11, 12] {
        for last in bytes {
            for fill in [0x80u8, 0xff] {
                let mut data = vec![fill; lead];
                data.push(last);
                data.extend_from_slice(&[0x01, 0x00]);
                assert_eq!(read_varint(&data), by_prost(&data), "{:?}", data);
                data.truncate(lead + 1);
                assert_eq!(read_varint(&data), by_prost(&data), "{:?}", data);
            }
        }
    }
}
