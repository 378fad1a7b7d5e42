use xiv_packet_tools::bytes::{push_u16, push_u32, read_u16, read_u32, read_u64};

#[test]
fn reads_little_endian_values() {
    let data = [0x34, 0x12, 0x78, 0x56, 0xbc, 0x9a, 0xf0, 0xde, 0xff];
    assert_eq!(read_u16(&data, 0), 0x1234);
    assert_eq!(read_u16(&data, 7), 0xffde);
    assert_eq!(read_u32(&data, 0), 0x5678_1234);
    assert_eq!(read_u32(&data, 4), 0xdef0_9abc);
    assert_eq!(read_u64(&data, 0), 0xdef0_9abc_5678_1234);
}

#[test]
fn reads_extreme_values() {
    assert_eq!(read_u16(&[0xff, 0xff], 0), u16::MAX);
    assert_eq!(read_u32(&[0xff; 4], 0), u32::MAX);
    assert_eq!(read_u64(&[0xff; 8], 0), u64::MAX);
    assert_eq!(read_u64(&[0; 8], 0), 0);
}

#[test]
fn pushes_little_endian_bytes() {
    let mut out = vec![0xaa];
    push_u16(&mut out, 0x0142);
    push_u32(&mut out, 0x0102_0304);
    assert_eq!(out, vec![0xaa, 0x42, 0x01, 0x04, 0x03, 0x02, 0x01]);
}

#[test]
fn push_agrees_with_std() {
    for x in [0u32, 1, 0xff, 0x100, 0xffff, 0x1_0000, 0xdead_beef, u32::MAX] {
        let mut out = Vec::new();
        push_u32(&mut out, x);
        assert_eq!(out, x.to_le_bytes().to_vec());
        assert_eq!(read_u32(&out, 0), x);
    }
    for x in [0u16, 1, 0xff, 0x100, 0xabcd, u16::MAX] {
        let mut out = Vec::new();
        push_u16(&mut out, x);
        assert_eq!(out, x.to_le_bytes().to_vec());
        assert_eq!(read_u16(&out, 0), x);
    }
}
