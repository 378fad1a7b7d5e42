use std::io::{Cursor, Error, Write};
use xiv_packet_tools::container::{CaptureContainer, CaptureEntry, ContainerError, EntryFault};
use zip::write::SimpleFileOptions;
use zip::{CompressionMethod, ZipWriter};

fn archive(entries: &[(&str, &[u8])], method: CompressionMethod) -> Vec<u8> {
    let mut writer = ZipWriter::new(Cursor::new(Vec::new()));
    for (name, bytes) in entries {
        let options = SimpleFileOptions::default().compression_method(method);
        writer.start_file(*name, options).unwrap();
        writer.write_all(bytes).unwrap();
    }
    writer.finish().unwrap().into_inner()
}

#[test]
fn entry_names() {
    assert_eq!(CaptureEntry::VersionInfo.name(), "VersionInfo");
    assert_eq!(CaptureEntry::CaptureInfo.name(), "CaptureInfo");
    assert_eq!(CaptureEntry::Data.name(), "Data");
}

#[test]
fn opens_a_stored_archive() {
    let bytes = archive(
        &[("VersionInfo", b"v1"), ("CaptureInfo", b"test123"), ("Data", &[1, 2, 3])],
        CompressionMethod::Stored,
    );
    let container = CaptureContainer::open(&bytes).unwrap();
    assert_eq!(container.version_info, b"v1".to_vec());
    assert_eq!(container.capture_info, b"test123".to_vec());
    assert_eq!(container.data, vec![1, 2, 3]);
}

#[test]
fn opens_a_deflated_archive() {
    let data = vec![0x41u8; 5000];
    let bytes = archive(
        &[("Data", &data), ("CaptureInfo", b"id"), ("VersionInfo", b""), ("Extra", b"x")],
        CompressionMethod::Deflated,
    );
    assert!(bytes.len() < 1000);
    let container = CaptureContainer::open(&bytes).unwrap();
    assert_eq!(container.version_info, Vec::<u8>::new());
    assert_eq!(container.capture_info, b"id".to_vec());
    assert_eq!(container.data, data);
}

#[test]
fn missing_entries_are_named() {
    let without_version =
        archive(&[("CaptureInfo", b"c"), ("Data", b"d")], CompressionMethod::Stored);
    assert_eq!(
        CaptureContainer::open(&without_version),
        Err(ContainerError::MissingEntry { entry: CaptureEntry::VersionInfo })
    );
    let without_capture =
        archive(&[("VersionInfo", b"v"), ("Data", b"d")], CompressionMethod::Stored);
    assert_eq!(
        CaptureContainer::open(&without_capture),
        Err(ContainerError::MissingEntry { entry: CaptureEntry::CaptureInfo })
    );
    let without_data =
        archive(&[("VersionInfo", b"v"), ("CaptureInfo", b"c")], CompressionMethod::Stored);
    assert_eq!(
        CaptureContainer::open(&without_data),
        Err(ContainerError::MissingEntry { entry: CaptureEntry::Data })
    );
}

#[test]
fn entry_names_are_matched_exactly() {
    let bytes = archive(
        &[("versioninfo", b"v"), ("CaptureInfo", b"c"), ("Data", b"d")],
        CompressionMethod::Stored,
    );
    assert_eq!(
        CaptureContainer::open(&bytes),
        Err(ContainerError::MissingEntry { entry: CaptureEntry::VersionInfo })
    );
}

#[test]
fn what_is_no_archive_is_unreadable() {
    assert_eq!(
        CaptureContainer::open(&[]),
        Err(ContainerError::UnreadableEntry { entry: CaptureEntry::VersionInfo })
    );
    assert_eq!(
        CaptureContainer::open(b"this is not an archive at all, not even nearly"),
        Err(ContainerError::UnreadableEntry { entry: CaptureEntry::VersionInfo })
    );
}

#[test]
fn corrupt_entry_is_unreadable() {
    let payload = b"0123456789abcdef0123456789abcdef";
    let mut bytes = archive(
        &[("VersionInfo", b"v"), ("CaptureInfo", b"c"), ("Data", payload)],
        CompressionMethod::Stored,
    );
    let at = bytes.windows(payload.len()).position(|w| w == payload).unwrap();
    bytes[at] ^= 0xff;
    assert_eq!(
        CaptureContainer::open(&bytes),
        Err(ContainerError::UnreadableEntry { entry: CaptureEntry::Data })
    );
}

#[test]
fn first_fault_in_entry_order_is_reported() {
    let ok = |bytes: &[u8]| -> Result<Vec<u8>, EntryFault> { Ok(bytes.to_vec()) };
    assert_eq!(
        CaptureContainer::from_entries(ok(b"v"), ok(b"c"), ok(b"d")),
        Ok(CaptureContainer {
            version_info: b"v".to_vec(),
            capture_info: b"c".to_vec(),
            data: b"d".to_vec(),
        })
    );
    assert_eq!(
        CaptureContainer::from_entries(
            Err(EntryFault::Unreadable),
            Err(EntryFault::Missing),
            Err(EntryFault::Missing)
        ),
        Err(ContainerError::UnreadableEntry { entry: CaptureEntry::VersionInfo })
    );
    assert_eq!(
        CaptureContainer::from_entries(ok(b"v"), Err(EntryFault::Missing), Err(EntryFault::Unreadable)),
        Err(ContainerError::MissingEntry { entry: CaptureEntry::CaptureInfo })
    );
    assert_eq!(
        CaptureContainer::from_entries(ok(b"v"), ok(b"c"), Err(EntryFault::Unreadable)),
        Err(ContainerError::UnreadableEntry { entry: CaptureEntry::Data })
    );
}

#[test]
fn faults_map_to_errors() {
    assert_eq!(
        CaptureContainer::fault_on(CaptureEntry::Data, EntryFault::Missing),
        ContainerError::MissingEntry { entry: CaptureEntry::Data }
    );
    assert_eq!(
        CaptureContainer::fault_on(CaptureEntry::CaptureInfo, EntryFault::Unreadable),
        ContainerError::UnreadableEntry { entry: CaptureEntry::CaptureInfo }
    );
}

#[test]
fn data_is_decompressed() {
    let stream: Vec<u8> = (0..2000u32).map(|i| (i % 7) as u8).collect();
    let packed = zstd::stream::encode_all(&stream[..], 3).unwrap();
    assert_ne!(packed, stream);
    let container =
        CaptureContainer { version_info: vec![], capture_info: vec![], data: packed };
    assert_eq!(container.unpack_data(), Ok(stream));
}

#[test]
fn empty_stream_is_decompressed_to_nothing() {
    let packed = zstd::stream::encode_all(&[][..], 0).unwrap();
    let container =
        CaptureContainer { version_info: vec![], capture_info: vec![], data: packed };
    assert_eq!(container.unpack_data(), Ok(vec![]));
}

#[test]
fn data_that_is_no_zstd_stream_is_corrupt() {
    let container = CaptureContainer {
        version_info: vec![],
        capture_info: vec![],
        data: b"plainly not compressed".to_vec(),
    };
    assert_eq!(container.unpack_data(), Err(ContainerError::CorruptStream));
}

#[test]
fn cut_off_stream_is_corrupt() {
    let stream: Vec<u8> = (0..5000u32).map(|i| (i * 31 % 251) as u8).collect();
    let mut packed = zstd::stream::encode_all(&stream[..], 3).unwrap();
    packed.truncate(packed.len() / 2);
    let container =
        CaptureContainer { version_info: vec![], capture_info: vec![], data: packed };
    assert_eq!(container.unpack_data(), Err(ContainerError::CorruptStream));
}

#[test]
fn stream_of_keeps_bytes_and_maps_errors() {
    assert_eq!(CaptureContainer::stream_of(Ok(vec![1, 2])), Ok(vec![1, 2]));
    assert_eq!(
        CaptureContainer::stream_of(Err(Error::other("bad"))),
        Err(ContainerError::CorruptStream)
    );
}
