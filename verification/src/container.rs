//! The capture container: an archive with three named entries, the last of
//! which is the compressed data stream.

use vstd::prelude::*;

verus! {

/// The entries that every capture container holds.
#[derive(Clone, Copy, Debug, PartialEq, Eq, Structural)]
pub enum CaptureEntry {
    VersionInfo,
    CaptureInfo,
    Data,
}

impl CaptureEntry {
    /// The exact name of the entry inside the archive.
    pub open spec fn spec_name(self) -> Seq<char> {
        match self {
            CaptureEntry::VersionInfo => "VersionInfo"@,
            CaptureEntry::CaptureInfo => "CaptureInfo"@,
            CaptureEntry::Data => "Data"@,
        }
    }

    /// The exact name of the entry inside the archive.
    pub fn name(&self) -> (text: &'static str)
        ensures
            text@ == self.spec_name(),
    {
        match self {
            CaptureEntry::VersionInfo => "VersionInfo",
            CaptureEntry::CaptureInfo => "CaptureInfo",
            CaptureEntry::Data => "Data",
        }
    }
}

/// Why an entry could not be had from an archive.
#[derive(Clone, Copy, Debug, PartialEq, Eq, Structural)]
pub enum EntryFault {
    /// The archive is sound and has no entry of that name.
    Missing,
    /// The archive, or the entry in it, cannot be read.
    Unreadable,
}

/// Why a container could not be opened or its data stream not be unpacked.
#[derive(Clone, Copy, Debug, PartialEq, Eq, Structural)]
pub enum ContainerError {
    /// A required entry is not in the archive.
    MissingEntry { entry: CaptureEntry },
    /// The archive is corrupt, or the entry cannot be read from it.
    UnreadableEntry { entry: CaptureEntry },
    /// The data entry is not a sound compressed stream.
    CorruptStream,
}

/// What reading the entry `name` out of the archive `archive` gives.
pub uninterp spec fn archive_entry(archive: Seq<u8>, name: Seq<char>) -> Result<Seq<u8>, EntryFault>;

/// What decompressing the zstd stream `stream` gives, if it is one.
pub uninterp spec fn zstd_decoded(stream: Seq<u8>) -> Option<Seq<u8>>;

/// The error of std's readers, carried through unread.
#[verifier::external_type_specification]
#[verifier::external_body]
pub struct ExIoError(std::io::Error);

/// Opens `archive` with `zip::ZipArchive::new`, looks `name` up with
/// `ZipArchive::by_name` and reads the entry to its end. The bytes read are
/// the entry's contents; of the errors only the one for an absent name is
/// told apart.
#[verifier::external_body]
fn read_entry(archive: &[u8], name: &str) -> (r: Result<Vec<u8>, EntryFault>)
    ensures
        match r {
            Ok(bytes) => archive_entry(archive@, name@) == Ok::<Seq<u8>, EntryFault>(bytes@),
            Err(fault) => archive_entry(archive@, name@) == Err::<Seq<u8>, EntryFault>(fault),
        },
{
    let mut zip = match zip::ZipArchive::new(std::io::Cursor::new(archive)) {
        Ok(zip) => zip,
        Err(_) => return Err(EntryFault::Unreadable),
    };
    let mut entry = match zip.by_name(name) {
        Ok(entry) => entry,
        Err(zip::result::ZipError::FileNotFound) => return Err(EntryFault::Missing),
        Err(_) => return Err(EntryFault::Unreadable),
    };
    let mut bytes = Vec::new();
    match std::io::Read::read_to_end(&mut entry, &mut bytes) {
        Ok(_) => Ok(bytes),
        Err(_) => Err(EntryFault::Unreadable),
    }
}

/// Calls `zstd::stream::decode_all`, which decompresses a whole stream in
/// the zstd frame format into memory.
#[verifier::external_body]
fn decode_stream(stream: &[u8]) -> (r: Result<Vec<u8>, std::io::Error>)
    ensures
        match r {
            Ok(bytes) => zstd_decoded(stream@) == Some(bytes@),
            Err(_) => zstd_decoded(stream@) is None,
        },
{
    zstd::stream::decode_all(stream)
}

/// The contents of the three entries of a capture container.
#[derive(Clone, Debug, PartialEq, Eq)]
pub struct CaptureContainer {
    pub version_info: Vec<u8>,
    pub capture_info: Vec<u8>,
    pub data: Vec<u8>,
}

/// A capture container as a mathematical value.
pub struct CaptureContainerView {
    pub version_info: Seq<u8>,
    pub capture_info: Seq<u8>,
    pub data: Seq<u8>,
}

impl View for CaptureContainer {
    type V = CaptureContainerView;

    open spec fn view(&self) -> CaptureContainerView {
        CaptureContainerView {
            version_info: self.version_info@,
            capture_info: self.capture_info@,
            data: self.data@,
        }
    }
}

/// The error that a fault on `entry` makes.
pub open spec fn entry_error(entry: CaptureEntry, fault: EntryFault) -> ContainerError {
    match fault {
        EntryFault::Missing => ContainerError::MissingEntry { entry },
        EntryFault::Unreadable => ContainerError::UnreadableEntry { entry },
    }
}

/// The container that three entry readings make: all three contents, or the
/// error of the first entry that could not be had, in the order version
/// info, capture info, data.
pub open spec fn container_of(
    version_info: Result<Seq<u8>, EntryFault>,
    capture_info: Result<Seq<u8>, EntryFault>,
    data: Result<Seq<u8>, EntryFault>,
) -> Result<CaptureContainerView, ContainerError> {
    match version_info {
        Err(fault) => Err(entry_error(CaptureEntry::VersionInfo, fault)),
        Ok(version_info) => match capture_info {
            Err(fault) => Err(entry_error(CaptureEntry::CaptureInfo, fault)),
            Ok(capture_info) => match data {
                Err(fault) => Err(entry_error(CaptureEntry::Data, fault)),
                Ok(data) => Ok(CaptureContainerView { version_info, capture_info, data }),
            },
        },
    }
}

/// The view of an entry reading.
pub open spec fn reading_view(r: Result<Vec<u8>, EntryFault>) -> Result<Seq<u8>, EntryFault> {
    match r {
        Ok(bytes) => Ok(bytes@),
        Err(fault) => Err(fault),
    }
}

/// The view of an opened container, or its error.
pub open spec fn opened_view(r: Result<CaptureContainer, ContainerError>) -> Result<
    CaptureContainerView,
    ContainerError,
> {
    match r {
        Ok(container) => Ok(container@),
        Err(e) => Err(e),
    }
}

impl CaptureContainer {
    /// Makes a container of the readings of its three entries. One entry
    /// that is missing or unreadable fails the whole container.
    pub fn from_entries(
        version_info: Result<Vec<u8>, EntryFault>,
        capture_info: Result<Vec<u8>, EntryFault>,
        data: Result<Vec<u8>, EntryFault>,
    ) -> (r: Result<CaptureContainer, ContainerError>)
        ensures
            opened_view(r) == container_of(
                reading_view(version_info),
                reading_view(capture_info),
                reading_view(data),
            ),
    {
        let version_info = match version_info {
            Ok(bytes) => bytes,
            Err(fault) => { return Err(Self::fault_on(CaptureEntry::VersionInfo, fault)); },
        };
        let capture_info = match capture_info {
            Ok(bytes) => bytes,
            Err(fault) => { return Err(Self::fault_on(CaptureEntry::CaptureInfo, fault)); },
        };
        let data = match data {
            Ok(bytes) => bytes,
            Err(fault) => { return Err(Self::fault_on(CaptureEntry::Data, fault)); },
        };
        Ok(CaptureContainer { version_info, capture_info, data })
    }

    /// The error that a fault on `entry` makes.
    pub fn fault_on(entry: CaptureEntry, fault: EntryFault) -> (e: ContainerError)
        ensures
            e == entry_error(entry, fault),
    {
        match fault {
            EntryFault::Missing => ContainerError::MissingEntry { entry },
            EntryFault::Unreadable => ContainerError::UnreadableEntry { entry },
        }
    }

    /// Reads the three required entries out of the bytes of an archive.
    pub fn open(archive: &[u8]) -> (r: Result<CaptureContainer, ContainerError>)
        ensures
            opened_view(r) == container_of(
                archive_entry(archive@, CaptureEntry::VersionInfo.spec_name()),
                archive_entry(archive@, CaptureEntry::CaptureInfo.spec_name()),
                archive_entry(archive@, CaptureEntry::Data.spec_name()),
            ),
    {
        let version_info = read_entry(archive, CaptureEntry::VersionInfo.name());
        let capture_info = read_entry(archive, CaptureEntry::CaptureInfo.name());
        let data = read_entry(archive, CaptureEntry::Data.name());
        Self::from_entries(version_info, capture_info, data)
    }

    /// The stream that a decompression of the data entry makes.
    pub fn stream_of(decoded: Result<Vec<u8>, std::io::Error>) -> (r: Result<
        Vec<u8>,
        ContainerError,
    >)
        ensures
            match r {
                Ok(stream) => decoded matches Ok(bytes) && stream@ == bytes@,
                Err(e) => decoded is Err && e == ContainerError::CorruptStream,
            },
    {
        match decoded {
            Ok(bytes) => Ok(bytes),
            Err(_) => Err(ContainerError::CorruptStream),
        }
    }

    /// Decompresses the data entry into the stream of records.
    pub fn unpack_data(&self) -> (r: Result<Vec<u8>, ContainerError>)
        ensures
            match r {
                Ok(stream) => zstd_decoded(self.data@) == Some(stream@),
                Err(e) => zstd_decoded(self.data@) is None && e == ContainerError::CorruptStream,
            },
    {
        Self::stream_of(decode_stream(self.data.as_slice()))
    }
}

} // verus!
