//! The plain values that the 7-zip engine hands across its interface:
//! formats, status codes, item and archive descriptions, operation results.
use vstd::prelude::*;

verus! {

/// Archive formats the engine can read; `Auto` lets it detect the format.
#[derive(Debug, Clone, Copy, PartialEq, Eq, Hash, Structural)]
pub enum ArchiveFormat {
    Auto,
    Zip,
    SevenZip,
    Rar,
    Rar5,
    GZip,
    BZip2,
    Xz,
    Lzma,
    Tar,
    Wim,
    Iso,
    Cab,
    Arj,
    Z,
    Lzh,
    Nsis,
    Cpio,
    Rpm,
    Deb,
    Dmg,
    Hfs,
    Xar,
    Vhd,
    Fat,
    Ntfs,
    Split,
}

/// Status codes of engine operations.
#[derive(Debug, Clone, Copy, PartialEq, Eq, Structural)]
pub enum ErrorCode {
    Success,
    LibraryLoadFailed,
    ArchiveOpenFailed,
    InvalidPassword,
    ExtractionFailed,
    InvalidIndex,
    InvalidFormat,
    IoError,
    UnknownError,
}

/// One item of an archive as the engine reports it; a negative time stamp
/// means that the time is unknown.
#[derive(Debug, Clone)]
pub struct ArchiveItemInfo {
    pub path: String,
    pub name: String,
    pub size: u64,
    pub packed_size: u64,
    pub crc: u64,
    pub creation_time: i64,
    pub modification_time: i64,
    pub access_time: i64,
    pub attributes: u32,
    pub index: u32,
    pub is_dir: bool,
    pub is_encrypted: bool,
}

/// An archive as the engine reports it.
#[derive(Debug, Clone)]
pub struct ArchiveInfo {
    pub size: u64,
    pub packed_size: u64,
    pub items_count: u32,
    pub folders_count: u32,
    pub files_count: u32,
    pub volumes_count: u32,
    pub is_encrypted: bool,
    pub has_encrypted_items: bool,
    pub is_multi_volume: bool,
    pub is_solid: bool,
}

/// The status code and message of an engine operation.
#[derive(Debug, Clone)]
pub struct OperationResult {
    pub code: ErrorCode,
    pub message: String,
}

} // verus!
