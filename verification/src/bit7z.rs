//! The archive side of the library: errors of archive operations and the
//! descriptions of archives and their items, made from what the 7-zip engine
//! reports.
use vstd::prelude::*;

pub mod ffi;

pub use ffi::{ArchiveFormat, ArchiveInfo, ArchiveItemInfo, ErrorCode, OperationResult};

verus! {

/// Errors of archive operations.
#[derive(Debug)]
pub enum Error {
    LibraryLoad(String),
    ArchiveOpen(String),
    InvalidPassword,
    Extraction(String),
    InvalidIndex(u32),
    InvalidFormat,
    Io(String),
    Unknown(String),
}

/// Results of archive operations.
pub type Result<T> = std::result::Result<T, Error>;

/// `e` is the error that stands for the failure code `code`, with an empty
/// message. `Success` is no failure, and no error stands for it.
pub open spec fn is_error_for_code(code: ErrorCode, e: Error) -> bool {
    match code {
        ErrorCode::Success => false,
        ErrorCode::LibraryLoadFailed => e matches Error::LibraryLoad(m) && m@.len() == 0,
        ErrorCode::ArchiveOpenFailed => e matches Error::ArchiveOpen(m) && m@.len() == 0,
        ErrorCode::InvalidPassword => e matches Error::InvalidPassword,
        ErrorCode::ExtractionFailed => e matches Error::Extraction(m) && m@.len() == 0,
        ErrorCode::InvalidIndex => e matches Error::InvalidIndex(i) && i == 0,
        ErrorCode::InvalidFormat => e matches Error::InvalidFormat,
        ErrorCode::IoError => e matches Error::Io(m) && m@.len() == 0,
        ErrorCode::UnknownError => e matches Error::Unknown(m) && m@.len() == 0,
    }
}

impl Error {
    /// The error for a failure code, with an empty message. Only failure
    /// codes can be converted: `Success` is not an error.
    pub fn from_failure_code(code: ErrorCode) -> (r: Self)
        requires
            code != ErrorCode::Success,
        ensures
            is_error_for_code(code, r),
    {
        match code {
            ErrorCode::LibraryLoadFailed => Error::LibraryLoad(String::new()),
            ErrorCode::ArchiveOpenFailed => Error::ArchiveOpen(String::new()),
            ErrorCode::InvalidPassword => Error::InvalidPassword,
            ErrorCode::ExtractionFailed => Error::Extraction(String::new()),
            ErrorCode::InvalidIndex => Error::InvalidIndex(0),
            ErrorCode::InvalidFormat => Error::InvalidFormat,
            ErrorCode::IoError => Error::Io(String::new()),
            _ => Error::Unknown(String::new()),
        }
    }
}

// The conversion names no single `Error`: the messages it makes are empty
// strings, and equal characters do not make two `String`s equal values. So
// it does not claim `from_spec`; `from` states its result by
// `is_error_for_code` instead.
impl vstd::std_specs::convert::FromSpecImpl<ErrorCode> for Error {
    open spec fn obeys_from_spec() -> bool {
        false
    }

    open spec fn from_spec(code: ErrorCode) -> Self {
        choose|e: Error| is_error_for_code(code, e)
    }
}

impl From<ErrorCode> for Error {
    /// The error for a failure code, as `Error::from_failure_code` gives it.
    ///
    /// `Success` is no failure and converting it is a caller's mistake; a
    /// trait method cannot refuse an input by a precondition, so instead of
    /// stopping, this conversion answers it with an unknown error with an
    /// empty message. Callers that can state the precondition use
    /// `Error::from_failure_code`, which does not admit `Success`.
    fn from(code: ErrorCode) -> (r: Self)
        ensures
            code != ErrorCode::Success ==> is_error_for_code(code, r),
            code == ErrorCode::Success ==> (r matches Error::Unknown(m) && m@.len() == 0),
    {
        if code == ErrorCode::Success {
            Error::Unknown(String::new())
        } else {
            Error::from_failure_code(code)
        }
    }
}

/// What an operation result means: `Ok` for the code `Success`, otherwise the
/// error for the code carrying the result's message. Codes without an error
/// of their own are unknown errors.
pub open spec fn outcome_of(result: OperationResult) -> Result<()> {
    match result.code {
        ErrorCode::Success => Ok(()),
        ErrorCode::InvalidPassword => Err(Error::InvalidPassword),
        ErrorCode::ExtractionFailed => Err(Error::Extraction(result.message)),
        ErrorCode::ArchiveOpenFailed => Err(Error::ArchiveOpen(result.message)),
        ErrorCode::IoError => Err(Error::Io(result.message)),
        _ => Err(Error::Unknown(result.message)),
    }
}

/// Turns the result of an engine operation into `Ok` or the error it reports.
pub fn check_result(result: OperationResult) -> (r: Result<()>)
    ensures
        r == outcome_of(result),
{
    match result.code {
        ErrorCode::Success => Ok(()),
        ErrorCode::InvalidPassword => Err(Error::InvalidPassword),
        ErrorCode::ExtractionFailed => Err(Error::Extraction(result.message)),
        ErrorCode::ArchiveOpenFailed => Err(Error::ArchiveOpen(result.message)),
        ErrorCode::IoError => Err(Error::Io(result.message)),
        _ => Err(Error::Unknown(result.message)),
    }
}

/// The outcome of loading the engine: `Ok` for a valid handle, otherwise a
/// load error carrying the engine's message.
pub fn library_load_outcome(valid: bool, message: String) -> (r: Result<()>)
    ensures
        r == if valid {
            Ok(())
        } else {
            Err(Error::LibraryLoad(message))
        },
{
    if valid {
        Ok(())
    } else {
        Err(Error::LibraryLoad(message))
    }
}

/// The outcome of opening an archive: `Ok` for a valid reader, otherwise an
/// open error carrying the engine's message.
pub fn archive_open_outcome(valid: bool, message: String) -> (r: Result<()>)
    ensures
        r == if valid {
            Ok(())
        } else {
            Err(Error::ArchiveOpen(message))
        },
{
    if valid {
        Ok(())
    } else {
        Err(Error::ArchiveOpen(message))
    }
}

/// Information about a single item in an archive.
#[derive(Debug, Clone)]
pub struct ArchiveItem {
    pub path: String,
    pub name: String,
    pub size: u64,
    pub packed_size: u64,
    pub crc: u64,
    pub creation_time: Option<i64>,
    pub modification_time: Option<i64>,
    pub access_time: Option<i64>,
    pub attributes: u32,
    pub index: u32,
    pub is_dir: bool,
    pub is_encrypted: bool,
}

/// A time stamp as the engine reports it: known when not negative.
pub open spec fn known_time(t: i64) -> Option<i64> {
    if t >= 0 {
        Some(t)
    } else {
        None
    }
}

fn time_if_known(t: i64) -> (r: Option<i64>)
    ensures
        r == known_time(t),
{
    if t >= 0 {
        Some(t)
    } else {
        None
    }
}

/// The item description made from what the engine reports of it.
pub open spec fn item_of(info: ArchiveItemInfo) -> ArchiveItem {
    ArchiveItem {
        path: info.path,
        name: info.name,
        size: info.size,
        packed_size: info.packed_size,
        crc: info.crc,
        creation_time: known_time(info.creation_time),
        modification_time: known_time(info.modification_time),
        access_time: known_time(info.access_time),
        attributes: info.attributes,
        index: info.index,
        is_dir: info.is_dir,
        is_encrypted: info.is_encrypted,
    }
}

impl vstd::std_specs::convert::FromSpecImpl<ArchiveItemInfo> for ArchiveItem {
    open spec fn obeys_from_spec() -> bool {
        true
    }

    open spec fn from_spec(info: ArchiveItemInfo) -> Self {
        item_of(info)
    }
}

impl From<ArchiveItemInfo> for ArchiveItem {
    /// Every field is the engine's field of the same name; a negative time
    /// stamp becomes `None`.
    fn from(info: ArchiveItemInfo) -> (r: Self)
        ensures
            r.path == info.path,
            r.name == info.name,
            r.size == info.size,
            r.packed_size == info.packed_size,
            r.crc == info.crc,
            info.creation_time >= 0 ==> r.creation_time == Some(info.creation_time),
            info.creation_time < 0 ==> r.creation_time is None,
            info.modification_time >= 0 ==> r.modification_time == Some(info.modification_time),
            info.modification_time < 0 ==> r.modification_time is None,
            info.access_time >= 0 ==> r.access_time == Some(info.access_time),
            info.access_time < 0 ==> r.access_time is None,
            r.attributes == info.attributes,
            r.index == info.index,
            r.is_dir == info.is_dir,
            r.is_encrypted == info.is_encrypted,
    {
        ArchiveItem {
            path: info.path,
            name: info.name,
            size: info.size,
            packed_size: info.packed_size,
            crc: info.crc,
            creation_time: time_if_known(info.creation_time),
            modification_time: time_if_known(info.modification_time),
            access_time: time_if_known(info.access_time),
            attributes: info.attributes,
            index: info.index,
            is_dir: info.is_dir,
            is_encrypted: info.is_encrypted,
        }
    }
}

/// The descriptions of all items of an archive, in the engine's order.
pub fn items_from_infos(infos: Vec<ArchiveItemInfo>) -> (r: Vec<ArchiveItem>)
    ensures
        r@ == infos@.map_values(|info: ArchiveItemInfo| item_of(info)),
        r.len() == infos.len(),
        forall|i: int|
            0 <= i < r.len() ==> {
                let item = #[trigger] r@[i];
                let info = infos@[i];
                &&& item.path == info.path
                &&& item.name == info.name
                &&& item.size == info.size
                &&& item.packed_size == info.packed_size
                &&& item.crc == info.crc
                &&& item.creation_time == (if info.creation_time >= 0 {
                    Some(info.creation_time)
                } else {
                    None
                })
                &&& item.modification_time == (if info.modification_time >= 0 {
                    Some(info.modification_time)
                } else {
                    None
                })
                &&& item.access_time == (if info.access_time >= 0 {
                    Some(info.access_time)
                } else {
                    None
                })
                &&& item.attributes == info.attributes
                &&& item.index == info.index
                &&& item.is_dir == info.is_dir
                &&& item.is_encrypted == info.is_encrypted
            },
{
    let ghost all = infos@;
    let mut r: Vec<ArchiveItem> = Vec::new();
    for info in it: infos
        invariant
            it.seq() == all,
            r.len() == it.index(),
            forall|j: int| 0 <= j < r.len() ==> r@[j] == item_of(all[j]),
    {
        r.push(ArchiveItem::from(info));
    }
    assert(r@ =~= all.map_values(|info: ArchiveItemInfo| item_of(info)));
    r
}

/// The description of an item that the engine looked up: `None` when it
/// reported neither a path nor a name, as it does for an index it has not.
pub fn item_from_info(info: ArchiveItemInfo) -> (r: Option<ArchiveItem>)
    ensures
        r == if info.path@.len() == 0 && info.name@.len() == 0 {
            None
        } else {
            Some(item_of(info))
        },
        r matches Some(item) ==> {
            &&& item.path == info.path
            &&& item.name == info.name
            &&& item.size == info.size
            &&& item.packed_size == info.packed_size
            &&& item.crc == info.crc
            &&& item.creation_time == (if info.creation_time >= 0 {
                Some(info.creation_time)
            } else {
                None
            })
            &&& item.modification_time == (if info.modification_time >= 0 {
                Some(info.modification_time)
            } else {
                None
            })
            &&& item.access_time == (if info.access_time >= 0 {
                Some(info.access_time)
            } else {
                None
            })
            &&& item.attributes == info.attributes
            &&& item.index == info.index
            &&& item.is_dir == info.is_dir
            &&& item.is_encrypted == info.is_encrypted
        },
{
    if info.path.as_str().is_empty() && info.name.as_str().is_empty() {
        None
    } else {
        Some(ArchiveItem::from(info))
    }
}

/// Metadata about an archive.
#[derive(Debug, Clone)]
pub struct ArchiveMetadata {
    pub size: u64,
    pub packed_size: u64,
    pub items_count: u32,
    pub folders_count: u32,
    pub files_count: u32,
    pub volumes_count: u32,
    pub is_encrypted: bool,
    pub has_encrypted_items: bool,
    pub is_multi_volume: bool,
    pub is_solid: bool,
}

/// The archive metadata made from what the engine reports: the same fields.
pub open spec fn metadata_of(info: ArchiveInfo) -> ArchiveMetadata {
    ArchiveMetadata {
        size: info.size,
        packed_size: info.packed_size,
        items_count: info.items_count,
        folders_count: info.folders_count,
        files_count: info.files_count,
        volumes_count: info.volumes_count,
        is_encrypted: info.is_encrypted,
        has_encrypted_items: info.has_encrypted_items,
        is_multi_volume: info.is_multi_volume,
        is_solid: info.is_solid,
    }
}

impl vstd::std_specs::convert::FromSpecImpl<ArchiveInfo> for ArchiveMetadata {
    open spec fn obeys_from_spec() -> bool {
        true
    }

    open spec fn from_spec(info: ArchiveInfo) -> Self {
        metadata_of(info)
    }
}

impl From<ArchiveInfo> for ArchiveMetadata {
    /// Every field is the engine's field of the same name.
    fn from(info: ArchiveInfo) -> (r: Self)
        ensures
            r.size == info.size,
            r.packed_size == info.packed_size,
            r.items_count == info.items_count,
            r.folders_count == info.folders_count,
            r.files_count == info.files_count,
            r.volumes_count == info.volumes_count,
            r.is_encrypted == info.is_encrypted,
            r.has_encrypted_items == info.has_encrypted_items,
            r.is_multi_volume == info.is_multi_volume,
            r.is_solid == info.is_solid,
    {
        ArchiveMetadata {
            size: info.size,
            packed_size: info.packed_size,
            items_count: info.items_count,
            folders_count: info.folders_count,
            files_count: info.files_count,
            volumes_count: info.volumes_count,
            is_encrypted: info.is_encrypted,
            has_encrypted_items: info.has_encrypted_items,
            is_multi_volume: info.is_multi_volume,
            is_solid: info.is_solid,
        }
    }
}

/// Law: the description of an item carries every field the engine reports
/// under the same name; a time stamp is kept exactly when it is not negative.
pub proof fn lemma_item_keeps_fields(info: ArchiveItemInfo)
    ensures
        item_of(info).path == info.path,
        item_of(info).name == info.name,
        item_of(info).size == info.size,
        item_of(info).packed_size == info.packed_size,
        item_of(info).crc == info.crc,
        info.creation_time >= 0 ==> item_of(info).creation_time == Some(info.creation_time),
        info.creation_time < 0 ==> item_of(info).creation_time is None,
        info.modification_time >= 0 ==> item_of(info).modification_time == Some(
            info.modification_time,
        ),
        info.modification_time < 0 ==> item_of(info).modification_time is None,
        info.access_time >= 0 ==> item_of(info).access_time == Some(info.access_time),
        info.access_time < 0 ==> item_of(info).access_time is None,
        item_of(info).attributes == info.attributes,
        item_of(info).index == info.index,
        item_of(info).is_dir == info.is_dir,
        item_of(info).is_encrypted == info.is_encrypted,
{
}

/// Law: archive metadata carries every field the engine reports under the
/// same name.
pub proof fn lemma_metadata_keeps_fields(info: ArchiveInfo)
    ensures
        metadata_of(info).size == info.size,
        metadata_of(info).packed_size == info.packed_size,
        metadata_of(info).items_count == info.items_count,
        metadata_of(info).folders_count == info.folders_count,
        metadata_of(info).files_count == info.files_count,
        metadata_of(info).volumes_count == info.volumes_count,
        metadata_of(info).is_encrypted == info.is_encrypted,
        metadata_of(info).has_encrypted_items == info.has_encrypted_items,
        metadata_of(info).is_multi_volume == info.is_multi_volume,
        metadata_of(info).is_solid == info.is_solid,
{
}

} // verus!
