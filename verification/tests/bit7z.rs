use auto_decompress::bit7z::{
    archive_open_outcome, check_result, library_load_outcome, item_from_info, items_from_infos, ArchiveInfo, ArchiveItem, ArchiveItemInfo,
    ArchiveMetadata, Error, ErrorCode, OperationResult,
};

#[test]
fn test_error_from_code() {
    let err: Error = ErrorCode::InvalidPassword.into();
    assert!(matches!(err, Error::InvalidPassword));
}

#[test]
fn every_failure_code_has_its_error() {
    assert!(matches!(Error::from(ErrorCode::LibraryLoadFailed), Error::LibraryLoad(m) if m.is_empty()));
    assert!(matches!(Error::from(ErrorCode::ArchiveOpenFailed), Error::ArchiveOpen(m) if m.is_empty()));
    assert!(matches!(Error::from(ErrorCode::ExtractionFailed), Error::Extraction(m) if m.is_empty()));
    assert!(matches!(Error::from(ErrorCode::InvalidIndex), Error::InvalidIndex(0)));
    assert!(matches!(Error::from(ErrorCode::InvalidFormat), Error::InvalidFormat));
    assert!(matches!(Error::from(ErrorCode::IoError), Error::Io(m) if m.is_empty()));
    assert!(matches!(Error::from(ErrorCode::UnknownError), Error::Unknown(m) if m.is_empty()));
}

fn result(code: ErrorCode, message: &str) -> OperationResult {
    OperationResult { code, message: message.to_string() }
}

#[test]
fn check_result_passes_success() {
    assert!(check_result(result(ErrorCode::Success, "ignored")).is_ok());
}

#[test]
fn check_result_reports_each_failure_with_its_message() {
    assert!(matches!(check_result(result(ErrorCode::InvalidPassword, "bad")), Err(Error::InvalidPassword)));
    assert!(matches!(check_result(result(ErrorCode::ExtractionFailed, "crc")), Err(Error::Extraction(m)) if m == "crc"));
    assert!(matches!(check_result(result(ErrorCode::ArchiveOpenFailed, "open")), Err(Error::ArchiveOpen(m)) if m == "open"));
    assert!(matches!(check_result(result(ErrorCode::IoError, "disk")), Err(Error::Io(m)) if m == "disk"));
    assert!(matches!(check_result(result(ErrorCode::InvalidIndex, "idx")), Err(Error::Unknown(m)) if m == "idx"));
    assert!(matches!(check_result(result(ErrorCode::LibraryLoadFailed, "lib")), Err(Error::Unknown(m)) if m == "lib"));
    assert!(matches!(check_result(result(ErrorCode::UnknownError, "?")), Err(Error::Unknown(m)) if m == "?"));
}

fn info(path: &str, name: &str, times: (i64, i64, i64), index: u32) -> ArchiveItemInfo {
    ArchiveItemInfo {
        path: path.to_string(),
        name: name.to_string(),
        size: 14,
        packed_size: 9,
        crc: 0xdead,
        creation_time: times.0,
        modification_time: times.1,
        access_time: times.2,
        attributes: 0x20,
        index,
        is_dir: false,
        is_encrypted: true,
    }
}

#[test]
fn negative_times_are_unknown() {
    let item: ArchiveItem = info("dir/hello.txt", "hello.txt", (-1, 0, 1700000000), 3).into();
    assert_eq!(item.creation_time, None);
    assert_eq!(item.modification_time, Some(0));
    assert_eq!(item.access_time, Some(1700000000));
    assert_eq!(item.path, "dir/hello.txt");
    assert_eq!(item.name, "hello.txt");
    assert_eq!((item.size, item.packed_size, item.crc), (14, 9, 0xdead));
    assert_eq!((item.attributes, item.index), (0x20, 3));
    assert!(!item.is_dir && item.is_encrypted);
}

#[test]
fn items_keep_the_engine_order() {
    let items = items_from_infos(vec![
        info("a", "a", (1, 1, 1), 0),
        info("b", "b", (-5, 2, 2), 1),
        info("c", "c", (3, -3, 3), 2),
    ]);
    let names: Vec<&str> = items.iter().map(|i| i.name.as_str()).collect();
    assert_eq!(names, vec!["a", "b", "c"]);
    assert_eq!(items[1].creation_time, None);
    assert_eq!(items[2].modification_time, None);
    assert!(items_from_infos(Vec::new()).is_empty());
}

#[test]
fn missing_item_is_none() {
    assert!(item_from_info(info("", "", (0, 0, 0), 9)).is_none());
    let found = item_from_info(info("", "only-name", (0, 0, 0), 9)).unwrap();
    assert_eq!(found.name, "only-name");
    assert!(item_from_info(info("only/path", "", (0, 0, 0), 9)).is_some());
}

#[test]
fn metadata_keeps_every_field() {
    let meta: ArchiveMetadata = ArchiveInfo {
        size: 100,
        packed_size: 50,
        items_count: 4,
        folders_count: 1,
        files_count: 3,
        volumes_count: 2,
        is_encrypted: true,
        has_encrypted_items: false,
        is_multi_volume: true,
        is_solid: false,
    }
    .into();
    assert_eq!((meta.size, meta.packed_size), (100, 50));
    assert_eq!((meta.items_count, meta.folders_count, meta.files_count, meta.volumes_count), (4, 1, 3, 2));
    assert!(meta.is_encrypted && !meta.has_encrypted_items && meta.is_multi_volume && !meta.is_solid);
}

#[test]
fn invalid_handles_become_errors_with_the_engine_message() {
    assert!(library_load_outcome(true, String::new()).is_ok());
    assert!(matches!(library_load_outcome(false, "no 7z.so".to_string()), Err(Error::LibraryLoad(m)) if m == "no 7z.so"));
    assert!(archive_open_outcome(true, String::new()).is_ok());
    assert!(matches!(archive_open_outcome(false, "bad header".to_string()), Err(Error::ArchiveOpen(m)) if m == "bad header"));
}

#[test]
fn failure_codes_convert_and_success_is_answered_as_unknown() {
    assert!(matches!(Error::from_failure_code(ErrorCode::InvalidPassword), Error::InvalidPassword));
    assert!(matches!(Error::from_failure_code(ErrorCode::IoError), Error::Io(m) if m.is_empty()));
    assert!(matches!(Error::from_failure_code(ErrorCode::InvalidIndex), Error::InvalidIndex(0)));
    assert!(matches!(Error::from(ErrorCode::Success), Error::Unknown(m) if m.is_empty()));
}
