use auto_decompress::extension_detector::normal::{detect_file_type, normalize_extension};
use auto_decompress::extension_detector::{
    extension_mismatch, FileTypeInfo, InputKind, NormalFileTypeDetector,
};
use std::borrow::Cow;

#[test]
fn test_accepted_input_kinds() {
    let detector = NormalFileTypeDetector;

    assert_eq!(
        detector.accepted_input_kinds(),
        vec![InputKind::Bytes, InputKind::Path]
    );
}

#[test]
fn test_normalize_extension() {
    assert_eq!(normalize_extension("test.exe"), "test.exe");
    assert_eq!(normalize_extension(".env"), ".env");
    assert_eq!(normalize_extension("test.删去txt.删zip除"), "test.txt.zip");
}

#[test]
fn test_detect_file_type() {
    let file_type = detect_file_type(b"A Very Very Very Long text", None);
    assert_eq!(file_type.name(), "Text");
}

#[test]
fn test_detect_file_type_prefers_magic_over_spoofed_extension() {
    let file_type = detect_file_type(b"A Very Very Very Long text", Some("jpg"));
    assert_eq!(file_type.name(), "Text");
}

const EMPTY_ZIP: [u8; 22] = [
    0x50, 0x4b, 0x05, 0x06, 0, 0, 0, 0, 0, 0, 0, 0, 0, 0, 0, 0, 0, 0, 0, 0, 0, 0,
];

#[test]
fn detects_an_empty_zip_archive_by_its_signature() {
    let file_type = detect_file_type(&EMPTY_ZIP, Some("jpg"));
    assert_eq!(file_type.name(), "ZIP Format");
    assert!(file_type.has_extension("zip"));
    assert!(!file_type.has_extension("jpg"));
}

#[test]
fn detects_a_java_class_file() {
    let file_type = detect_file_type(b"\xCA\xFE\xBA\xBE", None);
    assert_eq!(file_type.name(), "Java class file");
    assert_eq!(file_type.extensions(), vec!["class"]);
}

#[test]
fn the_extension_hint_never_changes_the_result() {
    for bytes in [&b"A Very Very Very Long text"[..], &EMPTY_ZIP[..], &b"\xCA\xFE\xBA\xBE"[..]] {
        let plain = detect_file_type(bytes, None);
        for hint in ["jpg", "zip", "txt", "class", "ZIP"] {
            assert_eq!(detect_file_type(bytes, Some(hint)), plain);
        }
    }
}

#[test]
fn detector_detect_never_fails() {
    let detector = NormalFileTypeDetector;
    let found = detector.detect(&EMPTY_ZIP, None).unwrap();
    assert_eq!(found, detect_file_type(&EMPTY_ZIP, None));
}

#[test]
fn has_extension_compares_exactly() {
    let info = FileTypeInfo {
        id: 7,
        name: "Sample".to_string(),
        extensions: vec!["tar".to_string(), "gz".to_string()],
        media_types: vec!["application/x-sample".to_string()],
    };
    assert!(info.has_extension("gz"));
    assert!(info.has_extension("tar"));
    assert!(!info.has_extension("GZ"));
    assert!(!info.has_extension("tar.gz"));
    assert!(!info.has_extension(""));
    assert_eq!(info.id(), 7);
    assert_eq!(info.name(), "Sample");
    assert_eq!(info.media_types(), vec!["application/x-sample"]);
}

#[test]
fn lenient_normalization_keeps_inner_dots() {
    assert_eq!(normalize_extension("a.B..c"), "a.b..c");
    assert_eq!(normalize_extension("Photo.TAR.GZ"), "Photo.tar.gz");
    assert_eq!(normalize_extension("x.删"), "x.");
}

#[test]
fn lenient_normalization_borrows_only_names_without_a_dot() {
    assert!(matches!(normalize_extension("archive"), Cow::Borrowed("archive")));
    assert!(matches!(normalize_extension("test.exe"), Cow::Owned(_)));
}

#[test]
fn lenient_normalization_is_idempotent() {
    for name in ["test.删去txt.删zip除", "a.B..c", "noext", ".ENV", "x.y.Z!"] {
        let once = normalize_extension(name).into_owned();
        assert_eq!(normalize_extension(&once), once.as_str());
    }
}

#[test]
fn mismatch_is_a_given_extension_the_type_does_not_list() {
    let zip = detect_file_type(&EMPTY_ZIP, Some("jpg"));
    assert!(extension_mismatch(&zip, Some("jpg")));
    assert!(!extension_mismatch(&zip, Some("zip")));
    assert!(extension_mismatch(&zip, Some("ZIP")));
    assert!(!extension_mismatch(&zip, None));
}
