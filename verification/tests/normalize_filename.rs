use auto_decompress::normalize_extension;
use std::borrow::Cow;

#[test]
fn keeps_clean_filename_without_extension() {
    assert!(matches!(
        normalize_extension("archive"),
        Cow::Borrowed("archive")
    ));
}

#[test]
fn keeps_hidden_file_unchanged() {
    assert_eq!(normalize_extension(".env"), ".env");
}

#[test]
fn removes_non_ascii_noise_from_extension_chain() {
    assert_eq!(normalize_extension("test.删去txt.删zip除"), "test.txt.zip");
}

#[test]
fn deduplicates_repeated_extensions_without_other_changes() {
    assert_eq!(normalize_extension("archive.zip.zip"), "archive.zip");
}

#[test]
fn drops_empty_segments_created_by_noise() {
    assert_eq!(normalize_extension("archive.删去"), "archive");
}

#[test]
fn normalizes_extension_case_while_preserving_stem() {
    assert_eq!(normalize_extension("Photo.TAR.GZ"), "Photo.tar.gz");
}

#[test]
fn clean_name_is_handed_back_borrowed() {
    assert!(matches!(
        normalize_extension("backup.tar.gz"),
        Cow::Borrowed("backup.tar.gz")
    ));
}

#[test]
fn changed_name_comes_back_owned() {
    let r = normalize_extension("backup.TAR.gz");
    assert!(matches!(r, Cow::Owned(_)));
    assert_eq!(r, "backup.tar.gz");
}

#[test]
fn of_repeated_extensions_the_last_stays() {
    assert_eq!(normalize_extension("a.zip.tar.zip"), "a.tar.zip");
}

#[test]
fn repeats_are_found_after_cleaning() {
    assert_eq!(normalize_extension("a.ZIP.zip"), "a.zip");
    assert_eq!(normalize_extension("a.zip.Z-I-P"), "a.zip");
}

#[test]
fn empty_segments_are_dropped() {
    assert_eq!(normalize_extension("a..b"), "a.b");
    assert_eq!(normalize_extension("archive."), "archive");
    assert_eq!(normalize_extension("."), "");
    assert!(matches!(normalize_extension("archive."), Cow::Owned(_)));
}

#[test]
fn the_stem_is_never_touched() {
    assert_eq!(normalize_extension("My File!.Zip"), "My File!.zip");
    assert_eq!(normalize_extension("RÉSUMÉ.PDF"), "RÉSUMÉ.pdf");
}

#[test]
fn empty_name_is_handed_back() {
    assert!(matches!(normalize_extension(""), Cow::Borrowed("")));
}

#[test]
fn normalizing_twice_changes_nothing_more() {
    for name in [
        "test.删去txt.删zip除",
        "a.zip.tar.zip",
        "Photo.TAR.GZ",
        "x..Y.y.",
        "noext",
        ".env",
    ] {
        let once = normalize_extension(name).into_owned();
        let twice = normalize_extension(&once);
        assert!(matches!(twice, Cow::Borrowed(_)));
        assert_eq!(twice, once.as_str());
    }
}

#[test]
fn borrowed_exactly_when_the_text_is_unchanged() {
    for name in ["a.b.c", "a.B", "a.b.b", "a.", "abc", "a.b-c", "a.tar.gz"] {
        let r = normalize_extension(name);
        let borrowed = matches!(r, Cow::Borrowed(_));
        assert_eq!(borrowed, r == name, "{name}");
    }
}

#[test]
fn extensions_come_out_lowercase_alphanumeric_and_distinct() {
    let r = normalize_extension("Data.GZ.7Z.gz.Tar!");
    assert_eq!(r, "Data.7z.gz.tar");
    let parts: Vec<&str> = r.split('.').skip(1).collect();
    for (i, p) in parts.iter().enumerate() {
        assert!(!p.is_empty());
        assert!(p.chars().all(|c| c.is_ascii_lowercase() || c.is_ascii_digit()));
        assert!(!parts[i + 1..].contains(p));
    }
}

#[test]
fn noise_inside_an_extension_is_removed() {
    assert_eq!(normalize_extension("file.rar.删去"), "file.rar");
    assert_eq!(normalize_extension("file.t删去gz"), "file.tgz");
}
