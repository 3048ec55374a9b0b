//! File-type detection: the kinds of input a detector takes, its errors, and
//! the description of a detected file type.
use vstd::prelude::*;

pub mod normal;
pub mod signature_scan;

pub use normal::NormalFileTypeDetector;

verus! {

/// The kinds of input a file-type detector can accept.
#[derive(Debug, Clone, Copy, PartialEq, Eq, Structural)]
pub enum InputKind {
    Bytes,
    Path,
}

#[verifier::external_type_specification]
#[verifier::external_body]
pub struct ExIoError(std::io::Error);

/// Failures of file-type detection.
#[derive(Debug)]
pub enum Error {
    /// Reading the input failed.
    Io(std::io::Error),
    /// The detector does not accept this kind of input.
    UnsupportedInputKind(InputKind),
}

/// A detected file type: its identifier, its human-readable name, the file
/// extensions and the media types registered for it.
#[derive(Debug, Clone, PartialEq, Eq)]
pub struct FileTypeInfo {
    pub id: usize,
    pub name: String,
    pub extensions: Vec<String>,
    pub media_types: Vec<String>,
}

/// The characters of each string of a list.
pub open spec fn string_views(v: Seq<String>) -> Seq<Seq<char>> {
    v.map_values(|s: String| s@)
}

impl View for FileTypeInfo {
    type V = (usize, Seq<char>, Seq<Seq<char>>, Seq<Seq<char>>);

    open spec fn view(&self) -> Self::V {
        (self.id, self.name@, string_views(self.extensions@), string_views(self.media_types@))
    }
}

impl FileTypeInfo {
    /// The identifier of the file type.
    pub fn id(&self) -> (r: usize)
        ensures
            r == self.id,
    {
        self.id
    }

    /// The human-readable name of the file type.
    pub fn name(&self) -> (r: &str)
        ensures
            r@ == self.name@,
    {
        self.name.as_str()
    }

    /// The file extensions registered for the file type.
    pub fn extensions(&self) -> (r: &[String])
        ensures
            r@ == self.extensions@,
    {
        self.extensions.as_slice()
    }

    /// The media types registered for the file type.
    pub fn media_types(&self) -> (r: &[String])
        ensures
            r@ == self.media_types@,
    {
        self.media_types.as_slice()
    }

    /// Whether `extension` is one of the extensions registered for the file
    /// type (compared exactly, case included).
    pub fn has_extension(&self, extension: &str) -> (r: bool)
        ensures
            r == string_views(self.extensions@).contains(extension@),
            r <==> exists|i: int|
                0 <= i < self.extensions@.len() && (#[trigger] self.extensions@[i])@
                    == extension@,
    {
        let wanted = extension.to_owned();
        for i in 0..self.extensions.len()
            invariant
                wanted@ == extension@,
                forall|j: int| 0 <= j < i ==> string_views(self.extensions@)[j] != extension@,
        {
            if self.extensions[i] == wanted {
                assert(string_views(self.extensions@)[i as int] == extension@);
                assert(self.extensions@[i as int]@ == extension@);
                return true;
            }
        }
        proof {
            assert forall|i: int| 0 <= i < self.extensions@.len() implies (
            #[trigger] self.extensions@[i])@ != extension@ by {
                assert(string_views(self.extensions@)[i] == self.extensions@[i]@);
            }
        }
        false
    }
}

/// The extension the content was found under is given and is not one that
/// the detected file type lists: the case in which detection warns.
pub open spec fn is_extension_mismatch(file_type: FileTypeInfo, extension: Option<Seq<char>>) -> bool {
    extension matches Some(e) && !string_views(file_type.extensions@).contains(e)
}

/// Whether a detection result disagrees with the extension the content was
/// found under, so that the signature overrules the extension and a warning
/// is due.
pub fn extension_mismatch(file_type: &FileTypeInfo, extension: Option<&str>) -> (r: bool)
    ensures
        extension is None ==> !r,
        extension matches Some(e) ==> (r <==> forall|i: int|
            0 <= i < file_type.extensions@.len() ==> (#[trigger] file_type.extensions@[i])@
                != e@),
        r == is_extension_mismatch(
            *file_type,
            match extension {
                Some(e) => Some(e@),
                None => None,
            },
        ),
{
    match extension {
        Some(e) => !file_type.has_extension(e),
        None => false,
    }
}

/// Law: detection warns for a given extension exactly when none of the
/// extensions the file type lists, whichever its position, equals it, and
/// never when no extension is given.
pub proof fn lemma_mismatch_iff_unlisted(file_type: FileTypeInfo, e: Seq<char>)
    ensures
        !is_extension_mismatch(file_type, None),
        is_extension_mismatch(file_type, Some(e)) <==> forall|i: int|
            0 <= i < file_type.extensions@.len() ==> (#[trigger] file_type.extensions@[i])@ != e,
{
    let v = string_views(file_type.extensions@);
    if is_extension_mismatch(file_type, Some(e)) {
        assert forall|i: int| 0 <= i < file_type.extensions@.len() implies (
        #[trigger] file_type.extensions@[i])@ != e by {
            assert(v[i] == file_type.extensions@[i]@);
        }
    }
    if forall|i: int|
        0 <= i < file_type.extensions@.len() ==> (#[trigger] file_type.extensions@[i])@ != e {
        if v.contains(e) {
            let j = choose|j: int| 0 <= j < v.len() && v[j] == e;
            assert(v[j] == file_type.extensions@[j]@);
        }
    }
}

} // verus!
