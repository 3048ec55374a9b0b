//! The default file-type detector: the file type is decided by the content's
//! signature; an extension is a hint that never overrides it.
use std::borrow::Cow;
use vstd::prelude::*;

use super::signature_scan::file_type_scan_overruns;
use super::{Error, FileTypeInfo, InputKind};
use crate::segments::dot_free;
use crate::text::{
    chars_of, clean, clean_chars, lemma_clean_is_clean, lemma_clean_output_chars, push_char,
    push_chars,
};

verus! {

/// The file type that `file_type::FileType::from_bytes` finds for `bytes`,
/// as (identifier, name, extensions, media types).
pub uninterp spec fn file_type_of_bytes(bytes: Seq<u8>) -> (
    usize,
    Seq<char>,
    Seq<Seq<char>>,
    Seq<Seq<char>>,
);

/// Detects the file type of `bytes` from their signature.
///
/// Calls `file_type::FileType::from_bytes`, which looks `bytes` up in the
/// crate's static signature tables and returns a file type (an unidentified
/// one where nothing matches). On the inputs of `file_type_scan_overruns` its
/// scanner slices past the end of `bytes` and panics; `requires` leaves them
/// out. The contract only names the result as a function of `bytes`; which
/// type that is is not stated.
#[verifier::external_body]
fn file_type_from_bytes(bytes: &[u8]) -> (r: FileTypeInfo)
    requires
        !file_type_scan_overruns(bytes@),
    ensures
        r@ == file_type_of_bytes(bytes@),
{
    let found = file_type::FileType::from_bytes(bytes);
    FileTypeInfo {
        id: found.id(),
        name: found.name().to_string(),
        extensions: found.extensions().iter().map(|e| e.to_string()).collect(),
        media_types: found.media_types().iter().map(|m| m.to_string()).collect(),
    }
}

/// Detects the file type of `bytes`. The signature decides; `_extension`, the
/// extension the content was found under, does not change the result. The
/// inputs on which the signature scan reads past their end are left out; a
/// caller tests them with `file_type_scan_overruns_on`.
pub fn detect_file_type(bytes: &[u8], _extension: Option<&str>) -> (r: FileTypeInfo)
    requires
        !file_type_scan_overruns(bytes@),
    ensures
        r@ == file_type_of_bytes(bytes@),
{
    file_type_from_bytes(bytes)
}

/// The detector that reads the content's signature.
#[derive(Debug, Clone, Copy, PartialEq, Eq, Structural)]
pub struct NormalFileTypeDetector;

impl NormalFileTypeDetector {
    /// The kinds of input this detector accepts: bytes and file paths.
    pub fn accepted_input_kinds(&self) -> (r: Vec<InputKind>)
        ensures
            r@ == seq![InputKind::Bytes, InputKind::Path],
    {
        let mut r = Vec::new();
        r.push(InputKind::Bytes);
        r.push(InputKind::Path);
        r
    }

    /// Detects the file type of `input`; on the inputs it is defined for, this
    /// never fails.
    pub fn detect(&self, input: &[u8], extension: Option<&str>) -> (r: Result<FileTypeInfo, Error>)
        requires
            !file_type_scan_overruns(input@),
        ensures
            r matches Ok(t) && t@ == file_type_of_bytes(input@),
    {
        Ok(detect_file_type(input, extension))
    }
}

/// `i` is the position of the first dot of `s`.
pub open spec fn is_first_dot(s: Seq<char>, i: int) -> bool {
    0 <= i < s.len() && s[i] == '.' && dot_free(s.take(i))
}

/// `s` with everything after its first dot cleaned, dots kept: characters
/// other than ASCII letters, digits and dots are removed and letters
/// lower-cased. A name without a dot is left as it is.
pub open spec fn lenient_normalized_name(s: Seq<char>) -> Seq<char> {
    if exists|i: int| is_first_dot(s, i) {
        let i = choose|i: int| is_first_dot(s, i);
        s.take(i) + seq!['.'] + clean(s.skip(i + 1), true)
    } else {
        s
    }
}

/// A name has at most one first dot.
proof fn lemma_first_dot_unique(s: Seq<char>, i: int, j: int)
    requires
        is_first_dot(s, i),
        is_first_dot(s, j),
    ensures
        i == j,
{
    if i < j {
        assert(s.take(j)[i] == s[i]);
    }
    if j < i {
        assert(s.take(i)[j] == s[j]);
    }
}

/// Normalizes the part of `filename` after its first dot: keeps ASCII
/// letters, digits and dots there and lower-cases them. A name without a dot
/// is handed back borrowed; any other comes back owned.
pub fn normalize_extension(filename: &str) -> (r: Cow<'_, str>)
    ensures
        r@ == lenient_normalized_name(filename@),
        (r is Borrowed) <==> dot_free(filename@),
{
    let chars = chars_of(filename);
    let mut i: usize = 0;
    while i < chars.len() && chars[i] != '.'
        invariant
            i <= chars.len(),
            chars@ == filename@,
            dot_free(chars@.take(i as int)),
        decreases chars.len() - i,
    {
        assert(chars@.take(i + 1) =~= chars@.take(i as int).push(chars@[i as int]));
        i = i + 1;
    }
    if i == chars.len() {
        assert(chars@.take(i as int) =~= chars@);
        return Cow::Borrowed(filename);
    }
    assert(is_first_dot(filename@, i as int));
    assert(!dot_free(filename@));
    let mut name: Vec<char> = Vec::new();
    for j in 0..i
        invariant
            i < chars.len(),
            name@ == chars@.take(j as int),
    {
        name.push(chars[j]);
        assert(chars@.take(j + 1) =~= chars@.take(j as int).push(chars@[j as int]));
    }
    let mut rest: Vec<char> = Vec::new();
    for j in i + 1..chars.len()
        invariant
            i < chars.len(),
            rest@ == chars@.subrange(i + 1, j as int),
    {
        rest.push(chars[j]);
        assert(chars@.subrange(i + 1, j + 1) =~= chars@.subrange(i + 1, j as int).push(
            chars@[j as int],
        ));
    }
    let cleaned = clean_chars(&rest, true);
    let mut out = String::new();
    push_chars(&mut out, &name);
    push_char(&mut out, '.');
    push_chars(&mut out, &cleaned);
    proof {
        let k = choose|k: int| is_first_dot(filename@, k);
        lemma_first_dot_unique(filename@, i as int, k);
        assert(chars@.subrange(i + 1, chars.len() as int) =~= chars@.skip(i + 1));
    }
    Cow::Owned(out)
}

/// Law: the lenient normalization is idempotent.
pub proof fn lemma_lenient_idempotent(s: Seq<char>)
    ensures
        lenient_normalized_name(lenient_normalized_name(s)) == lenient_normalized_name(s),
{
    if exists|i: int| is_first_dot(s, i) {
        let i = choose|i: int| is_first_dot(s, i);
        let c = clean(s.skip(i + 1), true);
        let r = s.take(i) + seq!['.'] + c;
        assert(r.take(i) =~= s.take(i));
        assert(is_first_dot(r, i));
        let k = choose|k: int| is_first_dot(r, k);
        lemma_first_dot_unique(r, i, k);
        assert(r.skip(i + 1) =~= c);
        lemma_clean_is_clean(s.skip(i + 1), true);
    }
}

/// Law: the lenient normalization leaves a name without a dot as it is; for
/// a name with a first dot at `k`, it keeps the text before that dot and the
/// dot itself, and everything after it consists only of lower-case ASCII
/// letters, the ASCII digits `'0'`..`'9'`, and dots.
pub proof fn lemma_lenient_shape(s: Seq<char>)
    ensures
        dot_free(s) ==> lenient_normalized_name(s) == s,
        forall|k: int|
            #[trigger] is_first_dot(s, k) ==> {
                let r = lenient_normalized_name(s);
                &&& k < r.len()
                &&& r.take(k) == s.take(k)
                &&& r[k] == '.'
                &&& forall|j: int|
                    k < j < r.len() ==> {
                        let c = #[trigger] r[j];
                        ('a' <= c && c <= 'z') || ('0' <= c && c <= '9') || c == '.'
                    }
            },
{
    if dot_free(s) {
        assert forall|i: int| !is_first_dot(s, i) by {
            if 0 <= i < s.len() {
                assert(s[i] != '.');
            }
        }
    }
    assert forall|k: int| #[trigger] is_first_dot(s, k) implies {
        let r = lenient_normalized_name(s);
        &&& k < r.len()
        &&& r.take(k) == s.take(k)
        &&& r[k] == '.'
        &&& forall|j: int|
            k < j < r.len() ==> {
                let c = #[trigger] r[j];
                ('a' <= c && c <= 'z') || ('0' <= c && c <= '9') || c == '.'
            }
    } by {
        let i = choose|i: int| is_first_dot(s, i);
        lemma_first_dot_unique(s, i, k);
        let c = clean(s.skip(k + 1), true);
        let r = s.take(k) + seq!['.'] + c;
        assert(r.take(k) =~= s.take(k));
        lemma_clean_output_chars(s.skip(k + 1), true);
        assert forall|j: int| k < j < r.len() implies {
            let ch = #[trigger] r[j];
            ('a' <= ch && ch <= 'z') || ('0' <= ch && ch <= '9') || ch == '.'
        } by {
            assert(r[j] == c[j - k - 1]);
        }
    }
}

} // verus!
