//! The inputs on which the signature scan of `file_type` reads past the end
//! of the bytes.
//!
//! Three signatures of the PRONOM tables (two "Windows Portable Executable"
//! formats and "Asymetrix Toolbook File") end their PE header with a
//! two-byte range token. The scanner checks only that one byte is left before
//! it takes two, so when the header ends one byte before the end of the input
//! the scan fails with an out-of-bounds slice. The scan reaches these
//! signatures only for inputs whose first eight bytes are `MZ` and six zero
//! bytes, and only while no earlier header position completed a match.
use vstd::prelude::*;

verus! {

/// The first eight bytes of `b` are `MZ` and six zero bytes, the lookup key
/// under which the PE signatures are filed.
pub open spec fn has_bare_mz_key(b: Seq<u8>) -> bool {
    &&& b.len() >= 8
    &&& b[0] == 0x4D && b[1] == 0x5A
    &&& b[2] == 0 && b[3] == 0 && b[4] == 0 && b[5] == 0 && b[6] == 0 && b[7] == 0
}

/// A PE header begins at `p`: `PE\0\0`, twenty bytes, then `0x0B` and the
/// optional-header byte `v`, and the sixty-six bytes after them are present.
pub open spec fn is_pe_header_at(b: Seq<u8>, p: int, v: u8) -> bool {
    &&& 0 <= p
    &&& p + 92 <= b.len()
    &&& b[p] == 0x50 && b[p + 1] == 0x45 && b[p + 2] == 0 && b[p + 3] == 0
    &&& b[p + 24] == 0x0B && b[p + 25] == v
}

/// The two bytes after the PE header at `p` are present and lie between
/// `00 00` and `10 00`, compared as a byte string.
pub open spec fn has_version_in_range_at(b: Seq<u8>, p: int) -> bool {
    &&& p + 94 <= b.len()
    &&& (b[p + 92] < 0x10 || (b[p + 92] == 0x10 && b[p + 93] == 0))
}

/// The UTF-16 text `Toolbook` (or `ToolBook`) begins at `q`.
pub open spec fn is_toolbook_name_at(b: Seq<u8>, q: int) -> bool {
    &&& 0 <= q
    &&& q + 16 <= b.len()
    &&& b[q] == 0x54 && b[q + 1] == 0 && b[q + 2] == 0x6F && b[q + 3] == 0
    &&& b[q + 4] == 0x6F && b[q + 5] == 0 && b[q + 6] == 0x6C && b[q + 7] == 0
    &&& (b[q + 8] == 0x42 || b[q + 8] == 0x62)
    &&& b[q + 9] == 0 && b[q + 10] == 0x6F && b[q + 11] == 0 && b[q + 12] == 0x6F
    &&& b[q + 13] == 0 && b[q + 14] == 0x6B && b[q + 15] == 0
}

/// The scan of the signatures with optional-header byte `v` completes a
/// match at header position `p`, and so looks at no later position: for
/// `0x02` a header with its version bytes in range; for `0x01` also the
/// Toolbook name somewhere after it, the longest of the signatures with
/// that byte.
pub open spec fn scan_stops_at(b: Seq<u8>, p: int, v: u8) -> bool {
    &&& is_pe_header_at(b, p, v)
    &&& has_version_in_range_at(b, p)
    &&& (v == 0x02 || exists|q: int| p + 93 <= q && #[trigger] is_toolbook_name_at(b, q))
}

/// `file_type::FileType::from_bytes` reads past the end of `b`: `b` has the
/// bare `MZ` key, is between 221 and 128720 bytes long, a PE header with
/// optional-header byte `0x01` or `0x02` ends one byte before its end, and
/// the scan completed no match at any earlier header position from 128 on.
pub open spec fn file_type_scan_overruns(b: Seq<u8>) -> bool {
    let p0 = b.len() - 93;
    &&& has_bare_mz_key(b)
    &&& 221 <= b.len() <= 128720
    &&& (b[p0 + 25] == 0x01 || b[p0 + 25] == 0x02)
    &&& is_pe_header_at(b, p0, b[p0 + 25])
    &&& forall|p: int| 128 <= p < p0 ==> !#[trigger] scan_stops_at(b, p, b[p0 + 25])
}

/// The last position at which the UTF-16 text `Toolbook` begins.
fn last_toolbook_name(b: &[u8]) -> (r: Option<usize>)
    ensures
        r matches Some(q) ==> is_toolbook_name_at(b@, q as int) && forall|q2: int|
            q < q2 ==> !#[trigger] is_toolbook_name_at(b@, q2),
        r is None ==> forall|q2: int| !#[trigger] is_toolbook_name_at(b@, q2),
{
    let mut last: Option<usize> = None;
    let n = b.len();
    if n < 16 {
        return None;
    }
    for q in 0..n - 15
        invariant
            n == b.len(),
            n >= 16,
            last matches Some(l) ==> l < q && is_toolbook_name_at(b@, l as int) && forall|q2: int|
                l < q2 < q ==> !#[trigger] is_toolbook_name_at(b@, q2),
            last is None ==> forall|q2: int| 0 <= q2 < q ==> !#[trigger] is_toolbook_name_at(
                b@,
                q2,
            ),
    {
        if b[q] == 0x54 && b[q + 1] == 0 && b[q + 2] == 0x6F && b[q + 3] == 0 && b[q + 4] == 0x6F
            && b[q + 5] == 0 && b[q + 6] == 0x6C && b[q + 7] == 0 && (b[q + 8] == 0x42 || b[q + 8]
            == 0x62) && b[q + 9] == 0 && b[q + 10] == 0x6F && b[q + 11] == 0 && b[q + 12] == 0x6F
            && b[q + 13] == 0 && b[q + 14] == 0x6B && b[q + 15] == 0 {
            last = Some(q);
        }
    }
    last
}

/// Whether `file_type::FileType::from_bytes` would read past the end of
/// `bytes`; detection is only defined where it would not.
pub fn file_type_scan_overruns_on(bytes: &[u8]) -> (r: bool)
    ensures
        r == file_type_scan_overruns(bytes@),
{
    let n = bytes.len();
    if n < 221 || n > 128720 {
        return false;
    }
    if !(bytes[0] == 0x4D && bytes[1] == 0x5A && bytes[2] == 0 && bytes[3] == 0 && bytes[4] == 0
        && bytes[5] == 0 && bytes[6] == 0 && bytes[7] == 0) {
        return false;
    }
    let p0 = n - 93;
    let v = bytes[p0 + 25];
    if !(v == 0x01 || v == 0x02) {
        return false;
    }
    if !(bytes[p0] == 0x50 && bytes[p0 + 1] == 0x45 && bytes[p0 + 2] == 0 && bytes[p0 + 3] == 0
        && bytes[p0 + 24] == 0x0B) {
        return false;
    }
    let last = last_toolbook_name(bytes);
    for p in 128..p0
        invariant
            n == bytes.len(),
            221 <= n <= 128720,
            p0 == n - 93,
            v == bytes@[p0 + 25],
            last matches Some(l) ==> is_toolbook_name_at(bytes@, l as int) && forall|q2: int|
                l < q2 ==> !#[trigger] is_toolbook_name_at(bytes@, q2),
            last is None ==> forall|q2: int| !#[trigger] is_toolbook_name_at(bytes@, q2),
            forall|p2: int| 128 <= p2 < p ==> !#[trigger] scan_stops_at(bytes@, p2, v),
    {
        let header = bytes[p] == 0x50 && bytes[p + 1] == 0x45 && bytes[p + 2] == 0 && bytes[p + 3]
            == 0 && bytes[p + 24] == 0x0B && bytes[p + 25] == v;
        let in_range = bytes[p + 92] < 0x10 || (bytes[p + 92] == 0x10 && bytes[p + 93] == 0);
        let named = match last {
            Some(l) => p + 93 <= l,
            None => false,
        };
        proof {
            if exists|q: int| p + 93 <= q && #[trigger] is_toolbook_name_at(bytes@, q) {
                let q = choose|q: int| p + 93 <= q && #[trigger] is_toolbook_name_at(bytes@, q);
                assert(is_toolbook_name_at(bytes@, q));
            }
            if named {
                let l = last->0;
                assert(is_toolbook_name_at(bytes@, l as int));
            }
        }
        if header && in_range && (v == 0x02 || named) {
            assert(scan_stops_at(bytes@, p as int, v));
            return false;
        }
    }
    true
}

} // verus!
