//! Normalization of the extension chain of a file name: every extension is
//! stripped of all but ASCII letters and digits and lower-cased, extensions
//! left empty are dropped, and of repeated extensions only the last stays.
//! The stem, the text before the first dot, is kept as it is.
use std::borrow::Cow;
use vstd::prelude::*;

use crate::segments::{
    dot_free, join_dot, lemma_join_push, lemma_join_split, lemma_split_join,
    lemma_split_shape, split_at_dots, split_dot, views_of,
};
use crate::text::{
    chars_equal, chars_of, clean, clean_chars, is_clean, is_clean_char, lemma_clean_fixes_clean,
    lemma_clean_is_clean, lemma_clean_keeps_lower_alnum, push_char, push_chars,
};

verus! {

/// The extensions `parts[k..]` after normalization, in order: each one
/// cleaned, the empty ones dropped, and of equal ones only the last kept.
pub open spec fn kept_from(parts: Seq<Seq<char>>, k: int) -> Seq<Seq<char>>
    decreases parts.len() - k,
{
    if k < 0 || k >= parts.len() {
        Seq::<Seq<char>>::empty()
    } else {
        let rest = kept_from(parts, k + 1);
        let c = clean(parts[k], false);
        if c.len() == 0 || rest.contains(c) {
            rest
        } else {
            seq![c] + rest
        }
    }
}

/// Normalization alters one of the extensions `parts[k..]`: cleaning changes
/// it, leaves it empty, or it repeats a later one.
pub open spec fn changed_from(parts: Seq<Seq<char>>, k: int) -> bool
    decreases parts.len() - k,
{
    if k < 0 || k >= parts.len() {
        false
    } else {
        let c = clean(parts[k], false);
        c != parts[k] || c.len() == 0 || kept_from(parts, k + 1).contains(c) || changed_from(
            parts,
            k + 1,
        )
    }
}

/// The normalized form of the file name `name`: its stem, then its
/// normalized extensions, joined with dots.
pub open spec fn normalized_name(name: Seq<char>) -> Seq<char> {
    let parts = split_dot(name);
    join_dot(seq![parts[0]] + kept_from(parts, 1))
}

/// Normalization alters some extension of the file name `name`.
pub open spec fn normalization_changes(name: Seq<char>) -> bool {
    changed_from(split_dot(name), 1)
}

/// Whether `list` holds a segment with the characters of `c`.
fn contains_segment(list: &Vec<Vec<char>>, c: &Vec<char>) -> (r: bool)
    ensures
        r == views_of(list@).contains(c@),
{
    for i in 0..list.len()
        invariant
            forall|j: int| 0 <= j < i ==> views_of(list@)[j] != c@,
    {
        if chars_equal(&list[i], c) {
            assert(views_of(list@)[i as int] == c@);
            return true;
        }
    }
    false
}

/// When normalization alters no extension of `parts[k..]`, they are kept as
/// they are.
proof fn lemma_unchanged_kept(parts: Seq<Seq<char>>, k: int)
    requires
        0 <= k <= parts.len(),
        !changed_from(parts, k),
    ensures
        kept_from(parts, k) == parts.subrange(k, parts.len() as int),
    decreases parts.len() - k,
{
    if k < parts.len() {
        lemma_unchanged_kept(parts, k + 1);
        assert(seq![parts[k]] + parts.subrange(k + 1, parts.len() as int) =~= parts.subrange(
            k,
            parts.len() as int,
        ));
    } else {
        assert(parts.subrange(k, parts.len() as int) =~= Seq::<Seq<char>>::empty());
    }
}

/// A name none of whose extensions normalization alters is its own
/// normalized form.
proof fn lemma_unchanged_name(name: Seq<char>)
    requires
        !normalization_changes(name),
    ensures
        normalized_name(name) == name,
{
    let parts = split_dot(name);
    lemma_split_shape(name);
    lemma_unchanged_kept(parts, 1);
    assert(seq![parts[0]] + parts.subrange(1, parts.len() as int) =~= parts);
    lemma_join_split(name);
}

/// Normalizes the extension chain of `filename`.
///
/// Every extension loses all characters but ASCII letters and digits and is
/// lower-cased; extensions left empty are dropped, and of extensions that are
/// equal after this only the last one stays. The stem is kept as it is. Where
/// nothing changes, `filename` itself is handed back borrowed.
pub fn normalize_extension(filename: &str) -> (r: Cow<'_, str>)
    ensures
        r@ == normalized_name(filename@),
        (r is Borrowed) <==> !normalization_changes(filename@),
{
    let chars = chars_of(filename);
    let parts = split_at_dots(&chars);
    let ghost p = views_of(parts@);
    proof {
        lemma_split_shape(chars@);
    }
    let mut kept: Vec<Vec<char>> = Vec::new();
    let mut changed = false;
    let mut i = parts.len();
    assert(views_of(kept@) =~= kept_from(p, i as int));
    while i > 1
        invariant
            p == views_of(parts@),
            p == split_dot(filename@),
            1 <= i <= parts.len(),
            views_of(kept@) == kept_from(p, i as int),
            changed == changed_from(p, i as int),
        decreases i,
    {
        i = i - 1;
        let normalized = clean_chars(&parts[i], false);
        assert(p[i as int] == parts@[i as int]@);
        if !chars_equal(&normalized, &parts[i]) {
            changed = true;
        }
        if normalized.len() == 0 {
            changed = true;
        } else if contains_segment(&kept, &normalized) {
            changed = true;
        } else {
            let ghost before = views_of(kept@);
            kept.insert(0, normalized);
            assert(views_of(kept@) =~= seq![normalized@] + before);
        }
    }
    if !changed {
        proof {
            lemma_unchanged_name(filename@);
        }
        return Cow::Borrowed(filename);
    }
    let ghost k = views_of(kept@);
    let mut out = String::new();
    push_chars(&mut out, &parts[0]);
    assert(seq![p[0]] + k.take(0) =~= seq![p[0]]);
    for j in 0..kept.len()
        invariant
            k == views_of(kept@),
            p == views_of(parts@),
            parts.len() >= 1,
            out@ == join_dot(seq![p[0]] + k.take(j as int)),
    {
        push_char(&mut out, '.');
        push_chars(&mut out, &kept[j]);
        proof {
            let front = seq![p[0]] + k.take(j as int);
            lemma_join_push(front, k[j as int]);
            assert(front.push(k[j as int]) =~= seq![p[0]] + k.take(j + 1));
            assert(out@ =~= join_dot(front) + seq!['.'] + k[j as int]);
        }
    }
    assert(k.take(kept.len() as int) =~= k);
    Cow::Owned(out)
}

/// What normalization keeps of `parts[k..]`: no more segments than there
/// are, each non-empty and clean, no two equal, and exactly the non-empty
/// cleanings of those segments.
proof fn lemma_kept_props(parts: Seq<Seq<char>>, k: int)
    requires
        0 <= k <= parts.len(),
    ensures
        kept_from(parts, k).len() <= parts.len() - k,
        forall|i: int|
            0 <= i < kept_from(parts, k).len() ==> (#[trigger] kept_from(parts, k)[i]).len() > 0
                && is_clean(kept_from(parts, k)[i], false),
        forall|i: int, j: int|
            0 <= i < j < kept_from(parts, k).len() ==> kept_from(parts, k)[i] != kept_from(
                parts,
                k,
            )[j],
        forall|c: Seq<char>|
            #[trigger] kept_from(parts, k).contains(c) <==> (c.len() > 0 && exists|j: int|
                k <= j < parts.len() && clean(parts[j], false) == c),
    decreases parts.len() - k,
{
    let kept = kept_from(parts, k);
    if k < parts.len() {
        lemma_kept_props(parts, k + 1);
        let rest = kept_from(parts, k + 1);
        let c0 = clean(parts[k], false);
        lemma_clean_is_clean(parts[k], false);
        assert forall|c: Seq<char>| #[trigger]
            kept.contains(c) <==> (c.len() > 0 && exists|j: int|
                k <= j < parts.len() && clean(parts[j], false) == c) by {
            if kept.contains(c) {
                if rest.contains(c) {
                    let j = choose|j: int| k + 1 <= j < parts.len() && clean(parts[j], false) == c;
                    assert(k <= j < parts.len() && clean(parts[j], false) == c);
                } else {
                    assert(c == c0);
                }
            }
            if c.len() > 0 && exists|j: int| k <= j < parts.len() && clean(parts[j], false) == c {
                let j = choose|j: int| k <= j < parts.len() && clean(parts[j], false) == c;
                if j == k {
                    if !(c0.len() == 0 || rest.contains(c0)) {
                        assert(kept[0] == c);
                    }
                } else {
                    assert(rest.contains(c));
                    if !(c0.len() == 0 || rest.contains(c0)) {
                        let i = choose|i: int| 0 <= i < rest.len() && rest[i] == c;
                        assert(kept[i + 1] == c);
                    }
                }
            }
        }
        if !(c0.len() == 0 || rest.contains(c0)) {
            assert forall|i: int, j: int| 0 <= i < j < kept.len() implies kept[i] != kept[j] by {
                if i == 0 {
                    assert(kept[j] == rest[j - 1]);
                    if kept[i] == kept[j] {
                        assert(rest.contains(c0));
                    }
                } else {
                    assert(kept[i] == rest[i - 1]);
                    assert(kept[j] == rest[j - 1]);
                }
            }
            assert forall|i: int| 0 <= i < kept.len() implies (#[trigger] kept[i]).len() > 0
                && is_clean(kept[i], false) by {
                if i > 0 {
                    assert(kept[i] == rest[i - 1]);
                }
            }
        }
    }
}

/// The cleaned characters hold no dot.
proof fn lemma_clean_dot_free(e: Seq<char>)
    requires
        is_clean(e, false),
    ensures
        dot_free(e),
{
    assert forall|i: int| 0 <= i < e.len() implies e[i] != '.' by {
        assert(is_clean_char(e[i], false));
    }
}

/// The segments of a normalized name: the stem followed by the kept
/// extensions.
proof fn lemma_split_normalized(name: Seq<char>)
    ensures
        split_dot(normalized_name(name)) == seq![split_dot(name)[0]] + kept_from(
            split_dot(name),
            1,
        ),
{
    let parts = split_dot(name);
    lemma_split_shape(name);
    lemma_kept_props(parts, 1);
    let kept = kept_from(parts, 1);
    let q = seq![parts[0]] + kept;
    assert forall|i: int| 0 <= i < q.len() implies dot_free(#[trigger] q[i]) by {
        if i == 0 {
            assert(dot_free(parts[0]));
        } else {
            assert(q[i] == kept[i - 1]);
            lemma_clean_dot_free(kept[i - 1]);
        }
    }
    lemma_split_join(q);
}

/// Segments from `k` on that are non-empty, clean and pairwise distinct are
/// kept as they are, and normalization alters none of them.
proof fn lemma_clean_distinct_unchanged(parts: Seq<Seq<char>>, k: int)
    requires
        0 <= k <= parts.len(),
        forall|i: int|
            k <= i < parts.len() ==> (#[trigger] parts[i]).len() > 0 && is_clean(parts[i], false),
        forall|i: int, j: int| k <= i < j < parts.len() ==> parts[i] != parts[j],
    ensures
        kept_from(parts, k) == parts.subrange(k, parts.len() as int),
        !changed_from(parts, k),
    decreases parts.len() - k,
{
    if k < parts.len() {
        lemma_clean_distinct_unchanged(parts, k + 1);
        lemma_clean_fixes_clean(parts[k], false);
        let rest = parts.subrange(k + 1, parts.len() as int);
        if rest.contains(parts[k]) {
            let j = choose|j: int| 0 <= j < rest.len() && rest[j] == parts[k];
            assert(parts[k + 1 + j] == parts[k]);
        }
        assert(seq![parts[k]] + rest =~= parts.subrange(k, parts.len() as int));
    } else {
        assert(parts.subrange(k, parts.len() as int) =~= Seq::<Seq<char>>::empty());
    }
}

/// When the kept segments are the segments themselves, normalization alters
/// none of them.
proof fn lemma_kept_all_unchanged(parts: Seq<Seq<char>>, k: int)
    requires
        0 <= k <= parts.len(),
        kept_from(parts, k) == parts.subrange(k, parts.len() as int),
    ensures
        !changed_from(parts, k),
    decreases parts.len() - k,
{
    if k < parts.len() {
        lemma_kept_props(parts, k + 1);
        let rest = kept_from(parts, k + 1);
        let c = clean(parts[k], false);
        if c.len() == 0 || rest.contains(c) {
            assert(kept_from(parts, k).len() == parts.len() - k);
        } else {
            assert(kept_from(parts, k)[0] == parts[k]);
            assert(rest =~= kept_from(parts, k).subrange(1, parts.len() - k));
            assert(rest =~= parts.subrange(k + 1, parts.len() as int));
            lemma_kept_all_unchanged(parts, k + 1);
        }
    }
}

/// Law: normalization alters some extension of a file name exactly when the
/// normalized name differs from the name; so `normalize_extension` hands the
/// name back borrowed exactly when it is already normalized.
pub proof fn lemma_unchanged_iff_same(name: Seq<char>)
    ensures
        !normalization_changes(name) <==> normalized_name(name) == name,
{
    if !normalization_changes(name) {
        lemma_unchanged_name(name);
    }
    if normalized_name(name) == name {
        let parts = split_dot(name);
        lemma_split_shape(name);
        lemma_split_normalized(name);
        let kept = kept_from(parts, 1);
        assert(parts == seq![parts[0]] + kept);
        assert(kept =~= parts.subrange(1, parts.len() as int));
        lemma_kept_all_unchanged(parts, 1);
    }
}

/// Law: normalization is idempotent; a normalized name is left as it is,
/// and normalization finds nothing in it to alter.
pub proof fn lemma_normalize_idempotent(name: Seq<char>)
    ensures
        normalized_name(normalized_name(name)) == normalized_name(name),
        !normalization_changes(normalized_name(name)),
{
    let parts = split_dot(name);
    lemma_split_shape(name);
    lemma_kept_props(parts, 1);
    lemma_split_normalized(name);
    let kept = kept_from(parts, 1);
    let q = seq![parts[0]] + kept;
    assert forall|i: int| 1 <= i < q.len() implies (#[trigger] q[i]).len() > 0 && is_clean(
        q[i],
        false,
    ) by {
        assert(q[i] == kept[i - 1]);
    }
    assert forall|i: int, j: int| 1 <= i < j < q.len() implies q[i] != q[j] by {
        assert(q[i] == kept[i - 1]);
        assert(q[j] == kept[j - 1]);
    }
    lemma_clean_distinct_unchanged(q, 1);
    lemma_unchanged_name(normalized_name(name));
}

/// Law: normalization keeps the stem, and the extensions of the normalized
/// name are non-empty, consist of lower-case ASCII letters and digits, are
/// pairwise distinct, and are exactly the non-empty cleanings of the
/// original extensions.
pub proof fn lemma_normalized_extensions(name: Seq<char>)
    ensures
        split_dot(normalized_name(name))[0] == split_dot(name)[0],
        forall|i: int|
            1 <= i < split_dot(normalized_name(name)).len() ==> (#[trigger] split_dot(
                normalized_name(name),
            )[i]).len() > 0 && is_clean(split_dot(normalized_name(name))[i], false),
        forall|i: int, j: int|
            1 <= i < j < split_dot(normalized_name(name)).len() ==> split_dot(
                normalized_name(name),
            )[i] != split_dot(normalized_name(name))[j],
        forall|c: Seq<char>|
            #[trigger] split_dot(normalized_name(name)).subrange(
                1,
                split_dot(normalized_name(name)).len() as int,
            ).contains(c) <==> (c.len() > 0 && exists|j: int|
                1 <= j < split_dot(name).len() && clean(split_dot(name)[j], false) == c),
{
    let parts = split_dot(name);
    lemma_split_shape(name);
    lemma_kept_props(parts, 1);
    lemma_split_normalized(name);
    let kept = kept_from(parts, 1);
    let out = split_dot(normalized_name(name));
    assert(out.subrange(1, out.len() as int) =~= kept);
    assert forall|i: int| 1 <= i < out.len() implies (#[trigger] out[i]).len() > 0 && is_clean(
        out[i],
        false,
    ) by {
        assert(out[i] == kept[i - 1]);
    }
    assert forall|i: int, j: int| 1 <= i < j < out.len() implies out[i] != out[j] by {
        assert(out[i] == kept[i - 1]);
        assert(out[j] == kept[j - 1]);
    }
}

/// Law: a file name whose extensions are all non-empty, made only of
/// lower-case ASCII letters and the ASCII digits `'0'`..`'9'`, and pairwise
/// distinct is already normalized: nothing in it is altered (so
/// `normalize_extension` hands it back borrowed) and its normalized form is
/// the name itself. Split-volume names such as `archive.7z.001` are of this
/// kind.
pub proof fn lemma_plain_extensions_unchanged(name: Seq<char>)
    requires
        forall|i: int, j: int|
            1 <= i < split_dot(name).len() && 0 <= j < split_dot(name)[i].len() ==> {
                let c = #[trigger] split_dot(name)[i][j];
                ('a' <= c && c <= 'z') || ('0' <= c && c <= '9')
            },
        forall|i: int| 1 <= i < split_dot(name).len() ==> (#[trigger] split_dot(name)[i]).len() > 0,
        forall|i: int, j: int|
            1 <= i < j < split_dot(name).len() ==> split_dot(name)[i] != split_dot(name)[j],
    ensures
        !normalization_changes(name),
        normalized_name(name) == name,
{
    let parts = split_dot(name);
    lemma_split_shape(name);
    assert forall|i: int| 1 <= i < parts.len() implies (#[trigger] parts[i]).len() > 0
        && is_clean(parts[i], false) by {
        let p = parts[i];
        assert forall|j: int| 0 <= j < p.len() implies {
            let c = #[trigger] p[j];
            ('a' <= c && c <= 'z') || ('0' <= c && c <= '9') || (false && c == '.')
        } by {
            assert(p[j] == split_dot(name)[i][j]);
        }
        assert forall|j: int| 0 <= j < p.len() implies #[trigger] is_clean_char(p[j], false) by {
            assert(p[j] == split_dot(name)[i][j]);
        }
    }
    lemma_clean_distinct_unchanged(parts, 1);
    lemma_unchanged_name(name);
}

/// No segment after `p` cleans to what the segment at `p` cleans to: `p` is
/// the last occurrence of its cleaning.
pub open spec fn is_last_cleaning(parts: Seq<Seq<char>>, p: int) -> bool {
    forall|r: int| p < r < parts.len() ==> clean(parts[r], false) != clean(parts[p], false)
}

/// The kept extensions of `parts[k..]` come in the order of the last
/// occurrences of their cleanings.
proof fn lemma_kept_order(parts: Seq<Seq<char>>, k: int)
    requires
        0 <= k <= parts.len(),
    ensures
        forall|i: int, j: int, p: int, q: int|
            0 <= i < j < kept_from(parts, k).len() && k <= p < parts.len() && k <= q
                < parts.len() && clean(parts[p], false) == #[trigger] kept_from(parts, k)[i]
                && clean(parts[q], false) == #[trigger] kept_from(parts, k)[j]
                && #[trigger] is_last_cleaning(parts, p) && #[trigger] is_last_cleaning(parts, q)
                ==> p < q,
    decreases parts.len() - k,
{
    if k < parts.len() {
        lemma_kept_order(parts, k + 1);
        lemma_kept_props(parts, k + 1);
        lemma_kept_props(parts, k);
        let kept = kept_from(parts, k);
        let rest = kept_from(parts, k + 1);
        let c0 = clean(parts[k], false);
        assert forall|i: int, j: int, p: int, q: int|
            0 <= i < j < kept.len() && k <= p < parts.len() && k <= q < parts.len() && clean(
                parts[p],
                false,
            ) == #[trigger] kept[i] && clean(parts[q], false) == #[trigger] kept[j]
                && #[trigger] is_last_cleaning(parts, p) && #[trigger] is_last_cleaning(
                parts,
                q,
            ) implies p < q by {
            if c0.len() == 0 || rest.contains(c0) {
                if p == k {
                    assert(rest.contains(kept[i]));
                    let r = choose|r: int| k + 1 <= r < parts.len() && clean(parts[r], false) == kept[i];
                    assert(clean(parts[r], false) != clean(parts[k], false));
                }
                if q == k {
                    assert(rest.contains(kept[j]));
                    let r = choose|r: int| k + 1 <= r < parts.len() && clean(parts[r], false) == kept[j];
                    assert(clean(parts[r], false) != clean(parts[k], false));
                }
                assert(clean(parts[p], false) == rest[i] && clean(parts[q], false) == rest[j]);
            } else {
                assert(kept[0] == c0);
                if i == 0 {
                    if p > k {
                        assert(rest.contains(c0));
                    }
                    if q == k {
                        assert(kept[j] == kept[0]);
                    }
                } else {
                    if p == k {
                        assert(kept[i] == kept[0]);
                    }
                    if q == k {
                        assert(kept[j] == kept[0]);
                    }
                    assert(kept[i] == rest[i - 1] && kept[j] == rest[j - 1]);
                    assert(clean(parts[p], false) == rest[i - 1]);
                    assert(clean(parts[q], false) == rest[j - 1]);
                }
            }
        }
    }
}

/// Law: of extensions that clean to the same text, the last one is the one
/// that stays: the extensions of the normalized name come in the order of
/// the last occurrences of their cleanings in the original name.
pub proof fn lemma_normalized_extensions_order(name: Seq<char>)
    ensures
        forall|i: int, j: int, p: int, q: int|
            1 <= i < j < split_dot(normalized_name(name)).len() && 1 <= p < split_dot(name).len()
                && 1 <= q < split_dot(name).len() && clean(split_dot(name)[p], false)
                == #[trigger] split_dot(normalized_name(name))[i] && clean(
                split_dot(name)[q],
                false,
            ) == #[trigger] split_dot(normalized_name(name))[j] && #[trigger] is_last_cleaning(
                split_dot(name),
                p,
            ) && #[trigger] is_last_cleaning(split_dot(name), q) ==> p < q,
{
    let parts = split_dot(name);
    lemma_split_shape(name);
    lemma_split_normalized(name);
    lemma_kept_order(parts, 1);
    let kept = kept_from(parts, 1);
    let out = split_dot(normalized_name(name));
    assert forall|i: int, j: int, p: int, q: int|
        1 <= i < j < out.len() && 1 <= p < parts.len() && 1 <= q < parts.len() && clean(
            parts[p],
            false,
        ) == #[trigger] out[i] && clean(parts[q], false) == #[trigger] out[j]
            && #[trigger] is_last_cleaning(parts, p) && #[trigger] is_last_cleaning(
            parts,
            q,
        ) implies p < q by {
        assert(out[i] == kept[i - 1] && out[j] == kept[j - 1]);
    }
}

} // verus!
