//! Characters and character sequences: the ASCII classes that file-name
//! normalization works with, and conversions between `str`, `String` and
//! `Vec<char>`.
use vstd::prelude::*;

verus! {

/// An ASCII letter (either case) or an ASCII digit.
pub open spec fn is_ascii_alnum(c: char) -> bool {
    ('a' <= c && c <= 'z') || ('A' <= c && c <= 'Z') || ('0' <= c && c <= '9')
}

/// An ASCII upper-case letter.
pub open spec fn is_ascii_upper(c: char) -> bool {
    'A' <= c && c <= 'Z'
}

/// The ASCII lower-case form of `c`; every other character is left as it is.
pub open spec fn ascii_lower(c: char) -> char {
    if is_ascii_upper(c) {
        ((c as u32) + 32) as char
    } else {
        c
    }
}

/// The characters that survive cleaning: ASCII letters and digits, and the dot
/// when `keep_dots` holds.
pub open spec fn is_kept_char(c: char, keep_dots: bool) -> bool {
    is_ascii_alnum(c) || (keep_dots && c == '.')
}

/// `p` with every character that is not kept removed and the rest lower-cased.
pub open spec fn clean(p: Seq<char>, keep_dots: bool) -> Seq<char> {
    p.filter(|c: char| is_kept_char(c, keep_dots)).map_values(|c: char| ascii_lower(c))
}

/// A character that cleaning leaves in place and unchanged.
pub open spec fn is_clean_char(c: char, keep_dots: bool) -> bool {
    is_kept_char(c, keep_dots) && ascii_lower(c) == c
}

/// Every character of `p` is one that cleaning leaves unchanged.
pub open spec fn is_clean(p: Seq<char>, keep_dots: bool) -> bool {
    forall|i: int| 0 <= i < p.len() ==> #[trigger] is_clean_char(p[i], keep_dots)
}

/// Tests whether `c` is an ASCII letter or digit.
pub(crate) fn ascii_alphanumeric(c: char) -> (r: bool)
    ensures
        r == is_ascii_alnum(c),
{
    ('a' <= c && c <= 'z') || ('A' <= c && c <= 'Z') || ('0' <= c && c <= '9')
}

/// The ASCII lower-case form of `c`.
pub(crate) fn ascii_lowercase(c: char) -> (r: char)
    ensures
        r == ascii_lower(c),
{
    if 'A' <= c && c <= 'Z' {
        ((c as u8) + 32) as char
    } else {
        c
    }
}

/// Lower-casing gives an ASCII letter or digit exactly when it is given one,
/// and lower-casing twice changes nothing more.
proof fn lemma_ascii_lower(c: char)
    ensures
        is_ascii_alnum(ascii_lower(c)) == is_ascii_alnum(c),
        ascii_lower(ascii_lower(c)) == ascii_lower(c),
        ascii_lower(c) == '.' <==> c == '.',
        !is_ascii_upper(ascii_lower(c)),
{
}

/// The characters of `s`, in order.
pub fn chars_of(s: &str) -> (r: Vec<char>)
    ensures
        r@ == s@,
{
    broadcast use vstd::string::group_string_axioms;

    let mut r: Vec<char> = Vec::new();
    for c in it: s.chars()
        invariant
            r.len() == it.index(),
            forall|j: int| 0 <= j < r.len() ==> r@[j] == it.seq()[j],
    {
        r.push(c);
    }
    assert(r@ =~= s@);
    r
}

/// Appends `c` to `s`.
///
/// Calls `String::push`, which std documents as appending the given `char` to
/// the end of the string; the contract says exactly that.
#[verifier::external_body]
pub(crate) fn push_char(s: &mut String, c: char)
    ensures
        final(s)@ == old(s)@.push(c),
{
    s.push(c);
}

/// Appends the characters of `v` to `s`.
pub(crate) fn push_chars(s: &mut String, v: &Vec<char>)
    ensures
        final(s)@ == old(s)@ + v@,
{
    let ghost start = s@;
    for i in 0..v.len()
        invariant
            s@ == start + v@.take(i as int),
    {
        push_char(s, v[i]);
        assert(v@.take(i + 1) =~= v@.take(i as int).push(v@[i as int]));
    }
    assert(v@.take(v.len() as int) =~= v@);
}

/// Whether `a` and `b` hold the same characters.
pub(crate) fn chars_equal(a: &Vec<char>, b: &Vec<char>) -> (r: bool)
    ensures
        r == (a@ == b@),
{
    if a.len() != b.len() {
        return false;
    }
    for i in 0..a.len()
        invariant
            a.len() == b.len(),
            forall|j: int| 0 <= j < i ==> a@[j] == b@[j],
    {
        if a[i] != b[i] {
            return false;
        }
    }
    assert(a@ =~= b@);
    true
}

/// The cleaning of one character: `Some` of its lower-case form when it is
/// kept, `None` when it is dropped.
proof fn lemma_clean_push(p: Seq<char>, c: char, keep_dots: bool)
    ensures
        clean(p.push(c), keep_dots) == if is_kept_char(c, keep_dots) {
            clean(p, keep_dots).push(ascii_lower(c))
        } else {
            clean(p, keep_dots)
        },
{
    let pred = |x: char| is_kept_char(x, keep_dots);
    reveal_with_fuel(Seq::filter, 1);
    assert(p.push(c).drop_last() =~= p);
    let f = p.filter(pred);
    if is_kept_char(c, keep_dots) {
        assert(p.push(c).filter(pred) == f.push(c));
        assert(f.push(c).map_values(|x: char| ascii_lower(x)) =~= f.map_values(
            |x: char| ascii_lower(x),
        ).push(ascii_lower(c)));
    } else {
        assert(p.push(c).filter(pred) == f);
    }
}

/// Cleans `p`: drops every character that is not kept and lower-cases the rest.
pub(crate) fn clean_chars(p: &Vec<char>, keep_dots: bool) -> (r: Vec<char>)
    ensures
        r@ == clean(p@, keep_dots),
{
    let mut r: Vec<char> = Vec::new();
    proof {
        reveal_with_fuel(Seq::filter, 1);
        assert(p@.take(0).filter(|x: char| is_kept_char(x, keep_dots)) =~= Seq::<char>::empty());
        assert(r@ =~= clean(p@.take(0), keep_dots));
    }
    for i in 0..p.len()
        invariant
            r@ == clean(p@.take(i as int), keep_dots),
    {
        let c = p[i];
        proof {
            assert(p@.take(i + 1) =~= p@.take(i as int).push(c));
            lemma_clean_push(p@.take(i as int), c, keep_dots);
        }
        if ascii_alphanumeric(c) || (keep_dots && c == '.') {
            r.push(ascii_lowercase(c));
        }
    }
    assert(p@.take(p.len() as int) =~= p@);
    r
}

/// What cleaning gives is clean, and so is left as it is by a second cleaning.
pub proof fn lemma_clean_is_clean(p: Seq<char>, keep_dots: bool)
    ensures
        is_clean(clean(p, keep_dots), keep_dots),
        clean(clean(p, keep_dots), keep_dots) == clean(p, keep_dots),
    decreases p.len(),
{
    if p.len() > 0 {
        lemma_clean_is_clean(p.drop_last(), keep_dots);
        assert(p =~= p.drop_last().push(p.last()));
        lemma_clean_push(p.drop_last(), p.last(), keep_dots);
        lemma_ascii_lower(p.last());
    } else {
        reveal_with_fuel(Seq::filter, 1);
        assert(clean(p, keep_dots) =~= Seq::<char>::empty());
    }
    lemma_clean_fixes_clean(clean(p, keep_dots), keep_dots);
}

/// Cleaning leaves a clean sequence as it is.
pub proof fn lemma_clean_fixes_clean(p: Seq<char>, keep_dots: bool)
    requires
        is_clean(p, keep_dots),
    ensures
        clean(p, keep_dots) == p,
    decreases p.len(),
{
    if p.len() > 0 {
        let q = p.drop_last();
        assert forall|i: int| 0 <= i < q.len() implies #[trigger] is_clean_char(q[i], keep_dots) by {
            assert(q[i] == p[i]);
        }
        lemma_clean_fixes_clean(q, keep_dots);
        assert(p =~= q.push(p.last()));
        assert(is_clean_char(p[p.len() - 1], keep_dots));
        lemma_clean_push(q, p.last(), keep_dots);
    } else {
        reveal_with_fuel(Seq::filter, 1);
        assert(clean(p, keep_dots) =~= p);
    }
}

/// Law: cleaning works one character at a time. The empty sequence cleans to
/// the empty sequence; appending a character appends, to the cleaned text,
/// the character itself when it is a lower-case ASCII letter, one of the ten
/// ASCII digits `'0'`..`'9'`, or (when dots are kept) a dot; its lower-case
/// form (32 code points on) when it is an upper-case ASCII letter; and
/// nothing for any other character.
pub proof fn lemma_clean_step(s: Seq<char>, c: char, keep_dots: bool)
    ensures
        clean(Seq::<char>::empty(), keep_dots) == Seq::<char>::empty(),
        clean(s.push(c), keep_dots) == clean(s, keep_dots) + if ('a' <= c && c <= 'z') || (
        '0' <= c && c <= '9') || (keep_dots && c == '.') {
            seq![c]
        } else if 'A' <= c && c <= 'Z' {
            seq![((c as u32) + 32) as char]
        } else {
            Seq::<char>::empty()
        },
{
    reveal_with_fuel(Seq::filter, 1);
    assert(clean(Seq::<char>::empty(), keep_dots) =~= Seq::<char>::empty());
    lemma_clean_push(s, c, keep_dots);
    let t = clean(s, keep_dots);
    if is_kept_char(c, keep_dots) {
        assert(t.push(ascii_lower(c)) =~= t + seq![ascii_lower(c)]);
    } else {
        assert(t + Seq::<char>::empty() =~= t);
    }
}

/// Law: what cleaning gives holds only lower-case ASCII letters, the ASCII
/// digits `'0'`..`'9'`, and dots where dots are kept.
pub proof fn lemma_clean_output_chars(s: Seq<char>, keep_dots: bool)
    ensures
        forall|i: int|
            0 <= i < clean(s, keep_dots).len() ==> {
                let c = #[trigger] clean(s, keep_dots)[i];
                ('a' <= c && c <= 'z') || ('0' <= c && c <= '9') || (keep_dots && c == '.')
            },
{
    lemma_clean_is_clean(s, keep_dots);
    let t = clean(s, keep_dots);
    assert forall|i: int| 0 <= i < t.len() implies {
        let c = #[trigger] t[i];
        ('a' <= c && c <= 'z') || ('0' <= c && c <= '9') || (keep_dots && c == '.')
    } by {
        assert(is_clean_char(t[i], keep_dots));
    }
}

/// Law: a sequence of lower-case ASCII letters and ASCII digits `'0'`..`'9'`
/// (and dots, where dots are kept) is left as it is by cleaning.
pub proof fn lemma_clean_keeps_lower_alnum(s: Seq<char>, keep_dots: bool)
    requires
        forall|i: int|
            0 <= i < s.len() ==> {
                let c = #[trigger] s[i];
                ('a' <= c && c <= 'z') || ('0' <= c && c <= '9') || (keep_dots && c == '.')
            },
    ensures
        clean(s, keep_dots) == s,
    decreases s.len(),
{
    if s.len() == 0 {
        lemma_clean_step(s, 'a', keep_dots);
        assert(s =~= Seq::<char>::empty());
    } else {
        let t = s.drop_last();
        assert forall|i: int| 0 <= i < t.len() implies {
            let c = #[trigger] t[i];
            ('a' <= c && c <= 'z') || ('0' <= c && c <= '9') || (keep_dots && c == '.')
        } by {
            assert(t[i] == s[i]);
        }
        lemma_clean_keeps_lower_alnum(t, keep_dots);
        let c = s[s.len() - 1];
        lemma_clean_step(t, c, keep_dots);
        assert(t.push(c) =~= s);
        assert(t + seq![c] =~= s);
    }
}

} // verus!
