//! A file name as a sequence of dot-separated segments: splitting at every
//! dot, joining with dots, and how the two undo each other.
use vstd::prelude::*;

verus! {

/// `s` split at every `'.'`: the segments between the dots, in order. There
/// is always at least one segment; the text before the first dot is the first.
pub open spec fn split_dot(s: Seq<char>) -> Seq<Seq<char>>
    decreases s.len(),
{
    if s.len() == 0 {
        seq![Seq::<char>::empty()]
    } else {
        let prev = split_dot(s.drop_last());
        if s.last() == '.' {
            prev.push(Seq::<char>::empty())
        } else {
            prev.update(prev.len() - 1, prev.last().push(s.last()))
        }
    }
}

/// `parts` joined with a `'.'` between each two of them.
pub open spec fn join_dot(parts: Seq<Seq<char>>) -> Seq<char>
    decreases parts.len(),
{
    if parts.len() == 0 {
        Seq::<char>::empty()
    } else if parts.len() == 1 {
        parts[0]
    } else {
        join_dot(parts.drop_last()) + seq!['.'] + parts.last()
    }
}

/// `s` holds no dot.
pub open spec fn dot_free(s: Seq<char>) -> bool {
    forall|i: int| 0 <= i < s.len() ==> s[i] != '.'
}

/// Every segment of `parts` is dot-free.
pub open spec fn all_dot_free(parts: Seq<Seq<char>>) -> bool {
    forall|i: int| 0 <= i < parts.len() ==> dot_free(#[trigger] parts[i])
}

/// Splitting gives at least one segment, and no segment holds a dot.
pub proof fn lemma_split_shape(s: Seq<char>)
    ensures
        split_dot(s).len() >= 1,
        all_dot_free(split_dot(s)),
    decreases s.len(),
{
    if s.len() > 0 {
        lemma_split_shape(s.drop_last());
        let prev = split_dot(s.drop_last());
        if s.last() != '.' {
            let seg = prev.last().push(s.last());
            assert(dot_free(prev[prev.len() - 1]));
            assert(dot_free(seg));
            let next = prev.update(prev.len() - 1, seg);
            assert forall|i: int| 0 <= i < next.len() implies dot_free(#[trigger] next[i]) by {
                if i < next.len() - 1 {
                    assert(next[i] == prev[i]);
                }
            }
        } else {
            let next = prev.push(Seq::<char>::empty());
            assert forall|i: int| 0 <= i < next.len() implies dot_free(#[trigger] next[i]) by {
                if i < next.len() - 1 {
                    assert(next[i] == prev[i]);
                }
            }
        }
    } else {
        let r = split_dot(s);
        assert forall|i: int| 0 <= i < r.len() implies dot_free(#[trigger] r[i]) by {
            assert(r[i] =~= Seq::<char>::empty());
        }
    }
}

/// Joining a non-empty list with one more segment puts a dot before it.
pub proof fn lemma_join_push(parts: Seq<Seq<char>>, x: Seq<char>)
    requires
        parts.len() >= 1,
    ensures
        join_dot(parts.push(x)) == join_dot(parts) + seq!['.'] + x,
{
    assert(parts.push(x).drop_last() =~= parts);
}

/// Extending the last segment extends the joined text by the same characters.
proof fn lemma_join_extend_last(parts: Seq<Seq<char>>, x: Seq<char>)
    requires
        parts.len() >= 1,
    ensures
        join_dot(parts.update(parts.len() - 1, parts.last() + x)) == join_dot(parts) + x,
{
    let n = parts.len();
    let q = parts.update(n - 1, parts.last() + x);
    if n == 1 {
    } else {
        assert(q.drop_last() =~= parts.drop_last());
        assert(join_dot(q) == join_dot(parts.drop_last()) + seq!['.'] + (parts.last() + x));
        assert(join_dot(q) =~= join_dot(parts) + x);
    }
}

/// Joining the segments of `s` gives `s` back.
pub proof fn lemma_join_split(s: Seq<char>)
    ensures
        join_dot(split_dot(s)) == s,
    decreases s.len(),
{
    if s.len() > 0 {
        let t = s.drop_last();
        lemma_join_split(t);
        lemma_split_shape(t);
        let prev = split_dot(t);
        if s.last() == '.' {
            lemma_join_push(prev, Seq::<char>::empty());
            assert(s =~= t + seq!['.'] + Seq::<char>::empty());
        } else {
            lemma_join_extend_last(prev, seq![s.last()]);
            assert(prev.last() + seq![s.last()] =~= prev.last().push(s.last()));
            assert(s =~= t + seq![s.last()]);
        }
    }
}

/// Splitting `x` followed by dot-free text adds that text to the last segment.
pub proof fn lemma_split_append_dot_free(x: Seq<char>, b: Seq<char>)
    requires
        dot_free(b),
    ensures
        split_dot(x + b) == split_dot(x).update(
            split_dot(x).len() - 1,
            split_dot(x).last() + b,
        ),
    decreases b.len(),
{
    lemma_split_shape(x);
    let px = split_dot(x);
    if b.len() == 0 {
        assert(x + b =~= x);
        assert(px.last() + b =~= px.last());
        assert(px.update(px.len() - 1, px.last()) =~= px);
    } else {
        let b2 = b.drop_last();
        let c = b.last();
        assert(dot_free(b2));
        lemma_split_append_dot_free(x, b2);
        assert((x + b).drop_last() =~= x + b2);
        assert((x + b).last() == c);
        assert(c != '.') by {
            assert(b[b.len() - 1] != '.');
        }
        let p2 = split_dot(x + b2);
        assert(p2 == px.update(px.len() - 1, px.last() + b2));
        assert(p2.last() == px.last() + b2);
        assert((px.last() + b2).push(c) =~= px.last() + b);
        assert(p2.update(p2.len() - 1, p2.last().push(c)) =~= px.update(
            px.len() - 1,
            px.last() + b,
        ));
    }
}

/// Splitting the join of non-empty, dot-free segments gives those segments back.
pub proof fn lemma_split_join(parts: Seq<Seq<char>>)
    requires
        parts.len() >= 1,
        all_dot_free(parts),
    ensures
        split_dot(join_dot(parts)) == parts,
    decreases parts.len(),
{
    let n = parts.len();
    if n == 1 {
        let e = Seq::<char>::empty();
        assert(dot_free(parts[0]));
        lemma_split_append_dot_free(e, parts[0]);
        assert(e + parts[0] =~= parts[0]);
        assert(split_dot(e) =~= seq![e]);
        assert(e + parts[0] =~= parts[0]);
        assert(split_dot(parts[0]) =~= parts);
    } else {
        let init = parts.drop_last();
        assert forall|i: int| 0 <= i < init.len() implies dot_free(#[trigger] init[i]) by {
            assert(init[i] == parts[i]);
        }
        lemma_split_join(init);
        let a = join_dot(init) + seq!['.'];
        assert(dot_free(parts[n - 1]));
        lemma_split_append_dot_free(a, parts.last());
        assert(a.drop_last() =~= join_dot(init));
        let pa = split_dot(a);
        assert(pa == init.push(Seq::<char>::empty()));
        assert(Seq::<char>::empty() + parts.last() =~= parts.last());
        assert(pa.update(pa.len() - 1, pa.last() + parts.last()) =~= parts);
    }
}

} // verus!

verus! {

/// The character sequences held by a list of segments.
pub open spec fn views_of(v: Seq<Vec<char>>) -> Seq<Seq<char>> {
    v.map_values(|x: Vec<char>| x@)
}

/// Splits `s` at every `'.'`.
pub fn split_at_dots(s: &Vec<char>) -> (r: Vec<Vec<char>>)
    ensures
        views_of(r@) == split_dot(s@),
{
    let mut done: Vec<Vec<char>> = Vec::new();
    let mut cur: Vec<char> = Vec::new();
    proof {
        assert(s@.take(0) =~= Seq::<char>::empty());
        assert(views_of(done@).push(cur@) =~= split_dot(s@.take(0)));
    }
    for i in 0..s.len()
        invariant
            views_of(done@).push(cur@) == split_dot(s@.take(i as int)),
    {
        let c = s[i];
        let ghost before = views_of(done@);
        let ghost cur_before = cur@;
        proof {
            assert(s@.take(i + 1).drop_last() =~= s@.take(i as int));
            assert(s@.take(i + 1).last() == c);
        }
        if c == '.' {
            let finished = cur;
            done.push(finished);
            cur = Vec::new();
            proof {
                assert(views_of(done@) =~= before.push(cur_before));
                assert(views_of(done@).push(cur@) =~= before.push(cur_before).push(
                    Seq::<char>::empty(),
                ));
            }
        } else {
            cur.push(c);
            proof {
                assert(views_of(done@) == before);
                assert(views_of(done@).push(cur@) =~= before.push(cur_before).update(
                    before.len() as int,
                    cur_before.push(c),
                ));
            }
        }
    }
    assert(s@.take(s.len() as int) =~= s@);
    let ghost before = views_of(done@);
    done.push(cur);
    assert(views_of(done@) =~= before.push(cur@));
    done
}

} // verus!
