//! Slash-separated paths as text: joining, splitting into segments, and
//! resolving `.` and `..` so that a client's path stays inside its home.
use vstd::prelude::*;

use crate::text::{join, push_char, push_chars};

verus! {

/// `s` split at every `/` (empty segments included), like `str::split('/')`.
pub open spec fn segments(s: Seq<char>) -> Seq<Seq<char>>
    decreases s.len(),
{
    if s.len() == 0 {
        seq![seq![]]
    } else if s.last() == '/' {
        segments(s.drop_last()).push(seq![])
    } else {
        let p = segments(s.drop_last());
        p.update(p.len() - 1, p.last().push(s.last()))
    }
}

/// The segment `..`.
pub open spec fn parent_segment() -> Seq<char> {
    seq!['.', '.']
}

/// The segment `.`.
pub open spec fn current_segment() -> Seq<char> {
    seq!['.']
}

/// One step of path resolution: an empty or `.` segment is skipped, `..`
/// drops the last component kept so far (if any), anything else is kept.
pub open spec fn resolve_step(kept: Seq<Seq<char>>, seg: Seq<char>) -> Seq<Seq<char>> {
    if seg.len() == 0 || seg == current_segment() {
        kept
    } else if seg == parent_segment() {
        if kept.len() > 0 {
            kept.drop_last()
        } else {
            kept
        }
    } else {
        kept.push(seg)
    }
}

/// The components that remain of `segs` once `.` and `..` are resolved,
/// from left to right.
pub open spec fn resolve(segs: Seq<Seq<char>>) -> Seq<Seq<char>>
    decreases segs.len(),
{
    if segs.len() == 0 {
        seq![]
    } else {
        resolve_step(resolve(segs.drop_last()), segs.last())
    }
}

/// The normal components of a path: its segments with empty ones and `.`
/// dropped and each `..` cancelling the component before it.
pub open spec fn components(p: Seq<char>) -> Seq<Seq<char>> {
    resolve(segments(p))
}

/// `base` joined with `p` as `Path::join` does: an absolute `p` replaces
/// `base`; otherwise a `/` goes between them unless `base` is empty or already
/// ends in one.
pub open spec fn join_path(base: Seq<char>, p: Seq<char>) -> Seq<char> {
    if p.len() > 0 && p[0] == '/' {
        p
    } else if base.len() > 0 && base.last() != '/' {
        base + seq!['/'] + p
    } else {
        base + p
    }
}

/// A component that a resolved path can hold: nonempty, without `/`, and
/// neither `.` nor `..`.
pub open spec fn is_normal_component(c: Seq<char>) -> bool {
    &&& c.len() > 0
    &&& c != current_segment()
    &&& c != parent_segment()
    &&& forall|j: int| 0 <= j < c.len() ==> c[j] != '/'
}

/// What `Path::parent` gives for a path, named because its treatment of roots,
/// trailing separators and `.` takes the `Path` component rules to state.
pub uninterp spec fn path_parent(p: Seq<char>) -> Option<Seq<char>>;

/// The last of `segs` that is neither empty nor `.`, if any.
pub open spec fn last_named_segment(segs: Seq<Seq<char>>) -> Option<Seq<char>>
    decreases segs.len(),
{
    if segs.len() == 0 {
        None
    } else if segs.last().len() == 0 || segs.last() == current_segment() {
        last_named_segment(segs.drop_last())
    } else {
        Some(segs.last())
    }
}

/// What `Path::file_name` gives for a path: its last component when that is
/// a normal one. Empty and `.` segments are no components, so the last
/// segment that is neither is the last component; a path ending in `..`, or
/// with no such segment (the root, `.`, the empty path), has no file name.
pub open spec fn path_file_name(p: Seq<char>) -> Option<Seq<char>> {
    match last_named_segment(segments(p)) {
        Some(seg) => if seg == parent_segment() {
            None
        } else {
            Some(seg)
        },
        None => None,
    }
}

/// `Path::parent` of `p`.
#[verifier::external_body]
pub(crate) fn parent_of(p: &str) -> (r: Option<String>)
    ensures
        r matches Some(x) ==> path_parent(p@) == Some(x@),
        r is None ==> path_parent(p@) is None,
{
    std::path::Path::new(p).parent().map(|q| q.to_string_lossy().into_owned())
}

/// `Path::file_name` of `p`: its last component when that is a normal one
/// (see [`path_file_name`]).
#[verifier::external_body]
pub(crate) fn file_name_of(p: &str) -> (r: Option<String>)
    ensures
        r matches Some(x) ==> path_file_name(p@) == Some(x@),
        r is None ==> path_file_name(p@) is None,
{
    std::path::Path::new(p).file_name().map(|q| q.to_string_lossy().into_owned())
}

// ---------------------------------------------------------------------------
// Lemmas
// ---------------------------------------------------------------------------

pub proof fn lemma_segments_nonempty(s: Seq<char>)
    ensures
        segments(s).len() > 0,
    decreases s.len(),
{
    if s.len() > 0 {
        lemma_segments_nonempty(s.drop_last());
    }
}

/// No segment holds a `/`.
pub proof fn lemma_segments_slash_free(s: Seq<char>)
    ensures
        forall|k: int, j: int|
            0 <= k < segments(s).len() && 0 <= j < segments(s)[k].len() ==> segments(s)[k][j]
                != '/',
    decreases s.len(),
{
    if s.len() > 0 {
        lemma_segments_slash_free(s.drop_last());
        lemma_segments_nonempty(s.drop_last());
        let p = segments(s.drop_last());
        if s.last() != '/' {
            assert forall|k: int, j: int|
                0 <= k < segments(s).len() && 0 <= j < segments(s)[k].len() implies segments(
                s,
            )[k][j] != '/' by {
                if k == p.len() - 1 {
                    if j < p.last().len() {
                        assert(segments(s)[k][j] == p[k][j]);
                    }
                } else {
                    assert(segments(s)[k] == p[k]);
                }
            }
        } else {
            assert forall|k: int, j: int|
                0 <= k < segments(s).len() && 0 <= j < segments(s)[k].len() implies segments(
                s,
            )[k][j] != '/' by {
                if k < p.len() {
                    assert(segments(s)[k] == p[k]);
                }
            }
        }
    }
}

/// The segments of `x/y` are those of `x` followed by those of `y`.
pub proof fn lemma_segments_concat(x: Seq<char>, y: Seq<char>)
    ensures
        segments(x + seq!['/'] + y) == segments(x) + segments(y),
    decreases y.len(),
{
    let s = x + seq!['/'] + y;
    if y.len() == 0 {
        assert(s.drop_last() =~= x);
    } else {
        let y0 = y.drop_last();
        assert(s.drop_last() =~= x + seq!['/'] + y0);
        assert(s.last() == y.last());
        lemma_segments_concat(x, y0);
        if y.last() != '/' {
            lemma_segments_nonempty(y0);
            let a = segments(x);
            let q = segments(y0);
            let pq = a + q;
            assert(pq.update(pq.len() - 1, pq.last().push(y.last())) =~= a + q.update(
                q.len() - 1,
                q.last().push(y.last()),
            ));
        } else {
            assert((segments(x) + segments(y0)).push(seq![]) =~= segments(x) + segments(y0).push(
                seq![],
            ));
        }
    }
}

/// A slash-free text is a single segment.
pub proof fn lemma_segments_single(c: Seq<char>)
    requires
        forall|j: int| 0 <= j < c.len() ==> c[j] != '/',
    ensures
        segments(c) == seq![c],
    decreases c.len(),
{
    if c.len() > 0 {
        let c0 = c.drop_last();
        assert(c.last() == c[c.len() - 1]);
        assert forall|j: int| 0 <= j < c0.len() implies c0[j] != '/' by {
            assert(c0[j] == c[j]);
        }
        lemma_segments_single(c0);
        assert(c0.push(c.last()) =~= c);
        assert(seq![c0].update(0, c0.push(c.last())) =~= seq![c]);
    } else {
        assert(c =~= Seq::<char>::empty());
    }
}

/// Joining slash-free names with `/` gives a text whose segments are the
/// names.
pub proof fn lemma_segments_join(names: Seq<Seq<char>>)
    requires
        names.len() > 0,
        forall|k: int, j: int| 0 <= k < names.len() && 0 <= j < names[k].len() ==> names[k][j] != '/',
    ensures
        segments(join(names, seq!['/'])) == names,
    decreases names.len(),
{
    let last = names.last();
    assert forall|j: int| 0 <= j < last.len() implies last[j] != '/' by {
        assert(last[j] == names[names.len() - 1][j]);
    }
    lemma_segments_single(last);
    if names.len() > 1 {
        let d = names.drop_last();
        assert forall|k: int, j: int| 0 <= k < d.len() && 0 <= j < d[k].len() implies d[k][j]
            != '/' by {
            assert(d[k] == names[k]);
        }
        lemma_segments_join(d);
        lemma_segments_concat(join(d, seq!['/']), last);
        assert(d + seq![last] =~= names);
    } else {
        assert(seq![names[0]] =~= names);
    }
}

/// Normal components after any segments are all kept, in order.
pub proof fn lemma_resolve_keeps_normal(segs: Seq<Seq<char>>, names: Seq<Seq<char>>)
    requires
        forall|k: int| 0 <= k < names.len() ==> is_normal_component(#[trigger] names[k]),
    ensures
        resolve(segs + names) == resolve(segs) + names,
    decreases names.len(),
{
    if names.len() == 0 {
        assert(segs + names =~= segs);
        assert(resolve(segs) + names =~= resolve(segs));
    } else {
        let d = names.drop_last();
        assert forall|k: int| 0 <= k < d.len() implies is_normal_component(#[trigger] d[k]) by {
            assert(d[k] == names[k]);
        }
        lemma_resolve_keeps_normal(segs, d);
        let all = segs + names;
        assert(all.drop_last() =~= segs + d);
        assert(all.last() == names.last());
        let n = names.last();
        assert(is_normal_component(names[names.len() - 1]));
        assert(n.len() > 0 && n != current_segment() && n != parent_segment());
        assert((resolve(segs) + d).push(n) =~= resolve(segs) + names);
    }
}

/// Resolution keeps only normal components of the segments it is given.
pub proof fn lemma_resolve_normal(segs: Seq<Seq<char>>)
    requires
        forall|k: int, j: int| 0 <= k < segs.len() && 0 <= j < segs[k].len() ==> segs[k][j] != '/',
    ensures
        forall|k: int| 0 <= k < resolve(segs).len() ==> is_normal_component(#[trigger] resolve(segs)[k]),
    decreases segs.len(),
{
    if segs.len() > 0 {
        let prev = resolve(segs.drop_last());
        assert forall|k: int, j: int|
            0 <= k < segs.drop_last().len() && 0 <= j < segs.drop_last()[k].len() implies segs.drop_last()[k][j]
                != '/' by {
            assert(segs.drop_last()[k] == segs[k]);
        }
        lemma_resolve_normal(segs.drop_last());
        let seg = segs.last();
        assert(forall|j: int| 0 <= j < seg.len() ==> seg[j] != '/') by {
            assert forall|j: int| 0 <= j < seg.len() implies seg[j] != '/' by {
                assert(seg == segs[segs.len() - 1]);
            }
        }
        let r = resolve(segs);
        assert forall|k: int| 0 <= k < r.len() implies is_normal_component(#[trigger] r[k]) by {
            if seg.len() == 0 || seg == current_segment() {
            } else if seg == parent_segment() {
                if prev.len() > 0 {
                    assert(r[k] == prev[k]);
                }
            } else {
                if k < prev.len() {
                    assert(r[k] == prev[k]);
                }
            }
        }
    }
}

/// Every component of a path is normal.
pub proof fn lemma_components_normal(p: Seq<char>)
    ensures
        forall|k: int| 0 <= k < components(p).len() ==> is_normal_component(#[trigger] components(p)[k]),
{
    lemma_segments_slash_free(p);
    lemma_resolve_normal(segments(p));
}

// ---------------------------------------------------------------------------
// Executable path handling
// ---------------------------------------------------------------------------

/// The characters `v[r.0..r.1]` for each range `r` in `ranges`.
pub open spec fn pieces(v: Seq<char>, ranges: Seq<(usize, usize)>) -> Seq<Seq<char>> {
    Seq::new(ranges.len(), |k: int| v.subrange(ranges[k].0 as int, ranges[k].1 as int))
}

/// Every range in `ranges` lies inside `0..n`.
pub open spec fn ranges_within(ranges: Seq<(usize, usize)>, n: int) -> bool {
    forall|k: int| 0 <= k < ranges.len() ==> #[trigger] ranges[k].0 <= ranges[k].1 <= n
}

fn is_dot(v: &Vec<char>, a: usize, b: usize) -> (r: bool)
    requires
        a <= b <= v@.len(),
    ensures
        r == (v@.subrange(a as int, b as int) == current_segment()),
{
    if b - a == 1 && v[a] == '.' {
        assert(v@.subrange(a as int, b as int) =~= current_segment());
        true
    } else {
        assert(current_segment().len() == 1);
        if b - a == 1 {
            assert(v@.subrange(a as int, b as int)[0] == v@[a as int]);
            assert(v@.subrange(a as int, b as int)[0] != current_segment()[0]);
        }
        false
    }
}

fn is_dot_dot(v: &Vec<char>, a: usize, b: usize) -> (r: bool)
    requires
        a <= b <= v@.len(),
    ensures
        r == (v@.subrange(a as int, b as int) == parent_segment()),
{
    if b - a == 2 && v[a] == '.' && v[a + 1] == '.' {
        assert(v@.subrange(a as int, b as int) =~= parent_segment());
        true
    } else {
        assert(parent_segment().len() == 2);
        if b - a == 2 {
            assert(v@.subrange(a as int, b as int)[0] == v@[a as int]);
            assert(v@.subrange(a as int, b as int)[1] == v@[a + 1]);
            if v[a] != '.' {
                assert(v@.subrange(a as int, b as int)[0] != parent_segment()[0]);
            } else {
                assert(v@.subrange(a as int, b as int)[1] != parent_segment()[1]);
            }
        }
        false
    }
}

/// Applies one segment `v[a..b]` to the ranges of the components kept so far.
fn apply_segment(v: &Vec<char>, kept: &mut Vec<(usize, usize)>, a: usize, b: usize)
    requires
        a <= b <= v@.len(),
        ranges_within(old(kept)@, v@.len() as int),
    ensures
        ranges_within(final(kept)@, v@.len() as int),
        pieces(v@, final(kept)@) == resolve_step(
            pieces(v@, old(kept)@),
            v@.subrange(a as int, b as int),
        ),
{
    let ghost before = pieces(v@, kept@);
    if a == b || is_dot(v, a, b) {
    } else if is_dot_dot(v, a, b) {
        if kept.len() > 0 {
            kept.pop();
            assert(pieces(v@, kept@) =~= before.drop_last());
        }
    } else {
        kept.push((a, b));
        assert(pieces(v@, kept@) =~= before.push(v@.subrange(a as int, b as int)));
    }
}

/// The ranges of the components of `v` (see [`components`]).
pub fn component_ranges(v: &Vec<char>) -> (kept: Vec<(usize, usize)>)
    ensures
        ranges_within(kept@, v@.len() as int),
        pieces(v@, kept@) == components(v@),
{
    let mut kept: Vec<(usize, usize)> = Vec::new();
    let mut start: usize = 0;
    let mut i: usize = 0;
    assert(pieces(v@, kept@) =~= Seq::<Seq<char>>::empty());
    while i < v.len()
        invariant
            start <= i <= v@.len(),
            ranges_within(kept@, v@.len() as int),
            segments(v@.take(i as int)).last() == v@.subrange(start as int, i as int),
            pieces(v@, kept@) == resolve(segments(v@.take(i as int)).drop_last()),
        decreases v@.len() - i,
    {
        let ghost prev_segs = segments(v@.take(i as int));
        proof {
            lemma_segments_nonempty(v@.take(i as int));
            assert(v@.take(i + 1).drop_last() =~= v@.take(i as int));
            assert(v@.take(i + 1).last() == v@[i as int]);
        }
        if v[i] == '/' {
            apply_segment(v, &mut kept, start, i);
            proof {
                let segs = segments(v@.take(i + 1));
                assert(segs == prev_segs.push(seq![]));
                assert(segs.drop_last() =~= prev_segs);
                assert(prev_segs == prev_segs.drop_last().push(prev_segs.last()));
                assert(resolve(prev_segs) == resolve_step(
                    resolve(prev_segs.drop_last()),
                    prev_segs.last(),
                ));
                assert(v@.subrange(i + 1, i + 1) =~= Seq::<char>::empty());
            }
            start = i + 1;
        } else {
            proof {
                let segs = segments(v@.take(i + 1));
                assert(segs == prev_segs.update(
                    prev_segs.len() - 1,
                    prev_segs.last().push(v@[i as int]),
                ));
                assert(segs.drop_last() =~= prev_segs.drop_last());
                assert(v@.subrange(start as int, i + 1) =~= v@.subrange(start as int, i as int).push(
                    v@[i as int],
                ));
            }
        }
        i = i + 1;
    }
    assert(v@.take(v@.len() as int) =~= v@);
    let ghost segs = segments(v@);
    proof {
        lemma_segments_nonempty(v@);
        assert(segs == segs.drop_last().push(segs.last()));
    }
    apply_segment(v, &mut kept, start, v.len());
    kept
}

/// Appends the components given by `ranges`, separated by `/`.
pub fn push_joined(out: &mut String, v: &Vec<char>, ranges: &Vec<(usize, usize)>)
    requires
        ranges_within(ranges@, v@.len() as int),
    ensures
        final(out)@ == old(out)@ + join(pieces(v@, ranges@), seq!['/']),
{
    let ghost parts = pieces(v@, ranges@);
    let mut k: usize = 0;
    while k < ranges.len()
        invariant
            k <= ranges@.len(),
            parts == pieces(v@, ranges@),
            ranges_within(ranges@, v@.len() as int),
            out@ == old(out)@ + join(parts.take(k as int), seq!['/']),
        decreases ranges@.len() - k,
    {
        let (a, b) = ranges[k];
        let ghost before = out@;
        if k > 0 {
            push_char(out, '/');
        }
        let mut i = a;
        while i < b
            invariant
                a <= i <= b <= v@.len(),
                out@ == before + (if k > 0 {
                    seq!['/']
                } else {
                    Seq::<char>::empty()
                }) + v@.subrange(a as int, i as int),
            decreases b - i,
        {
            push_char(out, v[i]);
            i = i + 1;
            assert(v@.subrange(a as int, i as int) =~= v@.subrange(a as int, i - 1).push(
                v@[i - 1],
            ));
        }
        proof {
            let t = parts.take(k + 1);
            assert(t.drop_last() =~= parts.take(k as int));
            assert(t.last() == v@.subrange(a as int, b as int));
            if k == 0 {
                assert(join(t, seq!['/']) == t[0]);
            }
        }
        k = k + 1;
        assert(out@ =~= old(out)@ + join(parts.take(k as int), seq!['/']));
    }
    assert(parts.take(ranges@.len() as int) =~= parts);
}

/// `base` joined with `p` (see [`join_path`]).
pub fn join_paths(base: &str, p: &str) -> (r: String)
    ensures
        r@ == join_path(base@, p@),
{
    let pv = crate::text::chars_of(p);
    let bv = crate::text::chars_of(base);
    if pv.len() > 0 && pv[0] == '/' {
        return p.to_owned();
    }
    let mut r = base.to_owned();
    if bv.len() > 0 && bv[bv.len() - 1] != '/' {
        push_char(&mut r, '/');
    }
    push_chars(&mut r, &pv);
    r
}

} // verus!
