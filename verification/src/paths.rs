//! Relative-path arithmetic used to pair each input file with its path
//! relative to the include directory that resolved it. Paths are compared
//! component-wise: separators split a path into segments; empty segments
//! and interior `.` segments are normalized away; a leading `/` (the root)
//! and a leading `.` of a relative path are kept as marker components.

use vstd::prelude::*;
use crate::text::chars_eq;

verus! {

/// The raw segments of a path: the text between separators, split at
/// every `/`, empties included. Always at least one segment.
pub open spec fn split_segments(s: Seq<char>) -> Seq<Seq<char>>
    decreases s.len(),
{
    if s.len() == 0 {
        seq![Seq::<char>::empty()]
    } else if s[0] == '/' {
        seq![Seq::<char>::empty()] + split_segments(s.skip(1))
    } else {
        let r = split_segments(s.skip(1));
        seq![seq![s[0]] + r[0]] + r.skip(1)
    }
}

pub proof fn lemma_split_nonempty(s: Seq<char>)
    ensures
        split_segments(s).len() >= 1,
    decreases s.len(),
{
    if s.len() > 0 {
        lemma_split_nonempty(s.skip(1));
    }
}

/// Segments with empty and `.` entries normalized away.
pub open spec fn drop_trivial(segs: Seq<Seq<char>>) -> Seq<Seq<char>>
    decreases segs.len(),
{
    if segs.len() == 0 {
        segs
    } else if segs[0].len() == 0 || segs[0] =~= seq!['.'] {
        drop_trivial(segs.skip(1))
    } else {
        seq![segs[0]] + drop_trivial(segs.skip(1))
    }
}

/// The normalized component list of a path: its non-trivial segments,
/// preceded by a `/` marker for an absolute path, or by a `.` marker when
/// a relative path begins with a `.` segment. `.` anywhere else and
/// doubled or trailing separators leave no component.
pub open spec fn path_components(s: Seq<char>) -> Seq<Seq<char>> {
    if s.len() > 0 && s[0] == '/' {
        seq![seq!['/']] + drop_trivial(split_segments(s))
    } else if split_segments(s)[0] =~= seq!['.'] {
        seq![seq!['.']] + drop_trivial(split_segments(s))
    } else {
        drop_trivial(split_segments(s))
    }
}

/// A leading `.` component is ignored on either argument, as the original
/// strips it before comparing.
pub open spec fn strip_dot_comp(cs: Seq<Seq<char>>) -> Seq<Seq<char>> {
    if cs.len() > 0 && cs[0] =~= seq!['.'] {
        cs.skip(1)
    } else {
        cs
    }
}

/// Components joined by `/`.
pub open spec fn join_components(cs: Seq<Seq<char>>) -> Seq<char>
    decreases cs.len(),
{
    if cs.len() == 0 {
        Seq::empty()
    } else if cs.len() == 1 {
        cs[0]
    } else {
        join_components(cs.drop_last()) + seq!['/'] + cs.last()
    }
}

/// Components joined back into path text; a leading root marker becomes
/// the leading separator.
pub open spec fn join_path_components(cs: Seq<Seq<char>>) -> Seq<char> {
    if cs.len() > 0 && cs[0] =~= seq!['/'] {
        seq!['/'] + join_components(cs.skip(1))
    } else {
        join_components(cs)
    }
}

/// What `remove_path_prefix` returns: after dropping a leading `.`
/// component from each side, the prefix's components must be exactly the
/// path's leading components; the remainder is rejoined with separators.
pub open spec fn remove_path_prefix_spec(path: Seq<char>, prefix: Seq<char>) -> Option<Seq<char>> {
    let pc = strip_dot_comp(path_components(path));
    let qc = strip_dot_comp(path_components(prefix));
    if qc.len() <= pc.len() && pc.take(qc.len() as int) == qc {
        Some(join_path_components(pc.skip(qc.len() as int)))
    } else {
        None
    }
}

/// Joining one more component appends a separator and the component,
/// except onto no components at all.
pub proof fn lemma_join_push(cs: Seq<Seq<char>>, c: Seq<char>)
    ensures
        cs.len() == 0 ==> join_components(cs.push(c)) == c,
        cs.len() > 0 ==> join_components(cs.push(c)) == join_components(cs) + seq!['/'] + c,
{
    assert(cs.push(c).drop_last() =~= cs);
    assert(cs.push(c).last() == c);
    if cs.len() == 0 {
        assert(join_components(cs.push(c)) == cs.push(c)[0]);
    }
}

/// The views of a component vector.
pub open spec fn comp_views(v: Vec<Vec<char>>) -> Seq<Seq<char>> {
    v@.map_values(|x: Vec<char>| x@)
}

fn copy_comp(v: &Vec<char>) -> (r: Vec<char>)
    ensures
        r@ == v@,
{
    let mut r: Vec<char> = Vec::new();
    let mut i: usize = 0;
    while i < v.len()
        invariant
            i <= v@.len(),
            r@ == v@.take(i as int),
        decreases v@.len() - i,
    {
        r.push(v[i]);
        assert(r@ =~= v@.take(i + 1));
        i = i + 1;
    }
    assert(r@ =~= v@);
    r
}

/// The raw segments of `s` from position `i` on, as `split_segments`.
fn exec_split_segments(s: &Vec<char>, i: usize) -> (r: Vec<Vec<char>>)
    requires
        i <= s@.len(),
    ensures
        comp_views(r) == split_segments(s@.skip(i as int)),
        r@.len() >= 1,
    decreases s@.len() - i,
{
    let ghost tail = s@.skip(i as int);
    if i == s.len() {
        let mut r: Vec<Vec<char>> = Vec::new();
        r.push(Vec::new());
        assert(tail =~= Seq::<char>::empty());
        assert(comp_views(r) =~= split_segments(tail));
        r
    } else if s[i] == '/' {
        let mut r = exec_split_segments(s, i + 1);
        r.insert(0, Vec::new());
        proof {
            assert(tail.skip(1) =~= s@.skip(i + 1));
            assert(comp_views(r) =~= seq![Seq::<char>::empty()] + split_segments(tail.skip(1)));
        }
        r
    } else {
        let mut r = exec_split_segments(s, i + 1);
        let mut first: Vec<char> = Vec::new();
        first.push(s[i]);
        let mut rest0 = copy_comp(&r[0]);
        first.append(&mut rest0);
        let ghost old_views = comp_views(r);
        r[0] = first;
        proof {
            assert(tail.skip(1) =~= s@.skip(i + 1));
            assert(first@ =~= seq![tail[0]] + old_views[0]);
            assert(comp_views(r) =~= seq![seq![tail[0]] + old_views[0]] + old_views.skip(1));
        }
        r
    }
}

/// True iff the component is exactly the one-character text `c`.
fn is_marker(v: &Vec<char>, c: char) -> (r: bool)
    ensures
        r == (v@ =~= seq![c]),
{
    if v.len() == 1 && v[0] == c {
        assert(v@ =~= seq![c]);
        true
    } else {
        assert(!(v@ =~= seq![c]));
        false
    }
}

/// The segments from position `i` on with empties and `.` dropped.
fn exec_drop_trivial(segs: &Vec<Vec<char>>, i: usize) -> (r: Vec<Vec<char>>)
    requires
        i <= segs@.len(),
    ensures
        comp_views(r) == drop_trivial(comp_views(*segs).skip(i as int)),
    decreases segs@.len() - i,
{
    let ghost tail = comp_views(*segs).skip(i as int);
    if i == segs.len() {
        let r: Vec<Vec<char>> = Vec::new();
        assert(tail =~= Seq::<Seq<char>>::empty());
        assert(comp_views(r) =~= drop_trivial(tail));
        r
    } else {
        let trivial = segs[i].len() == 0 || is_marker(&segs[i], '.');
        let r0 = exec_drop_trivial(segs, i + 1);
        proof {
            assert(tail.skip(1) =~= comp_views(*segs).skip(i + 1));
            assert(tail[0] == segs@[i as int]@);
        }
        if trivial {
            r0
        } else {
            let mut r = r0;
            r.insert(0, copy_comp(&segs[i]));
            proof {
                assert(comp_views(r) =~= seq![tail[0]] + drop_trivial(tail.skip(1)));
            }
            r
        }
    }
}

/// The normalized components of a path.
fn exec_components(s: &Vec<char>) -> (r: Vec<Vec<char>>)
    ensures
        comp_views(r) == path_components(s@),
{
    let raw = exec_split_segments(s, 0);
    proof {
        assert(s@.skip(0) =~= s@);
    }
    let body = exec_drop_trivial(&raw, 0);
    proof {
        assert(comp_views(raw).skip(0) =~= comp_views(raw));
    }
    if s.len() > 0 && s[0] == '/' {
        let mut r = body;
        let mut marker: Vec<char> = Vec::new();
        marker.push('/');
        r.insert(0, marker);
        proof {
            assert(comp_views(r) =~= seq![seq!['/']] + drop_trivial(split_segments(s@)));
        }
        r
    } else if is_marker(&raw[0], '.') {
        let mut r = body;
        let mut marker: Vec<char> = Vec::new();
        marker.push('.');
        r.insert(0, marker);
        proof {
            assert(split_segments(s@)[0] =~= seq!['.']);
            assert(comp_views(r) =~= seq![seq!['.']] + drop_trivial(split_segments(s@)));
        }
        r
    } else {
        proof {
            assert(!(split_segments(s@)[0] =~= seq!['.']));
            if s@.len() > 0 && s@[0] == '/' {
                assert(split_segments(s@)[0] =~= Seq::<char>::empty());
            }
        }
        body
    }
}

/// The components from `start` on, rejoined into path text.
#[verifier::loop_isolation(false)]
fn exec_join(comps: &Vec<Vec<char>>, start: usize) -> (r: Vec<char>)
    requires
        start <= comps@.len(),
    ensures
        r@ == join_path_components(comp_views(*comps).skip(start as int)),
{
    let ghost cs = comp_views(*comps).skip(start as int);
    let mut r: Vec<char> = Vec::new();
    let mut from = start;
    if start < comps.len() && is_marker(&comps[start], '/') {
        r.push('/');
        from = start + 1;
        // the root marker becomes the leading separator
        let ghost rest = comp_views(*comps).skip(from as int);
        assert(cs.skip(1) =~= rest);
        let mut body = exec_join_plain(comps, from);
        r.append(&mut body);
        assert(r@ =~= seq!['/'] + join_components(rest));
        return r;
    }
    assert(!(cs.len() > 0 && cs[0] =~= seq!['/']));
    exec_join_plain(comps, start)
}

/// The components from `start` on joined by separators, no markers.
#[verifier::loop_isolation(false)]
fn exec_join_plain(comps: &Vec<Vec<char>>, start: usize) -> (r: Vec<char>)
    requires
        start <= comps@.len(),
    ensures
        r@ == join_components(comp_views(*comps).skip(start as int)),
{
    let ghost cs = comp_views(*comps).skip(start as int);
    let mut r: Vec<char> = Vec::new();
    let mut i = start;
    while i < comps.len()
        invariant
            start <= i <= comps@.len(),
            r@ == join_components(cs.take(i - start)),
        decreases comps@.len() - i,
    {
        proof {
            assert(cs.take(i - start + 1) =~= cs.take(i - start).push(cs[i - start]));
            lemma_join_push(cs.take(i - start), cs[i - start]);
            assert(cs[i - start] == comps@[i as int]@);
        }
        if i > start {
            r.push('/');
        }
        let mut part = copy_comp(&comps[i]);
        r.append(&mut part);
        i = i + 1;
    }
    assert(cs.take(comps@.len() - start) =~= cs);
    r
}

/// Removes `prefix` from the front of `path`, comparing component-wise as
/// the path type does: a leading `.` component on either side is ignored,
/// separators may be doubled or trailing, and interior `.` segments do
/// not count. Returns the remainder (normalized, rejoined with single
/// separators), or `None` when `prefix`'s components are not a leading
/// run of `path`'s.
#[verifier::loop_isolation(false)]
pub fn remove_path_prefix(path: &Vec<char>, prefix: &Vec<char>) -> (r: Option<Vec<char>>)
    ensures
        match remove_path_prefix_spec(path@, prefix@) {
            Some(rest) => r matches Some(v) && v@ == rest,
            None => r is None,
        },
{
    let mut pc = exec_components(path);
    let mut qc = exec_components(prefix);
    let ghost pc_full = comp_views(pc);
    let ghost qc_full = comp_views(qc);
    // drop the leading `.` marker of each side
    if pc.len() > 0 && is_marker(&pc[0], '.') {
        pc.remove(0);
        assert(comp_views(pc) =~= pc_full.skip(1));
    } else {
        assert(comp_views(pc) =~= strip_dot_comp(pc_full));
    }
    if qc.len() > 0 && is_marker(&qc[0], '.') {
        qc.remove(0);
        assert(comp_views(qc) =~= qc_full.skip(1));
    } else {
        assert(comp_views(qc) =~= strip_dot_comp(qc_full));
    }
    let ghost pcs = comp_views(pc);
    let ghost qcs = comp_views(qc);
    assert(pcs == strip_dot_comp(path_components(path@)));
    assert(qcs == strip_dot_comp(path_components(prefix@)));
    if qc.len() > pc.len() {
        return None;
    }
    let mut t: usize = 0;
    while t < qc.len()
        invariant
            t <= qc@.len() <= pc@.len(),
            forall|x: int| 0 <= x < t ==> pcs[x] == qcs[x],
        decreases qc@.len() - t,
    {
        if !chars_eq(&pc[t], &qc[t]) {
            assert(pcs[t as int] != qcs[t as int]);
            assert(pcs.take(qcs.len() as int)[t as int] != qcs[t as int]);
            assert(pcs.take(qcs.len() as int) != qcs);
            return None;
        }
        t = t + 1;
    }
    assert(pcs.take(qcs.len() as int) =~= qcs);
    let rest = exec_join(&pc, qc.len());
    Some(rest)
}

} // verus!
