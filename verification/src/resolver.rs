//! The import resolver: starting from the input files, parses each file,
//! resolves its imports through the include directories in declared order,
//! detects cycles, and returns the dependency closure in dependency order —
//! a file never precedes a file it imports. Sources are handed in as plain
//! (path, content) pairs; this module never touches a filesystem.

use vstd::prelude::*;
use crate::ast::{FileNode, ImportKind, wf_file};
use crate::diag::{CompileError, ImportError};
use crate::lexer::tokenize;
use crate::parser::{copy_chars, parse_file};
use crate::text::chars_eq;

verus! {

/// One source file, by the path it was found under and its text.
#[derive(Clone, Debug)]
pub struct SourceFile {
    pub path: Vec<char>,
    pub content: Vec<char>,
}

/// One parsed file of the closure: which source it is, the path it is
/// known by to importers (relative to its include directory), and its AST.
#[derive(Clone, Debug)]
pub struct ResolvedFile {
    pub src: usize,
    pub rel: Vec<char>,
    pub ast: FileNode,
}

/// `dir` and `p` joined with a single separator.
pub open spec fn join_path(dir: Seq<char>, p: Seq<char>) -> Seq<char> {
    if dir.len() == 0 {
        p
    } else if dir.last() == '/' {
        dir + p
    } else {
        dir + seq!['/'] + p
    }
}

/// The first source at or after `i` whose path is `full`.
pub open spec fn find_src_from(sources: Seq<SourceFile>, full: Seq<char>, i: int) -> Option<int>
    decreases sources.len() - i,
{
    if i < 0 || i >= sources.len() {
        None
    } else if sources[i].path@ == full {
        Some(i)
    } else {
        find_src_from(sources, full, i + 1)
    }
}

/// The source an import path resolves to: include directories are tried
/// in declared order and the first directory with a match wins.
pub open spec fn lookup_from(
    sources: Seq<SourceFile>,
    dirs: Seq<Vec<char>>,
    p: Seq<char>,
    d: int,
) -> Option<int>
    decreases dirs.len() - d,
{
    if d < 0 || d >= dirs.len() {
        None
    } else {
        match find_src_from(sources, join_path(dirs[d]@, p), 0) {
            Some(s) => Some(s),
            None => lookup_from(sources, dirs, p, d + 1),
        }
    }
}

pub open spec fn lookup_import(
    sources: Seq<SourceFile>,
    dirs: Seq<Vec<char>>,
    p: Seq<char>,
) -> Option<int> {
    lookup_from(sources, dirs, p, 0)
}

/// The output list is closed and dependency-ordered: sources never repeat,
/// every AST is well formed, and every resolvable import of a file appears
/// strictly earlier in the list. An unresolvable import can only have been
/// a weak one.
pub open spec fn out_ok(
    out: Seq<ResolvedFile>,
    sources: Seq<SourceFile>,
    dirs: Seq<Vec<char>>,
) -> bool {
    &&& forall|i: int, j: int| 0 <= i < j < out.len() ==> (#[trigger] out[i]).src != (
    #[trigger] out[j]).src
    &&& forall|i: int| 0 <= i < out.len() ==> (#[trigger] out[i]).src < sources.len() && wf_file(
        out[i].ast,
    )
    &&& forall|i: int, k: int|
        0 <= i < out.len() && 0 <= k < out[i].ast.imports@.len() ==> match lookup_import(
            sources,
            dirs,
            (#[trigger] out[i].ast.imports@[k]).path@,
        ) {
            Some(s) => exists|j: int| 0 <= j < i && (#[trigger] out[j]).src == s,
            None => out[i].ast.imports@[k].kind is Weak,
        }
}

/// A source is marked done exactly when it stands in the output.
pub open spec fn statuses_ok(st: Seq<u8>, out: Seq<ResolvedFile>) -> bool {
    forall|s: int| 0 <= s < st.len() ==> ((#[trigger] st[s] == 2) <==> exists|j: int|
        0 <= j < out.len() && (#[trigger] out[j]).src == s)
}

/// The number of sources not yet visited.
pub open spec fn count_zeros(st: Seq<u8>) -> nat
    decreases st.len(),
{
    if st.len() == 0 {
        0
    } else {
        count_zeros(st.drop_last()) + if st.last() == 0 {
            1nat
        } else {
            0nat
        }
    }
}

/// Marking an unvisited source visited lowers the count by one.
pub proof fn lemma_count_zeros_update(st: Seq<u8>, i: int, v: u8)
    requires
        0 <= i < st.len(),
        st[i] == 0,
        v != 0,
    ensures
        count_zeros(st.update(i, v)) + 1 == count_zeros(st),
    decreases st.len(),
{
    let st2 = st.update(i, v);
    if i == st.len() - 1 {
        assert(st2.drop_last() =~= st.drop_last());
    } else {
        assert(st2.drop_last() =~= st.drop_last().update(i, v));
        lemma_count_zeros_update(st.drop_last(), i, v);
    }
}

/// Marking a visited source done does not change the count.
pub proof fn lemma_count_zeros_update_nonzero(st: Seq<u8>, i: int, v: u8)
    requires
        0 <= i < st.len(),
        st[i] != 0,
        v != 0,
    ensures
        count_zeros(st.update(i, v)) == count_zeros(st),
    decreases st.len(),
{
    let st2 = st.update(i, v);
    if i == st.len() - 1 {
        assert(st2.drop_last() =~= st.drop_last());
    } else {
        assert(st2.drop_last() =~= st.drop_last().update(i, v));
        lemma_count_zeros_update_nonzero(st.drop_last(), i, v);
    }
}

/// A found source index lies in range.
pub proof fn lemma_find_src_range(sources: Seq<SourceFile>, full: Seq<char>, i: int)
    ensures
        find_src_from(sources, full, i) matches Some(s) ==> 0 <= s < sources.len(),
    decreases sources.len() - i,
{
    if 0 <= i < sources.len() && sources[i].path@ != full {
        lemma_find_src_range(sources, full, i + 1);
    }
}

/// A resolved import index lies in range.
pub proof fn lemma_lookup_range(sources: Seq<SourceFile>, dirs: Seq<Vec<char>>, p: Seq<char>, d: int)
    ensures
        lookup_from(sources, dirs, p, d) matches Some(s) ==> 0 <= s < sources.len(),
    decreases dirs.len() - d,
{
    if 0 <= d < dirs.len() {
        lemma_find_src_range(sources, join_path(dirs[d]@, p), 0);
        lemma_lookup_range(sources, dirs, p, d + 1);
    }
}

/// An import is settled under marks `st`: its source is marked done, or
/// it is an unresolvable weak import.
pub open spec fn import_done(
    sources: Seq<SourceFile>,
    dirs: Seq<Vec<char>>,
    st: Seq<u8>,
    imp: crate::ast::ImportNode,
) -> bool {
    match lookup_import(sources, dirs, imp.path@) {
        Some(s) => st[s] == 2,
        None => imp.kind is Weak,
    }
}

/// A settled import stays settled when done marks are preserved.
pub proof fn lemma_import_done_mono(
    sources: Seq<SourceFile>,
    dirs: Seq<Vec<char>>,
    st1: Seq<u8>,
    st2: Seq<u8>,
    imp: crate::ast::ImportNode,
)
    requires
        import_done(sources, dirs, st1, imp),
        st1.len() == st2.len() == sources.len(),
        forall|s: int| 0 <= s < st1.len() && st1[s] == 2 ==> st2[s] == 2,
    ensures
        import_done(sources, dirs, st2, imp),
{
    lemma_lookup_range(sources, dirs, imp.path@, 0);
}

/// The joined path `dir '/' p` (with no doubled separator).
fn exec_join_path(dir: &Vec<char>, p: &Vec<char>) -> (r: Vec<char>)
    ensures
        r@ == join_path(dir@, p@),
{
    let mut r = copy_chars(dir);
    if dir.len() > 0 && dir[dir.len() - 1] != '/' {
        r.push('/');
    }
    let mut rest = copy_chars(p);
    r.append(&mut rest);
    assert(dir@.len() == 0 ==> r@ =~= p@);
    assert(dir@.len() > 0 && dir@.last() == '/' ==> r@ =~= dir@ + p@);
    assert(dir@.len() > 0 && dir@.last() != '/' ==> r@ =~= dir@ + seq!['/'] + p@);
    r
}

/// Finds the source an import path resolves to, exactly as the spec does.
#[verifier::loop_isolation(false)]
pub fn find_source(sources: &Vec<SourceFile>, dirs: &Vec<Vec<char>>, p: &Vec<char>) -> (r: Option<
    usize,
>)
    ensures
        match lookup_import(sources@, dirs@, p@) {
            Some(s) => r matches Some(v) && v as int == s && s < sources@.len(),
            None => r is None,
        },
{
    let mut d: usize = 0;
    while d < dirs.len()
        invariant
            d <= dirs@.len(),
            lookup_import(sources@, dirs@, p@) == lookup_from(sources@, dirs@, p@, d as int),
        decreases dirs@.len() - d,
    {
        let full = exec_join_path(&dirs[d], p);
        let mut s: usize = 0;
        while s < sources.len()
            invariant
                s <= sources@.len(),
                full@ == join_path(dirs@[d as int]@, p@),
                find_src_from(sources@, full@, 0) == find_src_from(sources@, full@, s as int),
            decreases sources@.len() - s,
        {
            if chars_eq(&sources[s].path, &full) {
                return Some(s);
            }
            s = s + 1;
        }
        d = d + 1;
    }
    None
}

/// Depth-first resolution of one file (already marked in progress) and,
/// recursively, of everything it imports. Returns the updated marks and
/// output list; on success the file itself has been appended after all
/// its dependencies.
#[verifier::loop_isolation(false)]
#[verifier::rlimit(100)]
pub fn resolve_file(
    sources: &Vec<SourceFile>,
    dirs: &Vec<Vec<char>>,
    si: usize,
    rel: Vec<char>,
    st: Vec<u8>,
    out: Vec<ResolvedFile>,
    chain: &mut Vec<Vec<char>>,
    srcs: &mut Vec<usize>,
) -> (r: (Result<(), CompileError>, Vec<u8>, Vec<ResolvedFile>))
    requires
        si < sources@.len(),
        old(chain)@.len() == old(srcs)@.len(),
        st@.len() == sources@.len(),
        st@[si as int] == 1,
        forall|s: int| 0 <= s < st@.len() ==> #[trigger] st@[s] <= 2,
        statuses_ok(st@, out@),
        out_ok(out@, sources@, dirs@),
    ensures
        r.1@.len() == sources@.len(),
        forall|s: int| 0 <= s < r.1@.len() ==> #[trigger] r.1@[s] <= 2,
        statuses_ok(r.1@, r.2@),
        out_ok(r.2@, sources@, dirs@),
        forall|s: int| 0 <= s < sources@.len() && st@[s] == 2 ==> r.1@[s] == 2,
        forall|s: int| 0 <= s < sources@.len() && st@[s] == 1 && s != si ==> r.1@[s] == 1,
        forall|s: int| 0 <= s < sources@.len() && r.1@[s] == 0 ==> st@[s] == 0,
        r.0 is Ok ==> r.1@[si as int] == 2,
        r.0 is Ok ==> r.2@.len() > out@.len() && r.2@.last().src == si && r.2@.last().rel@
            == rel@,
        r.0 matches Err(e) ==> (e is Syntax || e is Import),
        final(chain)@.len() == final(srcs)@.len(),
        r.0 is Ok ==> forall|s: int| 0 <= s < sources@.len() && r.1@[s] == 1 ==> st@[s] == 1,
        r.0 is Err ==> r.1@[si as int] == 1,
        count_zeros(r.1@) <= count_zeros(st@),
        out@.is_prefix_of(r.2@),
    decreases count_zeros(st@),
{
    let ghost out_in = out@;
    let mut st = st;
    let mut out = out;
    assert(out_in.is_prefix_of(out@));
    let toks = match tokenize(&sources[si].content) {
        Ok(o) => o,
        Err(e) => {
            return (
                Err(CompileError::Syntax { file: copy_chars(&sources[si].path), error: e }),
                st,
                out,
            );
        },
    };
    let ast = match parse_file(&toks) {
        Ok(o) => o,
        Err(e) => {
            return (
                Err(CompileError::Syntax { file: copy_chars(&sources[si].path), error: e }),
                st,
                out,
            );
        },
    };
    let ghost st0 = st@;
    let nimp = ast.imports.len();
    let mut k: usize = 0;
    while k < nimp
        invariant
            k <= nimp,
            st@.len() == sources@.len(),
            st@[si as int] == 1,
            statuses_ok(st@, out@),
            out_ok(out@, sources@, dirs@),
            forall|s: int| 0 <= s < sources@.len() && st0[s] == 2 ==> st@[s] == 2,
            forall|s: int| 0 <= s < sources@.len() && st0[s] == 1 && s != si ==> st@[s] == 1,
            forall|s: int| 0 <= s < sources@.len() && st@[s] == 0 ==> st0[s] == 0,
            forall|s: int| 0 <= s < sources@.len() && st@[s] == 1 ==> st0[s] == 1,
            forall|s: int| 0 <= s < st@.len() ==> #[trigger] st@[s] <= 2,
            count_zeros(st@) <= count_zeros(st0),
            out_in.is_prefix_of(out@),
            forall|x: int| 0 <= x < k ==> import_done(
                sources@,
                dirs@,
                st@,
                #[trigger] ast.imports@[x],
            ),
            chain@.len() == srcs@.len(),
        decreases nimp - k,
    {
        let ghost st_iter = st@;
        let imp = &ast.imports[k];
        match find_source(sources, dirs, &imp.path) {
            None => {
                if matches!(imp.kind, ImportKind::Weak) {
                    // a missing weak import does not fail the compilation
                } else {
                    return (
                        Err(
                            CompileError::Import(
                                ImportError::NotFound { path: copy_chars(&imp.path) },
                            ),
                        ),
                        st,
                        out,
                    );
                }
            },
            Some(s2) => {
                let status = st[s2];
                if status == 2 {
                    // already resolved and in the output
                } else if status == 1 {
                    // in progress: closing this edge would create a cycle;
                    // report the chain from that file down to this one, each
                    // importing the next, the last importing the first
                    let mut from: usize = 0;
                    let mut ci: usize = 0;
                    while ci < srcs.len()
                        invariant
                            ci <= srcs@.len(),
                            from <= srcs@.len(),
                        decreases srcs@.len() - ci,
                    {
                        if srcs[ci] == s2 {
                            from = ci;
                            ci = srcs.len();
                        } else {
                            ci = ci + 1;
                        }
                    }
                    let mut seq_paths: Vec<Vec<char>> = Vec::new();
                    let mut ci = from;
                    while ci < chain.len()
                        invariant
                            ci <= chain@.len(),
                        decreases chain@.len() - ci,
                    {
                        seq_paths.push(copy_chars(&chain[ci]));
                        ci = ci + 1;
                    }
                    return (
                        Err(
                            CompileError::Import(ImportError::Cycle { path_sequence: seq_paths }),
                        ),
                        st,
                        out,
                    );
                } else {
                    assert(st@[s2 as int] == 0);
                    let ghost st_l = st@;
                    proof {
                        lemma_count_zeros_update(st@, s2 as int, 1);
                    }
                    st[s2] = 1;
                    let ghost st_m = st@;
                    chain.push(copy_chars(&imp.path));
                    srcs.push(s2);
                    let ghost out_before = out@;
                    let (res, st2, out2) = resolve_file(
                        sources,
                        dirs,
                        s2,
                        copy_chars(&imp.path),
                        st,
                        out,
                        chain,
                        srcs,
                    );
                    st = st2;
                    out = out2;
                    proof {
                        // prefix order is transitive
                        assert(out_before.is_prefix_of(out@));
                        assert(out_in =~= out@.subrange(0, out_in.len() as int));
                        // chain the status facts through the marking and the call
                        assert forall|s: int|
                            0 <= s < sources@.len() && st0[s] == 1 && s != si implies st@[s]
                            == 1 by {
                            assert(st_l[s] == 1);
                            assert(s != s2);
                            assert(st_m[s] == 1);
                        }
                        assert forall|s: int|
                            0 <= s < sources@.len() && st@[s] == 0 implies st0[s] == 0 by {
                            assert(st_m[s] == 0);
                            assert(s != s2);
                            assert(st_l[s] == 0);
                        }
                        assert(st_l[si as int] == 1);
                        assert(si != s2);
                        assert(st_m[si as int] == 1);
                        assert(st@[si as int] == 1);
                    }
                    match res {
                        Ok(()) => {},
                        Err(e) => {
                            return (Err(e), st, out);
                        },
                    }
                    proof {
                        assert forall|s: int|
                            0 <= s < sources@.len() && st@[s] == 1 implies st0[s] == 1 by {
                            assert(st_m[s] == 1);
                            assert(s != s2);
                            assert(st_l[s] == 1);
                        }
                    }
                    if chain.len() > 0 {
                        let _ = chain.pop();
                    }
                    if srcs.len() > 0 {
                        let _ = srcs.pop();
                    }
                }
            },
        }
        proof {
            assert(import_done(sources@, dirs@, st@, ast.imports@[k as int]));
            assert forall|x: int| 0 <= x < k + 1 implies import_done(
                sources@,
                dirs@,
                st@,
                #[trigger] ast.imports@[x],
            ) by {
                if x < k {
                    lemma_import_done_mono(sources@, dirs@, st_iter, st@, ast.imports@[x]);
                }
            }
        }
        k = k + 1;
    }
    // all imports done: this file follows them in the output
    let ghost pre_out = out@;
    out.push(ResolvedFile { src: si, rel, ast });
    proof {
        assert forall|i: int, j: int| 0 <= i < j < out@.len() implies (#[trigger] out@[i]).src != (
        #[trigger] out@[j]).src by {
            if j == out@.len() - 1 {
                if st@[out@[i].src as int] == 2 {
                }
                assert(out@[j].src == si);
                if out@[i].src == si {
                    assert(st@[si as int] == 2);
                }
            }
        }
        assert forall|i: int, k2: int|
            0 <= i < out@.len() && 0 <= k2 < out@[i].ast.imports@.len() implies match lookup_import(
            sources@,
            dirs@,
            (#[trigger] out@[i].ast.imports@[k2]).path@,
        ) {
            Some(s) => exists|j: int| 0 <= j < i && (#[trigger] out@[j]).src == s,
            None => out@[i].ast.imports@[k2].kind is Weak,
        } by {
            if i < out@.len() - 1 {
                assert(out@[i] == pre_out[i]);
                assert(out@[i].ast.imports@[k2] == pre_out[i].ast.imports@[k2]);
                match lookup_import(sources@, dirs@, out@[i].ast.imports@[k2].path@) {
                    Some(s) => {
                        let j = choose|j: int|
                            0 <= j < i && (#[trigger] pre_out[j]).src == s;
                        assert(out@[j].src == s);
                    },
                    None => {},
                }
            } else {
                assert(out@[i].ast == ast);
                assert(out@[i].ast.imports@[k2] == ast.imports@[k2]);
                assert(import_done(sources@, dirs@, st@, ast.imports@[k2]));
                match lookup_import(sources@, dirs@, out@[i].ast.imports@[k2].path@) {
                    Some(s) => {
                        lemma_lookup_range(sources@, dirs@, out@[i].ast.imports@[k2].path@, 0);
                        assert(0 <= s < st@.len());
                        assert(st@[s] == 2);
                        assert(statuses_ok(st@, pre_out));
                        let j = choose|j: int|
                            0 <= j < pre_out.len() && (#[trigger] pre_out[j]).src == s;
                        assert(out@[j].src == s && j < i);
                    },
                    None => {},
                }
            }
        }
    }
    proof {
        lemma_count_zeros_update_nonzero(st@, si as int, 2);
    }
    let ghost st_prev = st@;
    st[si] = 2;
    proof {
        assert forall|s: int| 0 <= s < st@.len() implies ((#[trigger] st@[s] == 2) <==> exists|
            j: int,
        |
            0 <= j < out@.len() && (#[trigger] out@[j]).src == s) by {
            let n = out@.len() as int;
            if s == si {
                assert(out@[n - 1].src == si);
            } else {
                if st@[s] == 2 {
                    assert(st_prev[s] == 2);
                    let j = choose|j: int|
                        0 <= j < pre_out.len() && (#[trigger] pre_out[j]).src == s;
                    assert(out@[j].src == s);
                }
                if exists|j: int| 0 <= j < out@.len() && (#[trigger] out@[j]).src == s {
                    let j = choose|j: int|
                        0 <= j < out@.len() && (#[trigger] out@[j]).src == s;
                    assert(j < n - 1);
                    assert(pre_out[j].src == s);
                    assert(st_prev[s] == 2);
                }
            }
        }
    }
    proof {
        assert(out_in =~= out@.subrange(0, out_in.len() as int));
    }
    (Ok(()), st, out)
}

} // verus!
