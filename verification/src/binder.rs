//! The symbol binder: builds one global scope tree over all files of a
//! dependency closure and resolves type references by protocol-buffer
//! scoping rules — a leading dot resolves from the root only; otherwise
//! scopes are searched from the innermost outward, and the innermost scope
//! in which the first component resolves at all is committed to.

use vstd::prelude::*;
use crate::ast::{FileNode, dotted, enum_path, msg_path, package_path, wf_file};
use crate::parser::copy_chars;
use crate::text::chars_eq;

verus! {

#[derive(Clone, Copy, PartialEq, Eq, Structural, Debug)]
pub enum SymKind {
    Package,
    Message { file: usize, index: usize },
    EnumType { file: usize, index: usize },
}

/// A declared symbol: its fully qualified dotted name and what it is.
#[derive(Clone, Debug)]
pub struct Symbol {
    pub fqn: Vec<char>,
    pub kind: SymKind,
}

/// One name bound in one scope, with the child scope the name opens,
/// if any (packages and messages open scopes; enums do not).
#[derive(Clone, Debug)]
pub struct Binding {
    pub scope: usize,
    pub name: Vec<char>,
    pub sym: usize,
    pub child: Option<usize>,
}

/// The global scope tree: scope 0 is the root; each scope records its
/// parent; bindings attach names to scopes.
#[derive(Clone, Debug)]
pub struct SymbolTable {
    pub parents: Vec<Option<usize>>,
    pub bindings: Vec<Binding>,
    pub syms: Vec<Symbol>,
}

pub open spec fn wf_table(t: SymbolTable) -> bool {
    &&& t.parents@.len() > 0
    &&& forall|i: int| 0 <= i < t.parents@.len() ==> ((#[trigger] t.parents@[i]) matches Some(p)
        ==> 0 <= p < i)
    &&& forall|k: int| 0 <= k < t.bindings@.len() ==> {
        let b = #[trigger] t.bindings@[k];
        &&& b.scope < t.parents@.len()
        &&& b.sym < t.syms@.len()
        &&& (b.child matches Some(c) ==> 0 < c < t.parents@.len())
    }
}

/// Binding `k` binds `name` in scope `sid`.
pub open spec fn entry_matches(bs: Seq<Binding>, sid: int, name: Seq<char>, k: int) -> bool {
    0 <= k < bs.len() && bs[k].scope == sid && bs[k].name@ == name
}

pub open spec fn scope_has(bs: Seq<Binding>, sid: int, name: Seq<char>) -> bool {
    exists|k: int| entry_matches(bs, sid, name, k)
}

/// Two distinct bindings of the same name in the same scope.
pub open spec fn scope_ambiguous(bs: Seq<Binding>, sid: int, name: Seq<char>) -> bool {
    exists|k1: int, k2: int|
        k1 != k2 && entry_matches(bs, sid, name, k1) && entry_matches(bs, sid, name, k2)
}

/// The index of a binding of `name` in scope `sid`; meaningful when one
/// exists and unique when the scope is unambiguous for the name.
pub open spec fn match_index(bs: Seq<Binding>, sid: int, name: Seq<char>) -> int {
    choose|k: int| entry_matches(bs, sid, name, k)
}

/// Outcome of resolving a reference.
#[derive(Clone, Copy, PartialEq, Eq, Structural, Debug)]
pub enum Resolution {
    Found(usize),
    Ambig,
    Missing,
}

/// Resolves the component list `comps` by descending from scope `sid`:
/// each component must resolve uniquely in the scope reached so far.
pub open spec fn descend_spec(t: SymbolTable, sid: int, comps: Seq<Seq<char>>) -> Resolution
    decreases comps.len(),
{
    if comps.len() == 0 {
        Resolution::Missing
    } else {
        let name = comps[0];
        if scope_ambiguous(t.bindings@, sid, name) {
            Resolution::Ambig
        } else if !scope_has(t.bindings@, sid, name) {
            Resolution::Missing
        } else {
            let b = t.bindings@[match_index(t.bindings@, sid, name)];
            if comps.len() == 1 {
                Resolution::Found(b.sym)
            } else {
                match b.child {
                    Some(c) => descend_spec(t, c as int, comps.drop_first()),
                    None => Resolution::Missing,
                }
            }
        }
    }
}

/// Resolves `comps` from scope `sid` outward: the innermost scope in which
/// the first component is bound at all is committed to; resolution then
/// descends there, and a scope binding the first component twice is
/// ambiguous. A reference unbound in every enclosing scope is missing.
pub open spec fn resolve_spec(t: SymbolTable, sid: int, comps: Seq<Seq<char>>) -> Resolution
    recommends
        wf_table(t),
        0 <= sid < t.parents@.len(),
    decreases sid,
{
    if comps.len() == 0 {
        Resolution::Missing
    } else if scope_has(t.bindings@, sid, comps[0]) || scope_ambiguous(t.bindings@, sid, comps[0]) {
        descend_spec(t, sid, comps)
    } else {
        if 0 <= sid < t.parents@.len() {
            match t.parents@[sid] {
                Some(p) => if 0 <= p < sid {
                    resolve_spec(t, p as int, comps)
                } else {
                    Resolution::Missing
                },
                None => Resolution::Missing,
            }
        } else {
            Resolution::Missing
        }
    }
}

/// The view of a component list.
pub open spec fn comps_view(comps: Vec<Vec<char>>) -> Seq<Seq<char>> {
    comps@.map_values(|v: Vec<char>| v@)
}

/// Looks `name` up in scope `sid`: reports a unique binding, absence, or
/// ambiguity, exactly as the resolution spec sees the scope.
#[verifier::loop_isolation(false)]
fn lookup(t: &SymbolTable, sid: usize, name: &Vec<char>) -> (r: Resolution)
    requires
        wf_table(*t),
    ensures
        (r is Missing) <==> !scope_has(t.bindings@, sid as int, name@),
        (r is Ambig) <==> scope_ambiguous(t.bindings@, sid as int, name@),
        r matches Resolution::Found(s) ==> scope_has(t.bindings@, sid as int, name@) && !scope_ambiguous(
            t.bindings@,
            sid as int,
            name@,
        ) && s == t.bindings@[match_index(t.bindings@, sid as int, name@)].sym && s
            < t.syms@.len(),
{
    let mut found: Option<usize> = None;
    let mut k: usize = 0;
    while k < t.bindings.len()
        invariant
            k <= t.bindings@.len(),
            match found {
                Some(f) => entry_matches(t.bindings@, sid as int, name@, f as int) && f < k
                    && forall|x: int|
                    entry_matches(t.bindings@, sid as int, name@, x) && x < k ==> x == f,
                None => forall|x: int|
                    0 <= x < k ==> !entry_matches(t.bindings@, sid as int, name@, x),
            },
        decreases t.bindings@.len() - k,
    {
        if t.bindings[k].scope == sid && chars_eq(&t.bindings[k].name, name) {
            assert(entry_matches(t.bindings@, sid as int, name@, k as int));
            match found {
                Some(f) => {
                    assert(scope_ambiguous(t.bindings@, sid as int, name@));
                    return Resolution::Ambig;
                },
                None => {
                    found = Some(k);
                },
            }
        }
        k = k + 1;
    }
    match found {
        Some(f) => {
            proof {
                let mi = match_index(t.bindings@, sid as int, name@);
                assert(entry_matches(t.bindings@, sid as int, name@, mi));
                assert(mi == f as int);
                if scope_ambiguous(t.bindings@, sid as int, name@) {
                    let (k1, k2) = choose|k1: int, k2: int|
                        k1 != k2 && entry_matches(t.bindings@, sid as int, name@, k1)
                            && entry_matches(t.bindings@, sid as int, name@, k2);
                    assert(k1 == f as int && k2 == f as int);
                }
            }
            Resolution::Found(t.bindings[f].sym)
        },
        None => {
            proof {
                if scope_has(t.bindings@, sid as int, name@) {
                    let x = choose|x: int| entry_matches(t.bindings@, sid as int, name@, x);
                    assert(false);
                }
                if scope_ambiguous(t.bindings@, sid as int, name@) {
                    let (k1, k2) = choose|k1: int, k2: int|
                        k1 != k2 && entry_matches(t.bindings@, sid as int, name@, k1)
                            && entry_matches(t.bindings@, sid as int, name@, k2);
                    assert(false);
                }
            }
            Resolution::Missing
        },
    }
}

/// Descends through `comps[at..]` from scope `sid`, as `descend_spec`.
fn descend(t: &SymbolTable, sid: usize, comps: &Vec<Vec<char>>, at: usize) -> (r: Resolution)
    requires
        wf_table(*t),
        at < comps@.len(),
    ensures
        r == descend_spec(*t, sid as int, comps_view(*comps).skip(at as int)),
        r matches Resolution::Found(s) ==> s < t.syms@.len(),
    decreases comps@.len() - at,
{
    let n = comps.len();
    let ghost cs = comps_view(*comps).skip(at as int);
    assert(cs[0] == comps@[at as int]@);
    match lookup(t, sid, &comps[at]) {
        Resolution::Ambig => Resolution::Ambig,
        Resolution::Missing => Resolution::Missing,
        Resolution::Found(s) => {
            let ghost b = t.bindings@[match_index(t.bindings@, sid as int, comps@[at as int]@)];
            if at + 1 == comps.len() {
                assert(cs.len() == 1);
                Resolution::Found(s)
            } else {
                // re-find the unique binding to reach its child scope
                let child = lookup_child(t, sid, &comps[at]);
                proof {
                    assert(cs.drop_first() =~= comps_view(*comps).skip(at + 1));
                }
                match child {
                    Some(c) => descend(t, c, comps, at + 1),
                    None => Resolution::Missing,
                }
            }
        },
    }
}

/// The child scope of the unique binding of `name` in scope `sid`.
#[verifier::loop_isolation(false)]
fn lookup_child(t: &SymbolTable, sid: usize, name: &Vec<char>) -> (r: Option<usize>)
    requires
        wf_table(*t),
        scope_has(t.bindings@, sid as int, name@),
        !scope_ambiguous(t.bindings@, sid as int, name@),
    ensures
        r == t.bindings@[match_index(t.bindings@, sid as int, name@)].child,
        r matches Some(c) ==> 0 < c < t.parents@.len(),
{
    let mut k: usize = 0;
    while k < t.bindings.len()
        invariant
            k <= t.bindings@.len(),
            forall|x: int| 0 <= x < k ==> !entry_matches(t.bindings@, sid as int, name@, x),
        decreases t.bindings@.len() - k,
    {
        if t.bindings[k].scope == sid && chars_eq(&t.bindings[k].name, name) {
            proof {
                let mi = match_index(t.bindings@, sid as int, name@);
                assert(entry_matches(t.bindings@, sid as int, name@, mi));
                assert(entry_matches(t.bindings@, sid as int, name@, k as int));
                assert(mi == k as int);
            }
            return t.bindings[k].child;
        }
        k = k + 1;
    }
    proof {
        let x = choose|x: int| entry_matches(t.bindings@, sid as int, name@, x);
        assert(false);
    }
    None
}

/// Resolves the (already split) reference `comps` from scope `sid`.
/// `absolute` references resolve from the root scope only.
#[verifier::loop_isolation(false)]
pub fn resolve(t: &SymbolTable, sid: usize, comps: &Vec<Vec<char>>, absolute: bool) -> (r:
    Resolution)
    requires
        wf_table(*t),
        sid < t.parents@.len(),
        comps@.len() > 0,
    ensures
        absolute ==> r == descend_spec(*t, 0, comps_view(*comps)),
        !absolute ==> r == resolve_spec(*t, sid as int, comps_view(*comps)),
        r matches Resolution::Found(s) ==> s < t.syms@.len(),
{
    proof {
        assert(comps_view(*comps).skip(0) =~= comps_view(*comps));
    }
    if absolute {
        return descend(t, 0, comps, 0);
    }
    let mut s = sid;
    loop
        invariant
            s < t.parents@.len(),
            resolve_spec(*t, sid as int, comps_view(*comps)) == resolve_spec(
                *t,
                s as int,
                comps_view(*comps),
            ),
        decreases s,
    {
        let ghost cs = comps_view(*comps);
        assert(cs[0] == comps@[0]@);
        let first = lookup(t, s, &comps[0]);
        if !matches!(first, Resolution::Missing) {
            return descend(t, s, comps, 0);
        }
        match t.parents[s] {
            Some(p) => {
                s = p;
            },
            None => {
                return Resolution::Missing;
            },
        }
    }
}

} // verus!

verus! {

/// Per-file results of table construction: the file's package scope, and
/// for every message and enum of the file its symbol and (for messages)
/// its own scope.
#[derive(Clone, Debug)]
pub struct FileSyms {
    pub file_scope: usize,
    pub msg_syms: Vec<usize>,
    pub msg_scopes: Vec<usize>,
    pub enum_syms: Vec<usize>,
}

/// The scope a declaration of `f` is entered in: its enclosing message's
/// scope, or the file's package scope at top level.
pub open spec fn decl_scope(fs: FileSyms, parent: Option<usize>) -> int {
    match parent {
        Some(p) => fs.msg_scopes@[p as int] as int,
        None => fs.file_scope as int,
    }
}

/// Every declaration of file `f` (position `fi` of the closure) is bound
/// in `t`: its symbol exists, carries the dotted fully qualified name
/// that the declaration's nesting chain and package dictate, points back
/// at the declaration, and is entered under its local name in its
/// enclosing scope — messages opening their own scope, enums opening
/// none.
pub open spec fn file_bound(t: SymbolTable, fs: FileSyms, f: FileNode, fi: int) -> bool {
    &&& fs.file_scope < t.parents@.len()
    &&& fs.msg_syms@.len() == f.messages@.len()
    &&& fs.msg_scopes@.len() == f.messages@.len()
    &&& fs.enum_syms@.len() == f.enums@.len()
    &&& forall|mi: int| 0 <= mi < f.messages@.len() ==> {
        let s = #[trigger] fs.msg_syms@[mi];
        &&& s < t.syms@.len()
        &&& t.syms@[s as int].fqn@ == dotted(msg_path(f, mi))
        &&& t.syms@[s as int].kind == (SymKind::Message { file: fi as usize, index: mi as usize })
        &&& fs.msg_scopes@[mi] < t.parents@.len()
        &&& exists|b: int| entry_matches(
            t.bindings@,
            decl_scope(fs, f.messages@[mi].parent),
            f.messages@[mi].name@,
            b,
        ) && #[trigger] t.bindings@[b].sym == s && t.bindings@[b].child == Some(
            fs.msg_scopes@[mi],
        )
    }
    &&& forall|ei: int| 0 <= ei < f.enums@.len() ==> {
        let s = #[trigger] fs.enum_syms@[ei];
        &&& s < t.syms@.len()
        &&& t.syms@[s as int].fqn@ == dotted(enum_path(f, ei))
        &&& t.syms@[s as int].kind == (SymKind::EnumType { file: fi as usize, index: ei as usize })
        &&& exists|b: int| entry_matches(
            t.bindings@,
            decl_scope(fs, f.enums@[ei].parent),
            f.enums@[ei].name@,
            b,
        ) && #[trigger] t.bindings@[b].sym == s && t.bindings@[b].child is None
    }
}

/// Joining one more component to a dotted name appends a dot and the
/// component, except onto the empty path.
pub proof fn lemma_dotted_push(path: Seq<Seq<char>>, n: Seq<char>)
    ensures
        path.len() == 0 ==> dotted(path.push(n)) == n,
        path.len() > 0 ==> dotted(path.push(n)) == dotted(path) + seq!['.'] + n,
{
    assert(path.push(n).drop_last() =~= path);
    assert(path.push(n).last() == n);
    if path.len() == 0 {
        assert(dotted(path.push(n)) == path.push(n)[0]);
    }
}

/// The child scope opened by `name` in scope `sid`, if one binding opens
/// one: used to merge package chains across files.
fn find_child(t: &SymbolTable, sid: usize, name: &Vec<char>) -> (r: Option<usize>)
    requires
        wf_table(*t),
    ensures
        r matches Some(c) ==> c < t.parents@.len(),
{
    let mut k: usize = 0;
    while k < t.bindings.len()
        invariant
            wf_table(*t),
            k <= t.bindings@.len(),
        decreases t.bindings@.len() - k,
    {
        if t.bindings[k].scope == sid && chars_eq(&t.bindings[k].name, name) {
            match t.bindings[k].child {
                Some(c) => { return Some(c) },
                None => {},
            }
        }
        k = k + 1;
    }
    None
}

/// The dotted text `base '.' name`.
fn join_with_dot(base: &Vec<char>, name: &Vec<char>) -> (r: Vec<char>)
    ensures
        r@ == base@ + seq!['.'] + name@,
{
    let mut r = copy_chars(base);
    r.push('.');
    let mut n = copy_chars(name);
    r.append(&mut n);
    assert(r@ =~= base@ + seq!['.'] + name@);
    r
}

/// A table only extended by new scopes, symbols and bindings keeps every
/// file bound as before.
pub proof fn lemma_file_bound_extend(
    t1: SymbolTable,
    t2: SymbolTable,
    fs: FileSyms,
    f: FileNode,
    fi: int,
)
    requires
        file_bound(t1, fs, f, fi),
        t1.parents@.len() <= t2.parents@.len(),
        t1.syms@.len() <= t2.syms@.len(),
        t1.bindings@.len() <= t2.bindings@.len(),
        forall|i: int| 0 <= i < t1.syms@.len() ==> #[trigger] t2.syms@[i] == t1.syms@[i],
        forall|i: int| 0 <= i < t1.bindings@.len() ==> #[trigger] t2.bindings@[i]
            == t1.bindings@[i],
    ensures
        file_bound(t2, fs, f, fi),
{
    assert forall|mi: int| 0 <= mi < f.messages@.len() implies {
        let s = #[trigger] fs.msg_syms@[mi];
        &&& s < t2.syms@.len()
        &&& t2.syms@[s as int].fqn@ == dotted(msg_path(f, mi))
        &&& t2.syms@[s as int].kind == (SymKind::Message { file: fi as usize, index: mi as usize })
        &&& fs.msg_scopes@[mi] < t2.parents@.len()
        &&& exists|b: int| entry_matches(
            t2.bindings@,
            decl_scope(fs, f.messages@[mi].parent),
            f.messages@[mi].name@,
            b,
        ) && #[trigger] t2.bindings@[b].sym == s && t2.bindings@[b].child == Some(
            fs.msg_scopes@[mi],
        )
    } by {
        let s = fs.msg_syms@[mi];
        assert(s < t1.syms@.len());
        let b = choose|b: int|
            entry_matches(t1.bindings@, decl_scope(fs, f.messages@[mi].parent), f.messages@[
                mi
            ].name@, b) && #[trigger] t1.bindings@[b].sym == s && t1.bindings@[b].child == Some(
                fs.msg_scopes@[mi],
            );
        assert(t2.bindings@[b] == t1.bindings@[b]);
        assert(entry_matches(t2.bindings@, decl_scope(fs, f.messages@[mi].parent), f.messages@[
            mi
        ].name@, b));
    }
    assert forall|ei: int| 0 <= ei < f.enums@.len() implies {
        let s = #[trigger] fs.enum_syms@[ei];
        &&& s < t2.syms@.len()
        &&& t2.syms@[s as int].fqn@ == dotted(enum_path(f, ei))
        &&& t2.syms@[s as int].kind == (SymKind::EnumType { file: fi as usize, index: ei as usize })
        &&& exists|b: int| entry_matches(
            t2.bindings@,
            decl_scope(fs, f.enums@[ei].parent),
            f.enums@[ei].name@,
            b,
        ) && #[trigger] t2.bindings@[b].sym == s && t2.bindings@[b].child is None
    } by {
        let s = fs.enum_syms@[ei];
        assert(s < t1.syms@.len());
        let b = choose|b: int|
            entry_matches(t1.bindings@, decl_scope(fs, f.enums@[ei].parent), f.enums@[ei].name@, b)
                && #[trigger] t1.bindings@[b].sym == s && t1.bindings@[b].child is None;
        assert(t2.bindings@[b] == t1.bindings@[b]);
        assert(entry_matches(t2.bindings@, decl_scope(fs, f.enums@[ei].parent), f.enums@[
            ei
        ].name@, b));
    }
}

/// Builds the global scope tree and symbol list over the whole closure.
/// Duplicate names are entered as they stand; resolution reports them as
/// ambiguous when referenced.
#[verifier::loop_isolation(false)]
#[verifier::rlimit(60)]
pub fn build_table(files: &Vec<FileNode>) -> (r: (SymbolTable, Vec<FileSyms>))
    requires
        forall|i: int| 0 <= i < files@.len() ==> wf_file(#[trigger] files@[i]),
    ensures
        wf_table(r.0),
        r.1@.len() == files@.len(),
        forall|fi: int| 0 <= fi < files@.len() ==> file_bound(
            r.0,
            #[trigger] r.1@[fi],
            files@[fi],
            fi,
        ),
{
    let mut parents: Vec<Option<usize>> = Vec::new();
    parents.push(None);
    let mut bindings: Vec<Binding> = Vec::new();
    let mut syms: Vec<Symbol> = Vec::new();
    let mut fsyms: Vec<FileSyms> = Vec::new();
    let mut t = SymbolTable { parents, bindings, syms };
    let mut fi: usize = 0;
    while fi < files.len()
        invariant
            fi <= files@.len(),
            wf_table(t),
            fsyms@.len() == fi,
            forall|x: int| 0 <= x < fi ==> file_bound(t, #[trigger] fsyms@[x], files@[x], x),
        decreases files@.len() - fi,
    {
        let ghost t0 = t;
        let f = &files[fi];
        // walk or create the package scope chain
        let mut cur: usize = 0;
        let mut pkg_fqn: Vec<char> = Vec::new();
        let mut ci: usize = 0;
        while ci < f.package.len()
            invariant
                ci <= f.package@.len(),
                wf_table(t),
                cur < t.parents@.len(),
                pkg_fqn@ == dotted(package_path(*f).take(ci as int)),
                fsyms@.len() == fi,
                forall|x: int| 0 <= x < fi ==> file_bound(t0, #[trigger] fsyms@[x], files@[x], x),
                t0.parents@.len() <= t.parents@.len(),
                t0.syms@.len() <= t.syms@.len(),
                t0.bindings@.len() <= t.bindings@.len(),
                forall|i: int| 0 <= i < t0.syms@.len() ==> #[trigger] t.syms@[i] == t0.syms@[i],
                forall|i: int| 0 <= i < t0.bindings@.len() ==> #[trigger] t.bindings@[i]
                    == t0.bindings@[i],
            decreases f.package@.len() - ci,
        {
            let comp = &f.package[ci];
            proof {
                assert(package_path(*f).take(ci + 1) =~= package_path(*f).take(ci as int).push(
                    comp@,
                ));
                lemma_dotted_push(package_path(*f).take(ci as int), comp@);
            }
            if ci == 0 {
                pkg_fqn = copy_chars(comp);
                assert(package_path(*f).take(1)[0] == comp@);
            } else {
                assert(package_path(*f).take(ci as int).len() == ci);
                pkg_fqn = join_with_dot(&pkg_fqn, comp);
            }
            match find_child(&t, cur, comp) {
                Some(c) => {
                    cur = c;
                },
                None => {
                    let new_sid = t.parents.len();
                    t.parents.push(Some(cur));
                    let sym_id = t.syms.len();
                    t.syms.push(Symbol { fqn: copy_chars(&pkg_fqn), kind: SymKind::Package });
                    t.bindings.push(
                        Binding {
                            scope: cur,
                            name: copy_chars(comp),
                            sym: sym_id,
                            child: Some(new_sid),
                        },
                    );
                    cur = new_sid;
                },
            }
            ci = ci + 1;
        }
        proof {
            assert(package_path(*f).take(f.package@.len() as int) =~= package_path(*f));
        }
        let file_scope = cur;
        // messages, parents first (the arena is ordered that way)
        let mut msg_syms: Vec<usize> = Vec::new();
        let mut msg_scopes: Vec<usize> = Vec::new();
        let mut msg_fqns: Vec<Vec<char>> = Vec::new();
        let mut mi: usize = 0;
        while mi < f.messages.len()
            invariant
                mi <= f.messages@.len(),
                wf_table(t),
                cur == file_scope < t.parents@.len(),
                pkg_fqn@ == dotted(package_path(*f)),
                msg_syms@.len() == mi,
                msg_scopes@.len() == mi,
                msg_fqns@.len() == mi,
                forall|x: int| 0 <= x < mi ==> {
                    let s = #[trigger] msg_syms@[x];
                    &&& s < t.syms@.len()
                    &&& t.syms@[s as int].fqn@ == dotted(msg_path(files@[fi as int], x))
                    &&& t.syms@[s as int].kind == (SymKind::Message {
                        file: fi as usize,
                        index: x as usize,
                    })
                    &&& msg_scopes@[x] < t.parents@.len()
                    &&& msg_fqns@[x]@ == dotted(msg_path(files@[fi as int], x))
                    &&& exists|b: int| entry_matches(
                        t.bindings@,
                        match files@[fi as int].messages@[x].parent {
                            Some(p) => msg_scopes@[p as int] as int,
                            None => file_scope as int,
                        },
                        files@[fi as int].messages@[x].name@,
                        b,
                    ) && #[trigger] t.bindings@[b].sym == s && t.bindings@[b].child == Some(
                        msg_scopes@[x],
                    )
                },
                fsyms@.len() == fi,
                forall|x: int| 0 <= x < fi ==> file_bound(t0, #[trigger] fsyms@[x], files@[x], x),
                t0.parents@.len() <= t.parents@.len(),
                t0.syms@.len() <= t.syms@.len(),
                t0.bindings@.len() <= t.bindings@.len(),
                forall|i: int| 0 <= i < t0.syms@.len() ==> #[trigger] t.syms@[i] == t0.syms@[i],
                forall|i: int| 0 <= i < t0.bindings@.len() ==> #[trigger] t.bindings@[i]
                    == t0.bindings@[i],
            decreases f.messages@.len() - mi,
        {
            let ghost t_iter = t;
            let m = &f.messages[mi];
            assert(*m == files@[fi as int].messages@[mi as int]);
            let enclosing_scope: usize;
            let fqn: Vec<char>;
            match m.parent {
                Some(p) => {
                    assert(0 <= p < mi);
                    assert(files@[fi as int].messages@[mi as int].parent == Some(p));
                    proof {
                        // instantiate the per-message invariant at p
                        assert(msg_syms@[p as int] < t.syms@.len());
                    }
                    enclosing_scope = msg_scopes[p];
                    proof {
                        lemma_dotted_push(msg_path(files@[fi as int], p as int), m.name@);
                        assert(msg_path(files@[fi as int], p as int).len() > 0);
                        assert(msg_path(files@[fi as int], mi as int) == msg_path(
                            files@[fi as int],
                            p as int,
                        ).push(m.name@));
                    }
                    fqn = join_with_dot(&msg_fqns[p], &m.name);
                    assert(fqn@ == dotted(msg_path(files@[fi as int], mi as int)));
                },
                None => {
                    enclosing_scope = file_scope;
                    proof {
                        lemma_dotted_push(package_path(*f), m.name@);
                        assert(package_path(*f).len() == f.package@.len());
                        assert(msg_path(files@[fi as int], mi as int) == package_path(
                            files@[fi as int],
                        ).push(m.name@));
                    }
                    if f.package.len() == 0 {
                        fqn = copy_chars(&m.name);
                        assert(fqn@ == dotted(msg_path(files@[fi as int], mi as int)));
                    } else {
                        fqn = join_with_dot(&pkg_fqn, &m.name);
                        assert(fqn@ == dotted(msg_path(files@[fi as int], mi as int)));
                    }
                },
            }
            assert(fqn@ == dotted(msg_path(files@[fi as int], mi as int)));
            let new_sid = t.parents.len();
            t.parents.push(Some(enclosing_scope));
            let sym_id = t.syms.len();
            t.syms.push(
                Symbol { fqn: copy_chars(&fqn), kind: SymKind::Message { file: fi, index: mi } },
            );
            t.bindings.push(
                Binding {
                    scope: enclosing_scope,
                    name: copy_chars(&m.name),
                    sym: sym_id,
                    child: Some(new_sid),
                },
            );
            msg_syms.push(sym_id);
            msg_scopes.push(new_sid);
            msg_fqns.push(fqn);
            proof {
                let bnew = t.bindings@.len() - 1;
                assert(entry_matches(
                    t.bindings@,
                    enclosing_scope as int,
                    files@[fi as int].messages@[mi as int].name@,
                    bnew,
                ));
                assert forall|x: int| #![trigger msg_syms@[x]] 0 <= x < mi + 1 implies exists|
                    b: int,
                |
                    entry_matches(
                        t.bindings@,
                        match files@[fi as int].messages@[x].parent {
                            Some(p) => msg_scopes@[p as int] as int,
                            None => file_scope as int,
                        },
                        files@[fi as int].messages@[x].name@,
                        b,
                    ) && #[trigger] t.bindings@[b].sym == msg_syms@[x] && t.bindings@[b].child
                    == Some(msg_scopes@[x]) by {
                    let sid2 = match files@[fi as int].messages@[x].parent {
                        Some(p) => msg_scopes@[p as int] as int,
                        None => file_scope as int,
                    };
                    if x < mi {
                        let b = choose|b: int| entry_matches(
                            t_iter.bindings@,
                            sid2,
                            files@[fi as int].messages@[x].name@,
                            b,
                        ) && #[trigger] t_iter.bindings@[b].sym == msg_syms@[x]
                            && t_iter.bindings@[b].child == Some(msg_scopes@[x]);
                        assert(t.bindings@[b] == t_iter.bindings@[b]);
                    } else {
                        assert(sid2 == enclosing_scope as int);
                        assert(t.bindings@[bnew].sym == msg_syms@[x] && t.bindings@[bnew].child
                            == Some(msg_scopes@[x]));
                    }
                }
            }
            mi = mi + 1;
        }
        // enums
        let mut enum_syms: Vec<usize> = Vec::new();
        let mut ei: usize = 0;
        while ei < f.enums.len()
            invariant
                ei <= f.enums@.len(),
                wf_table(t),
                cur == file_scope < t.parents@.len(),
                pkg_fqn@ == dotted(package_path(*f)),
                msg_syms@.len() == f.messages@.len(),
                msg_scopes@.len() == f.messages@.len(),
                msg_fqns@.len() == f.messages@.len(),
                forall|x: int| 0 <= x < f.messages@.len() ==> {
                    let s = #[trigger] msg_syms@[x];
                    &&& s < t.syms@.len()
                    &&& t.syms@[s as int].fqn@ == dotted(msg_path(files@[fi as int], x))
                    &&& t.syms@[s as int].kind == (SymKind::Message {
                        file: fi as usize,
                        index: x as usize,
                    })
                    &&& msg_scopes@[x] < t.parents@.len()
                    &&& msg_fqns@[x]@ == dotted(msg_path(files@[fi as int], x))
                    &&& exists|b: int| entry_matches(
                        t.bindings@,
                        match files@[fi as int].messages@[x].parent {
                            Some(p) => msg_scopes@[p as int] as int,
                            None => file_scope as int,
                        },
                        files@[fi as int].messages@[x].name@,
                        b,
                    ) && #[trigger] t.bindings@[b].sym == s && t.bindings@[b].child == Some(
                        msg_scopes@[x],
                    )
                },
                enum_syms@.len() == ei,
                forall|x: int| 0 <= x < ei ==> {
                    let s = #[trigger] enum_syms@[x];
                    &&& s < t.syms@.len()
                    &&& t.syms@[s as int].fqn@ == dotted(enum_path(files@[fi as int], x))
                    &&& t.syms@[s as int].kind == (SymKind::EnumType {
                        file: fi as usize,
                        index: x as usize,
                    })
                    &&& exists|b: int| entry_matches(
                        t.bindings@,
                        match files@[fi as int].enums@[x].parent {
                            Some(p) => msg_scopes@[p as int] as int,
                            None => file_scope as int,
                        },
                        files@[fi as int].enums@[x].name@,
                        b,
                    ) && #[trigger] t.bindings@[b].sym == s && t.bindings@[b].child is None
                },
                fsyms@.len() == fi,
                forall|x: int| 0 <= x < fi ==> file_bound(t0, #[trigger] fsyms@[x], files@[x], x),
                t0.parents@.len() <= t.parents@.len(),
                t0.syms@.len() <= t.syms@.len(),
                t0.bindings@.len() <= t.bindings@.len(),
                forall|i: int| 0 <= i < t0.syms@.len() ==> #[trigger] t.syms@[i] == t0.syms@[i],
                forall|i: int| 0 <= i < t0.bindings@.len() ==> #[trigger] t.bindings@[i]
                    == t0.bindings@[i],
            decreases f.enums@.len() - ei,
        {
            let ghost t_iter = t;
            let e = &f.enums[ei];
            let enclosing_scope: usize;
            let fqn: Vec<char>;
            match e.parent {
                Some(p) => {
                    assert(0 <= p < f.messages@.len());
                    proof {
                        assert(msg_syms@[p as int] < t.syms@.len());
                    }
                    enclosing_scope = msg_scopes[p];
                    proof {
                        lemma_dotted_push(msg_path(files@[fi as int], p as int), e.name@);
                        assert(msg_path(files@[fi as int], p as int).len() > 0);
                    }
                    fqn = join_with_dot(&msg_fqns[p], &e.name);
                },
                None => {
                    enclosing_scope = file_scope;
                    proof {
                        lemma_dotted_push(package_path(*f), e.name@);
                        assert(package_path(*f).len() == f.package@.len());
                    }
                    if f.package.len() == 0 {
                        fqn = copy_chars(&e.name);
                    } else {
                        fqn = join_with_dot(&pkg_fqn, &e.name);
                    }
                },
            }
            assert(fqn@ == dotted(enum_path(files@[fi as int], ei as int)));
            let sym_id = t.syms.len();
            t.syms.push(Symbol { fqn, kind: SymKind::EnumType { file: fi, index: ei } });
            t.bindings.push(
                Binding {
                    scope: enclosing_scope,
                    name: copy_chars(&e.name),
                    sym: sym_id,
                    child: None,
                },
            );
            enum_syms.push(sym_id);
            proof {
                let bnew = t.bindings@.len() - 1;
                assert(entry_matches(
                    t.bindings@,
                    enclosing_scope as int,
                    files@[fi as int].enums@[ei as int].name@,
                    bnew,
                ));
                // witnesses of the messages survive this push
                assert forall|x: int| #![trigger msg_syms@[x]] 0 <= x < f.messages@.len() implies
                    exists|b: int|
                    entry_matches(
                        t.bindings@,
                        match files@[fi as int].messages@[x].parent {
                            Some(p) => msg_scopes@[p as int] as int,
                            None => file_scope as int,
                        },
                        files@[fi as int].messages@[x].name@,
                        b,
                    ) && #[trigger] t.bindings@[b].sym == msg_syms@[x] && t.bindings@[b].child
                    == Some(msg_scopes@[x]) by {
                    let sid2 = match files@[fi as int].messages@[x].parent {
                        Some(p) => msg_scopes@[p as int] as int,
                        None => file_scope as int,
                    };
                    let b = choose|b: int| entry_matches(
                        t_iter.bindings@,
                        sid2,
                        files@[fi as int].messages@[x].name@,
                        b,
                    ) && #[trigger] t_iter.bindings@[b].sym == msg_syms@[x]
                        && t_iter.bindings@[b].child == Some(msg_scopes@[x]);
                    assert(t.bindings@[b] == t_iter.bindings@[b]);
                }
                // witnesses of earlier enums survive too
                assert forall|x: int| #![trigger enum_syms@[x]] 0 <= x < ei + 1 implies exists|
                    b: int,
                |
                    entry_matches(
                        t.bindings@,
                        match files@[fi as int].enums@[x].parent {
                            Some(p) => msg_scopes@[p as int] as int,
                            None => file_scope as int,
                        },
                        files@[fi as int].enums@[x].name@,
                        b,
                    ) && #[trigger] t.bindings@[b].sym == enum_syms@[x] && t.bindings@[b].child
                    is None by {
                    let sid2 = match files@[fi as int].enums@[x].parent {
                        Some(p) => msg_scopes@[p as int] as int,
                        None => file_scope as int,
                    };
                    if x < ei {
                        let b = choose|b: int| entry_matches(
                            t_iter.bindings@,
                            sid2,
                            files@[fi as int].enums@[x].name@,
                            b,
                        ) && #[trigger] t_iter.bindings@[b].sym == enum_syms@[x]
                            && t_iter.bindings@[b].child is None;
                        assert(t.bindings@[b] == t_iter.bindings@[b]);
                    } else {
                        assert(sid2 == enclosing_scope as int);
                        assert(t.bindings@[bnew].sym == enum_syms@[x] && t.bindings@[bnew].child
                            is None);
                    }
                }
            }
            ei = ei + 1;
        }
        fsyms.push(FileSyms { file_scope, msg_syms, msg_scopes, enum_syms });
        proof {
            assert forall|x: int| 0 <= x < fi + 1 implies file_bound(
                t,
                #[trigger] fsyms@[x],
                files@[x],
                x,
            ) by {
                if x < fi {
                    lemma_file_bound_extend(t0, t, fsyms@[x], files@[x], x);
                } else {
                    assert(file_bound(t, fsyms@[fi as int], files@[fi as int], fi as int));
                }
            }
        }
        fi = fi + 1;
    }
    (t, fsyms)
}

} // verus!

verus! {

/// No name is bound twice in scope `sid`.
pub open spec fn distinct_names(bs: Seq<Binding>, sid: int) -> bool {
    forall|k1: int, k2: int|
        0 <= k1 < k2 < bs.len() && (#[trigger] bs[k1]).scope == sid && (#[trigger] bs[k2]).scope
            == sid ==> bs[k1].name@ != bs[k2].name@
}

/// Two bindings declare the same thing.
pub open spec fn binding_same(a: Binding, b: Binding) -> bool {
    a.scope == b.scope && a.name@ == b.name@ && a.sym == b.sym && a.child == b.child
}

/// The two lists hold the same bindings, in whatever order.
pub open spec fn same_bindings(bs1: Seq<Binding>, bs2: Seq<Binding>) -> bool {
    &&& forall|k: int| 0 <= k < bs1.len() ==> exists|k2: int|
        0 <= k2 < bs2.len() && binding_same(#[trigger] bs1[k], bs2[k2])
    &&& forall|k: int| 0 <= k < bs2.len() ==> exists|k2: int|
        0 <= k2 < bs1.len() && binding_same(#[trigger] bs2[k], bs1[k2])
}

/// A scope that binds each name once is unambiguous for every name.
proof fn lemma_not_ambiguous(bs: Seq<Binding>, sid: int, name: Seq<char>)
    requires
        distinct_names(bs, sid),
    ensures
        !scope_ambiguous(bs, sid, name),
{
    if scope_ambiguous(bs, sid, name) {
        let (k1, k2) = choose|k1: int, k2: int|
            k1 != k2 && entry_matches(bs, sid, name, k1) && entry_matches(bs, sid, name, k2);
        assert(false);
    }
}

/// A name bound in one list is bound in a reordering of it.
proof fn lemma_scope_has_iff(bs1: Seq<Binding>, bs2: Seq<Binding>, sid: int, name: Seq<char>)
    requires
        same_bindings(bs1, bs2),
    ensures
        scope_has(bs1, sid, name) <==> scope_has(bs2, sid, name),
{
    if scope_has(bs1, sid, name) {
        let k = choose|k: int| entry_matches(bs1, sid, name, k);
        let k2 = choose|k2: int| 0 <= k2 < bs2.len() && binding_same(bs1[k], bs2[k2]);
        assert(entry_matches(bs2, sid, name, k2));
    }
    if scope_has(bs2, sid, name) {
        let k = choose|k: int| entry_matches(bs2, sid, name, k);
        let k2 = choose|k2: int| 0 <= k2 < bs1.len() && binding_same(bs2[k], bs1[k2]);
        assert(entry_matches(bs1, sid, name, k2));
    }
}

/// With unique sibling names, the unique binding of a name is the same
/// declaration in both orders.
proof fn lemma_match_entry_same(bs1: Seq<Binding>, bs2: Seq<Binding>, sid: int, name: Seq<char>)
    requires
        same_bindings(bs1, bs2),
        distinct_names(bs1, sid),
        distinct_names(bs2, sid),
        scope_has(bs1, sid, name),
    ensures
        scope_has(bs2, sid, name),
        binding_same(bs1[match_index(bs1, sid, name)], bs2[match_index(bs2, sid, name)]),
{
    lemma_scope_has_iff(bs1, bs2, sid, name);
    let k1 = match_index(bs1, sid, name);
    assert(entry_matches(bs1, sid, name, k1));
    let k2x = choose|k2: int| 0 <= k2 < bs2.len() && binding_same(bs1[k1], bs2[k2]);
    assert(entry_matches(bs2, sid, name, k2x));
    let k2 = match_index(bs2, sid, name);
    assert(entry_matches(bs2, sid, name, k2));
    if k2 != k2x {
        assert(bs2[k2].name@ == bs2[k2x].name@);
        assert(false);
    }
}

/// Descending through a reference gives the same outcome in both orders.
proof fn lemma_descend_order_independent(
    t1: SymbolTable,
    t2: SymbolTable,
    sid: int,
    comps: Seq<Seq<char>>,
)
    requires
        same_bindings(t1.bindings@, t2.bindings@),
        forall|s: int| #[trigger] distinct_names(t1.bindings@, s),
        forall|s: int| #[trigger] distinct_names(t2.bindings@, s),
    ensures
        descend_spec(t1, sid, comps) == descend_spec(t2, sid, comps),
    decreases comps.len(),
{
    if comps.len() > 0 {
        let name = comps[0];
        assert(distinct_names(t1.bindings@, sid));
        assert(distinct_names(t2.bindings@, sid));
        lemma_not_ambiguous(t1.bindings@, sid, name);
        lemma_not_ambiguous(t2.bindings@, sid, name);
        lemma_scope_has_iff(t1.bindings@, t2.bindings@, sid, name);
        if scope_has(t1.bindings@, sid, name) {
            lemma_match_entry_same(t1.bindings@, t2.bindings@, sid, name);
            let b1 = t1.bindings@[match_index(t1.bindings@, sid, name)];
            if comps.len() > 1 {
                match b1.child {
                    Some(c) => {
                        lemma_descend_order_independent(t1, t2, c as int, comps.drop_first());
                    },
                    None => {},
                }
            }
        }
    }
}

/// Resolving a type reference is independent of the declaration order of
/// non-conflicting sibling symbols: two tables with the same scope tree
/// and the same bindings as a set — each scope binding each name once —
/// resolve every reference from every scope to the same outcome. And
/// since resolution is a function of the table, the scope and the
/// reference alone, resolving twice gives the same symbol as resolving
/// once.
pub proof fn lemma_resolution_order_independent(
    t1: SymbolTable,
    t2: SymbolTable,
    sid: int,
    comps: Seq<Seq<char>>,
)
    requires
        wf_table(t1),
        t1.parents@ == t2.parents@,
        same_bindings(t1.bindings@, t2.bindings@),
        forall|s: int| distinct_names(#[trigger] t1.bindings@, s),
        forall|s: int| distinct_names(#[trigger] t2.bindings@, s),
        0 <= sid < t1.parents@.len(),
    ensures
        resolve_spec(t1, sid, comps) == resolve_spec(t2, sid, comps),
    decreases sid,
{
    if comps.len() > 0 {
        let name = comps[0];
        assert(distinct_names(t1.bindings@, sid));
        assert(distinct_names(t2.bindings@, sid));
        lemma_not_ambiguous(t1.bindings@, sid, name);
        lemma_not_ambiguous(t2.bindings@, sid, name);
        lemma_scope_has_iff(t1.bindings@, t2.bindings@, sid, name);
        if scope_has(t1.bindings@, sid, name) || scope_ambiguous(t1.bindings@, sid, name) {
            lemma_descend_order_independent(t1, t2, sid, comps);
        } else {
            match t1.parents@[sid] {
                Some(p) => {
                    if 0 <= p < sid {
                        lemma_resolution_order_independent(t1, t2, p as int, comps);
                    }
                },
                None => {},
            }
        }
    }
}

} // verus!
