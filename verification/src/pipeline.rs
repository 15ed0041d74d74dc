//! The whole pure pipeline: lex and parse each input, resolve the import
//! closure, bind every type reference, validate each file (aggregating all
//! violations within the first broken file), and lower the closure to
//! resolved descriptors in dependency order.

use vstd::prelude::*;
use crate::ast::{FieldType, FileNode, MapValue, wf_file};
use crate::descriptor::{deps_mirror, file_lowered};
use crate::binder::{FileSyms, Resolution, SymKind, SymbolTable, build_table, resolve, wf_table};
use crate::descriptor::{FileDescriptor, build_file_descriptor, resolve_fqn, split_ref};
use crate::diag::{
    CompileError, NameResolutionError, ValidationError, ValidationKind,
};
use crate::parser::copy_chars;
use crate::paths::remove_path_prefix;
use crate::resolver::{
    ResolvedFile, SourceFile, lookup_import, out_ok, resolve_file, statuses_ok,
};
use crate::text::chars_eq;
use crate::validator::{
    check_duplicate_symbols, enum_valid, message_valid, symbols_unique, validate_enum,
    validate_message,
};

verus! {

/// The pipeline's result: the closure's descriptors in dependency order,
/// and each input file's path relative to its resolving include directory,
/// in input order.
#[derive(Clone, Debug)]
pub struct ParsedAndTypechecked {
    pub file_descriptors: Vec<FileDescriptor>,
    pub relative_paths: Vec<Vec<char>>,
}

/// Mutual imports never survive resolution: in a dependency-ordered
/// output, a file whose import resolves to a second file forbids every
/// import of the second file from resolving back to the first, whichever
/// of the two was listed first as input. So no import cycle is ever part
/// of a successful resolution, and a cyclic compilation can only end in
/// an error.
pub proof fn lemma_import_cycle_rejected(
    out: Seq<ResolvedFile>,
    sources: Seq<SourceFile>,
    dirs: Seq<Vec<char>>,
    i: int,
    j: int,
    ki: int,
    kj: int,
)
    requires
        out_ok(out, sources, dirs),
        0 <= i < out.len(),
        0 <= j < out.len(),
        0 <= ki < out[i].ast.imports@.len(),
        0 <= kj < out[j].ast.imports@.len(),
        lookup_import(sources, dirs, out[i].ast.imports@[ki].path@) == Some(out[j].src as int),
    ensures
        lookup_import(sources, dirs, out[j].ast.imports@[kj].path@) != Some(out[i].src as int),
{
    let ji = choose|x: int| 0 <= x < i && (#[trigger] out[x]).src == out[j].src;
    assert(0 <= ji < i && out[ji].src == out[j].src);
    assert(ji == j);
    if lookup_import(sources, dirs, out[j].ast.imports@[kj].path@) == Some(out[i].src as int) {
        let ij = choose|x: int| 0 <= x < j && (#[trigger] out[x]).src == out[i].src;
        assert(0 <= ij < j && out[ij].src == out[i].src);
        assert(ij == i);
    }
}

/// The relative form of an input path: the remainder after the first
/// include directory (tried in declared order) that is a leading directory
/// of the path; a path outside every include directory stays whole.
pub open spec fn relative_spec(path: Seq<char>, dirs: Seq<Vec<char>>, d: int) -> Seq<char>
    decreases dirs.len() - d,
{
    if d < 0 || d >= dirs.len() {
        path
    } else {
        match crate::paths::remove_path_prefix_spec(path, dirs[d]@) {
            Some(rel) => rel,
            None => relative_spec(path, dirs, d + 1),
        }
    }
}

/// The relative path of an input, exactly as `relative_spec` says.
#[verifier::loop_isolation(false)]
fn relative_of(path: &Vec<char>, dirs: &Vec<Vec<char>>) -> (r: Vec<char>)
    ensures
        r@ == relative_spec(path@, dirs@, 0),
{
    let mut d: usize = 0;
    while d < dirs.len()
        invariant
            d <= dirs@.len(),
            relative_spec(path@, dirs@, 0) == relative_spec(path@, dirs@, d as int),
        decreases dirs@.len() - d,
    {
        match remove_path_prefix(path, &dirs[d]) {
            Some(rel) => { return rel },
            None => {},
        }
        d = d + 1;
    }
    copy_chars(path)
}

/// Resolves all named type references of one file (field types, map value
/// types, extend targets, method types), so that binding failures surface
/// before validation, as unresolved or ambiguous reference errors.
#[verifier::loop_isolation(false)]
fn bind_file(f: &FileNode, fi: usize, t: &SymbolTable, fs: &FileSyms) -> (r: Result<
    (),
    NameResolutionError,
>)
    requires
        wf_file(*f),
        wf_table(*t),
        crate::binder::file_bound(*t, *fs, *f, fi as int),
{
    let mut mi: usize = 0;
    while mi < f.messages.len()
        invariant
            mi <= f.messages@.len(),
        decreases f.messages@.len() - mi,
    {
        proof {
            // instantiate the per-message clause of file_bound
            assert(fs.msg_syms@[mi as int] < t.syms@.len());
        }
        assert(fs.msg_scopes@[mi as int] < t.parents@.len());
        let scope = fs.msg_scopes[mi];
        let m = &f.messages[mi];
        let mut k: usize = 0;
        while k < m.fields.len()
            invariant
                k <= m.fields@.len(),
                scope < t.parents@.len(),
            decreases m.fields@.len() - k,
        {
            let fld = &m.fields[k];
            match &fld.ftype {
                FieldType::Named(text) => {
                    match resolve_fqn(t, scope, text, fld.pos) {
                        Ok(_) => {},
                        Err(e) => { return Err(e) },
                    }
                },
                FieldType::MapOf(_, MapValue::Named(text)) => {
                    match resolve_fqn(t, scope, text, fld.pos) {
                        Ok(_) => {},
                        Err(e) => { return Err(e) },
                    }
                },
                _ => {},
            }
            k = k + 1;
        }
        mi = mi + 1;
    }
    let mut xi: usize = 0;
    while xi < f.extends.len()
        invariant
            xi <= f.extends@.len(),
        decreases f.extends@.len() - xi,
    {
        let ex = &f.extends[xi];
        match resolve_fqn(t, fs.file_scope, &ex.target, ex.pos) {
            Ok(_) => {},
            Err(e) => { return Err(e) },
        }
        xi = xi + 1;
    }
    let mut si: usize = 0;
    while si < f.services.len()
        invariant
            si <= f.services@.len(),
        decreases f.services@.len() - si,
    {
        let sv = &f.services[si];
        let mut m: usize = 0;
        while m < sv.methods.len()
            invariant
                m <= sv.methods@.len(),
            decreases sv.methods@.len() - m,
        {
            let md = &sv.methods[m];
            match resolve_fqn(t, fs.file_scope, &md.input, md.pos) {
                Ok(_) => {},
                Err(e) => { return Err(e) },
            }
            match resolve_fqn(t, fs.file_scope, &md.output, md.pos) {
                Ok(_) => {},
                Err(e) => { return Err(e) },
            }
            m = m + 1;
        }
        si = si + 1;
    }
    Ok(())
}

/// Validates one file: all structural message and enum rules, and the rule
/// that service method input/output types must resolve to messages. All
/// violations in the file are aggregated.
#[verifier::loop_isolation(false)]
fn validate_file(f: &FileNode, t: &SymbolTable, fs: &FileSyms) -> (r: Vec<ValidationError>)
    requires
        wf_file(*f),
        wf_table(*t),
        fs.file_scope < t.parents@.len(),
    ensures
        r@.len() == 0 ==> symbols_unique(*f) && (forall|mi: int|
            0 <= mi < f.messages@.len() ==> message_valid(#[trigger] f.messages@[mi], f.syntax))
            && (forall|ei: int| 0 <= ei < f.enums@.len() ==> enum_valid(#[trigger] f.enums@[ei])),
{
    let mut errors: Vec<ValidationError> = check_duplicate_symbols(f);
    let mut mi: usize = 0;
    while mi < f.messages.len()
        invariant
            mi <= f.messages@.len(),
            errors@.len() == 0 ==> symbols_unique(*f) && (forall|x: int|
                0 <= x < mi ==> message_valid(#[trigger] f.messages@[x], f.syntax)),
        decreases f.messages@.len() - mi,
    {
        let mut es = validate_message(&f.messages[mi], f.syntax);
        errors.append(&mut es);
        mi = mi + 1;
    }
    let mut ei: usize = 0;
    while ei < f.enums.len()
        invariant
            ei <= f.enums@.len(),
            errors@.len() == 0 ==> symbols_unique(*f) && (forall|x: int|
                0 <= x < f.messages@.len() ==> message_valid(#[trigger] f.messages@[x], f.syntax))
                && (forall|x: int| 0 <= x < ei ==> enum_valid(#[trigger] f.enums@[x])),
        decreases f.enums@.len() - ei,
    {
        let mut es = validate_enum(&f.enums[ei]);
        errors.append(&mut es);
        ei = ei + 1;
    }
    let mut si: usize = 0;
    while si < f.services.len()
        invariant
            si <= f.services@.len(),
            errors@.len() == 0 ==> symbols_unique(*f) && (forall|x: int|
                0 <= x < f.messages@.len() ==> message_valid(#[trigger] f.messages@[x], f.syntax))
                && (forall|x: int| 0 <= x < f.enums@.len() ==> enum_valid(
                #[trigger] f.enums@[x],
            )),
        decreases f.services@.len() - si,
    {
        let sv = &f.services[si];
        let mut m: usize = 0;
        while m < sv.methods.len()
            invariant
                m <= sv.methods@.len(),
                errors@.len() == 0 ==> symbols_unique(*f) && (forall|x: int|
                    0 <= x < f.messages@.len() ==> message_valid(
                    #[trigger] f.messages@[x],
                    f.syntax,
                )) && (forall|x: int| 0 <= x < f.enums@.len() ==> enum_valid(
                    #[trigger] f.enums@[x],
                )),
            decreases sv.methods@.len() - m,
        {
            let md = &sv.methods[m];
            let mut in_ok = false;
            match split_ref(&md.input) {
                Some((comps, absolute)) => {
                    match resolve(t, fs.file_scope, &comps, absolute) {
                        Resolution::Found(sym) => {
                            in_ok = matches!(t.syms[sym].kind, SymKind::Message { .. });
                        },
                        _ => {},
                    }
                },
                None => {},
            }
            if !in_ok {
                errors.push(
                    ValidationError {
                        kind: ValidationKind::MethodTypeNotMessage,
                        pos: md.pos,
                        other_pos: md.pos,
                    },
                );
            }
            let mut out_is_msg = false;
            match split_ref(&md.output) {
                Some((comps, absolute)) => {
                    match resolve(t, fs.file_scope, &comps, absolute) {
                        Resolution::Found(sym) => {
                            out_is_msg = matches!(t.syms[sym].kind, SymKind::Message { .. });
                        },
                        _ => {},
                    }
                },
                None => {},
            }
            if !out_is_msg {
                errors.push(
                    ValidationError {
                        kind: ValidationKind::MethodTypeNotMessage,
                        pos: md.pos,
                        other_pos: md.pos,
                    },
                );
            }
            m = m + 1;
        }
        si = si + 1;
    }
    errors
}

/// Every returned descriptor corresponds, one to one and in order, to a
/// dependency-ordered closure of well-formed, fully validated files: a
/// file never precedes one it imports, each descriptor is the lowering of
/// its file, carries the file's path known to importers, and records the
/// file's imports.
pub open spec fn closure_descriptors(
    fds: Seq<crate::descriptor::FileDescriptor>,
    closure: Seq<ResolvedFile>,
    sources: Seq<SourceFile>,
    dirs: Seq<Vec<char>>,
) -> bool {
    &&& out_ok(closure, sources, dirs)
    &&& fds.len() == closure.len()
    &&& forall|i: int| 0 <= i < closure.len() ==> {
        let f = (#[trigger] closure[i]).ast;
        &&& file_lowered(fds[i], f)
        &&& fds[i].name@ == closure[i].rel@
        &&& deps_mirror(fds[i], f)
        &&& symbols_unique(f)
        &&& (forall|mi: int| 0 <= mi < f.messages@.len() ==> message_valid(
            #[trigger] f.messages@[mi],
            f.syntax,
        ))
        &&& (forall|ei: int| 0 <= ei < f.enums@.len() ==> enum_valid(#[trigger] f.enums@[ei]))
    }
}

/// The result was lowered, file for file and in order, from some
/// dependency-ordered, fully validated closure of the sources.
pub open spec fn lowered_from_closure(
    p: ParsedAndTypechecked,
    sources: Seq<SourceFile>,
    dirs: Seq<Vec<char>>,
) -> bool {
    exists|closure: Seq<ResolvedFile>| #[trigger] closure_descriptors(
        p.file_descriptors@,
        closure,
        sources,
        dirs,
    )
}

/// The whole pure pipeline over in-memory sources: parses the inputs,
/// resolves their import closure through the include directories, binds
/// and validates every file of the closure, and lowers it, in dependency
/// order, to resolved descriptors. Either every file passes and the whole
/// closure is returned, or the first error aborts the run with nothing.
#[verifier::loop_isolation(false)]
pub fn parse_and_typecheck(
    sources: &Vec<SourceFile>,
    includes: &Vec<Vec<char>>,
    inputs: &Vec<Vec<char>>,
) -> (r: Result<ParsedAndTypechecked, CompileError>)
    ensures
        r matches Ok(p) ==> p.relative_paths@.len() == inputs@.len(),
        r matches Ok(p) ==> forall|x: int| 0 <= x < inputs@.len() ==> (
        #[trigger] p.relative_paths@[x])@ == relative_spec(inputs@[x]@, includes@, 0),
        r matches Ok(p) ==> (inputs@.len() > 0 ==> p.file_descriptors@.len() > 0),
        r matches Ok(p) ==> lowered_from_closure(p, sources@, includes@),
        r matches Err(CompileError::Validation { errors, .. }) ==> errors@.len() > 0,
{
    // resolve the closure of every input, depth first
    let mut st: Vec<u8> = Vec::new();
    while st.len() < sources.len()
        invariant
            st@.len() <= sources@.len(),
            forall|s: int| 0 <= s < st@.len() ==> st@[s] == 0,
        decreases sources@.len() - st@.len(),
    {
        st.push(0);
    }
    let mut out: Vec<ResolvedFile> = Vec::new();
    let mut rels: Vec<Vec<char>> = Vec::new();
    let mut ii: usize = 0;
    while ii < inputs.len()
        invariant
            ii <= inputs@.len(),
            rels@.len() == ii,
            forall|x: int| 0 <= x < ii ==> (#[trigger] rels@[x])@ == relative_spec(
                inputs@[x]@,
                includes@,
                0,
            ),
            ii > 0 ==> out@.len() > 0,
            st@.len() == sources@.len(),
            forall|s: int| 0 <= s < st@.len() ==> #[trigger] st@[s] <= 2,
            forall|s: int| 0 <= s < st@.len() ==> #[trigger] st@[s] != 1,
            statuses_ok(st@, out@),
            out_ok(out@, sources@, includes@),
        decreases inputs@.len() - ii,
    {
        let path = &inputs[ii];
        let rel = relative_of(path, includes);
        // an input is addressed by its path as given
        let mut found: Option<usize> = None;
        let mut s: usize = 0;
        while s < sources.len()
            invariant
                s <= sources@.len(),
                found matches Some(v) ==> v < sources@.len(),
            decreases sources@.len() - s,
        {
            if chars_eq(&sources[s].path, path) {
                found = Some(s);
                s = sources.len();
            } else {
                s = s + 1;
            }
        }
        let si = match found {
            Some(v) => v,
            None => {
                return Err(
                    CompileError::Import(
                        crate::diag::ImportError::NotFound { path: copy_chars(path) },
                    ),
                );
            },
        };
        let status = st[si];
        if status != 2 {
            assert(status == 0);
            let ghost st_pre = st@;
            st[si] = 1;
            let ghost st_marked = st@;
            let mut chain: Vec<Vec<char>> = Vec::new();
            chain.push(copy_chars(&rel));
            let mut chain_srcs: Vec<usize> = Vec::new();
            chain_srcs.push(si);
            let (res, st2, out2) = resolve_file(
                sources,
                includes,
                si,
                copy_chars(&rel),
                st,
                out,
                &mut chain,
                &mut chain_srcs,
            );
            st = st2;
            out = out2;
            match res {
                Ok(()) => {},
                Err(e) => { return Err(e) },
            }
            proof {
                assert forall|s: int| 0 <= s < st@.len() implies st@[s] != 1 by {
                    if st@[s] == 1 {
                        assert(st_marked[s] == 1);
                        assert(s == si);
                        assert(st@[si as int] == 2);
                    }
                }
            }
        }
        rels.push(rel);
        ii = ii + 1;
    }
    // take the closure apart into parallel files and names
    let ghost out0 = out@;
    let mut files: Vec<FileNode> = Vec::new();
    let mut names: Vec<Vec<char>> = Vec::new();
    while out.len() > 0
        invariant
            files@.len() == names@.len(),
            files@.len() + out@.len() == out0.len(),
            out@ == out0.skip(files@.len() as int),
            forall|x: int| 0 <= x < files@.len() ==> wf_file(#[trigger] files@[x]),
            forall|x: int| 0 <= x < files@.len() ==> #[trigger] files@[x] == out0[x].ast
                && names@[x]@ == out0[x].rel@,
        decreases out@.len(),
    {
        let ghost done = files@.len() as int;
        let rf = out.remove(0);
        proof {
            assert(rf == out0[done]);
            assert(out@ =~= out0.skip(done + 1));
        }
        files.push(rf.ast);
        names.push(rf.rel);
    }
    // bind: one global scope tree over the closure, every reference resolved
    let (table, fsyms) = build_table(&files);
    let mut fi: usize = 0;
    while fi < files.len()
        invariant
            fi <= files@.len() == names@.len() == fsyms@.len(),
        decreases files@.len() - fi,
    {
        match bind_file(&files[fi], fi, &table, &fsyms[fi]) {
            Ok(()) => {},
            Err(e) => {
                return Err(CompileError::Name { file: copy_chars(&names[fi]), error: e });
            },
        }
        fi = fi + 1;
    }
    // validate: all violations of the first broken file together
    let mut fi: usize = 0;
    while fi < files.len()
        invariant
            fi <= files@.len() == names@.len() == fsyms@.len(),
            forall|x: int| 0 <= x < fi ==> symbols_unique(#[trigger] files@[x]) && (forall|mi: int|
                0 <= mi < files@[x].messages@.len() ==> message_valid(
                    #[trigger] files@[x].messages@[mi],
                    files@[x].syntax,
                )) && (forall|ei: int| 0 <= ei < files@[x].enums@.len() ==> enum_valid(
                #[trigger] files@[x].enums@[ei],
            )),
        decreases files@.len() - fi,
    {
        let errors = validate_file(&files[fi], &table, &fsyms[fi]);
        if errors.len() > 0 {
            return Err(CompileError::Validation { file: copy_chars(&names[fi]), errors });
        }
        fi = fi + 1;
    }
    // lower the closure, in dependency order
    let mut fds: Vec<FileDescriptor> = Vec::new();
    let mut fi: usize = 0;
    while fi < files.len()
        invariant
            fi <= files@.len() == names@.len() == fsyms@.len(),
            fds@.len() == fi,
            forall|x: int| 0 <= x < fi ==> file_lowered(#[trigger] fds@[x], files@[x])
                && fds@[x].name@ == names@[x]@ && deps_mirror(fds@[x], files@[x]),
        decreases files@.len() - fi,
    {
        match build_file_descriptor(&files[fi], fi, &table, &fsyms[fi], &names[fi]) {
            Ok(fd) => {
                fds.push(fd);
            },
            Err(e) => {
                return Err(CompileError::Name { file: copy_chars(&names[fi]), error: e });
            },
        }
        fi = fi + 1;
    }
    proof {
        // the closure the dismantled output recorded witnesses the contract
        assert(files@.len() == out0.len());
        assert forall|i: int| 0 <= i < out0.len() implies {
            let f = (#[trigger] out0[i]).ast;
            &&& file_lowered(fds@[i], f)
            &&& fds@[i].name@ == out0[i].rel@
            &&& deps_mirror(fds@[i], f)
            &&& symbols_unique(f)
            &&& (forall|mi: int| 0 <= mi < f.messages@.len() ==> message_valid(
                #[trigger] f.messages@[mi],
                f.syntax,
            ))
            &&& (forall|ei: int| 0 <= ei < f.enums@.len() ==> enum_valid(#[trigger] f.enums@[ei]))
        } by {
            assert(files@[i] == out0[i].ast);
        }
        assert(closure_descriptors(fds@, out0, sources@, includes@));
    }
    let result = ParsedAndTypechecked { file_descriptors: fds, relative_paths: rels };
    proof {
        assert(closure_descriptors(result.file_descriptors@, out0, sources@, includes@));
        assert(lowered_from_closure(result, sources@, includes@));
    }
    Ok(result)
}

} // verus!
