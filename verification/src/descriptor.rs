//! The descriptor builder: lowers a bound, validated file into the
//! resolved descriptor model. Every symbol gets its fully qualified dotted
//! name, map fields are desugared into synthetic nested entry messages
//! with `key = 1` and `value = 2`, and oneof indices follow declaration
//! order.

use vstd::prelude::*;
use crate::ast::{
    FieldType, FileNode, Label, MapValue, OptionNode, ScalarType, Syntax, dotted, enum_path,
    msg_path, wf_file,
};
use crate::binder::{FileSyms, Resolution, SymbolTable, comps_view, file_bound, lemma_dotted_push, resolve, wf_table};
use crate::diag::{NameResolutionError, Pos};
use crate::parser::copy_chars;
use crate::text::chars_of;

verus! {

#[derive(Clone, Debug)]
pub struct FieldDescriptor {
    pub name: Vec<char>,
    pub number: u64,
    pub label: Label,
    /// The scalar type, for scalar fields.
    pub scalar: Option<ScalarType>,
    /// The resolved fully qualified type name, for message/enum fields.
    pub type_fqn: Vec<char>,
    pub oneof_index: Option<usize>,
}

#[derive(Clone, Debug)]
pub struct MessageDescriptor {
    pub name: Vec<char>,
    pub fqn: Vec<char>,
    pub parent: Option<usize>,
    pub fields: Vec<FieldDescriptor>,
    pub oneofs: Vec<Vec<char>>,
    /// True of the synthetic entry message a map field lowers to.
    pub map_entry: bool,
}

#[derive(Clone, Debug)]
pub struct EnumValueDescriptor {
    pub name: Vec<char>,
    pub number: i64,
}

#[derive(Clone, Debug)]
pub struct EnumDescriptor {
    pub name: Vec<char>,
    pub fqn: Vec<char>,
    pub parent: Option<usize>,
    pub values: Vec<EnumValueDescriptor>,
}

#[derive(Clone, Debug)]
pub struct MethodDescriptor {
    pub name: Vec<char>,
    pub input_type: Vec<char>,
    pub output_type: Vec<char>,
}

#[derive(Clone, Debug)]
pub struct ServiceDescriptor {
    pub name: Vec<char>,
    pub methods: Vec<MethodDescriptor>,
}

#[derive(Clone, Debug)]
pub struct FileDescriptor {
    /// The file's path relative to the include directory that resolved it.
    pub name: Vec<char>,
    pub package: Vec<Vec<char>>,
    pub syntax: Syntax,
    pub messages: Vec<MessageDescriptor>,
    pub enums: Vec<EnumDescriptor>,
    pub services: Vec<ServiceDescriptor>,
    pub options: Vec<OptionNode>,
    pub deps: Vec<Vec<char>>,
}

pub open spec fn desc_package_path(fd: FileDescriptor) -> Seq<Seq<char>> {
    fd.package@.map_values(|v: Vec<char>| v@)
}

/// The dotted components a message descriptor's name derives from: the
/// package, the enclosing messages, the own name — read off the
/// descriptor alone.
pub open spec fn desc_msg_path(fd: FileDescriptor, i: int) -> Seq<Seq<char>>
    recommends
        0 <= i < fd.messages@.len(),
    decreases i,
{
    let m = fd.messages@[i];
    match m.parent {
        Some(p) => if 0 <= p < i {
            desc_msg_path(fd, p as int).push(m.name@)
        } else {
            seq![m.name@]
        },
        None => desc_package_path(fd).push(m.name@),
    }
}

/// The descriptor mirrors the file's declaration structure: same package,
/// and for every declared message the same name and nesting.
pub open spec fn desc_mirrors(fd: FileDescriptor, f: FileNode) -> bool {
    &&& desc_package_path(fd) == crate::ast::package_path(f)
    &&& fd.messages@.len() >= f.messages@.len()
    &&& forall|mi: int| 0 <= mi < f.messages@.len() ==> {
        let dm = #[trigger] fd.messages@[mi];
        &&& dm.name@ == f.messages@[mi].name@
        &&& dm.parent == f.messages@[mi].parent
        &&& dm.fqn@ == dotted(msg_path(f, mi))
    }
}

/// Re-deriving a declared message's dotted name from the descriptor
/// reproduces the name computed during binding.
pub proof fn lemma_fqn_round_trip_at(fd: FileDescriptor, f: FileNode, mi: int)
    requires
        wf_file(f),
        desc_mirrors(fd, f),
        0 <= mi < f.messages@.len(),
    ensures
        desc_msg_path(fd, mi) == msg_path(f, mi),
        dotted(desc_msg_path(fd, mi)) == fd.messages@[mi].fqn@,
    decreases mi,
{
    match f.messages@[mi].parent {
        Some(p) => {
            lemma_fqn_round_trip_at(fd, f, p as int);
        },
        None => {},
    }
}

/// The round trip over a whole file: every declared message's fully
/// qualified name, re-derived from the lowered descriptor, is the dotted
/// name the binder computed.
pub proof fn lemma_fqn_round_trip(fd: FileDescriptor, f: FileNode)
    requires
        wf_file(f),
        desc_mirrors(fd, f),
    ensures
        forall|mi: int| 0 <= mi < f.messages@.len() ==> dotted(desc_msg_path(fd, mi)) == (
        #[trigger] fd.messages@[mi]).fqn@,
{
    assert forall|mi: int| 0 <= mi < f.messages@.len() implies dotted(desc_msg_path(fd, mi)) == (
    #[trigger] fd.messages@[mi]).fqn@ by {
        lemma_fqn_round_trip_at(fd, f, mi);
    }
}

/// The uppercase form of an ASCII letter.
pub open spec fn upper_char(c: char) -> char {
    if 'a' <= c && c <= 'z' {
        (((c as u8) - 0x20) as char)
    } else {
        c
    }
}

/// The deterministic name of the synthetic message a map field lowers to:
/// the field name with its first character capitalized, then `Entry`.
pub open spec fn map_entry_name_spec(field: Seq<char>) -> Seq<char> {
    if field.len() == 0 {
        "Entry"@
    } else {
        seq![upper_char(field[0])] + field.skip(1) + "Entry"@
    }
}

fn exec_upper(c: char) -> (r: char)
    ensures
        r == upper_char(c),
{
    if 'a' <= c && c <= 'z' {
        ((c as u8) - 0x20) as char
    } else {
        c
    }
}

fn map_entry_name(field: &Vec<char>) -> (r: Vec<char>)
    ensures
        r@ == map_entry_name_spec(field@),
{
    let mut r: Vec<char> = Vec::new();
    let suffix = chars_of("Entry");
    if field.len() == 0 {
        let mut s = suffix;
        r.append(&mut s);
        assert(r@ =~= map_entry_name_spec(field@));
        return r;
    }
    r.push(exec_upper(field[0]));
    let mut i: usize = 1;
    while i < field.len()
        invariant
            1 <= i <= field@.len(),
            field@.len() > 0,
            r@ == seq![upper_char(field@[0])] + field@.subrange(1, i as int),
        decreases field@.len() - i,
    {
        r.push(field[i]);
        assert(r@ =~= seq![upper_char(field@[0])] + field@.subrange(1, i + 1));
        i = i + 1;
    }
    let mut s = suffix;
    r.append(&mut s);
    assert(r@ =~= map_entry_name_spec(field@));
    r
}

/// A reference beginning with `.` is absolute, resolved from the root.
pub open spec fn ref_absolute(text: Seq<char>) -> bool {
    text.len() > 0 && text[0] == '.'
}

/// The reference text without its leading dot, if any.
pub open spec fn ref_body(text: Seq<char>) -> Seq<char> {
    if ref_absolute(text) {
        text.skip(1)
    } else {
        text
    }
}

/// `comps` is the component split of the reference: non-empty, dot-free
/// components that, joined by dots, give the text minus a leading dot.
pub open spec fn split_of(comps: Seq<Seq<char>>, text: Seq<char>) -> bool {
    &&& comps.len() > 0
    &&& forall|i: int| 0 <= i < comps.len() ==> (#[trigger] comps[i]).len() > 0
    &&& forall|i: int, j: int|
        0 <= i < comps.len() && 0 <= j < comps[i].len() ==> #[trigger] comps[i][j] != '.'
    &&& dotted(comps) == ref_body(text)
}

/// Non-empty, dot-free components joined by dots never give an empty
/// text, nor one with a leading, trailing or doubled dot.
pub proof fn lemma_split_shape(comps: Seq<Seq<char>>)
    requires
        comps.len() > 0,
        forall|i: int| 0 <= i < comps.len() ==> (#[trigger] comps[i]).len() > 0,
        forall|i: int, j: int|
            0 <= i < comps.len() && 0 <= j < comps[i].len() ==> #[trigger] comps[i][j] != '.',
    ensures
        dotted(comps).len() > 0,
        dotted(comps)[0] != '.',
        dotted(comps).last() != '.',
        forall|i: int|
            0 < i < dotted(comps).len() ==> !(dotted(comps)[i - 1] == '.'
                && #[trigger] dotted(comps)[i] == '.'),
    decreases comps.len(),
{
    let d = dotted(comps);
    if comps.len() == 1 {
        assert(d == comps[0]);
    } else {
        let front = comps.drop_last();
        let c = comps.last();
        assert(forall|i: int| 0 <= i < front.len() ==> front[i] == comps[i]);
        lemma_split_shape(front);
        let a = dotted(front);
        assert(d == a + seq!['.'] + c);
        let al = a.len() as int;
        assert(d[0] == a[0]);
        assert(d.last() == c.last());
        assert(c.last() != '.');
        assert forall|i: int|
            0 < i < d.len() implies !(d[i - 1] == '.' && #[trigger] d[i] == '.') by {
            if i < al {
                assert(d[i] == a[i] && d[i - 1] == a[i - 1]);
            } else if i == al {
                assert(d[i - 1] == a[al - 1]);
                assert(a[al - 1] == a.last());
            } else if i == al + 1 {
                assert(d[i] == c[0]);
                assert(c[0] != '.');
            } else {
                assert(d[i] == c[i - al - 1]);
                assert(c[i - al - 1] != '.');
            }
        }
    }
}

/// Splits a possibly absolute dotted reference into its non-empty,
/// dot-free components. `None` exactly when no split exists: the body is
/// empty or has a leading, trailing or doubled dot.
#[verifier::loop_isolation(false)]
pub fn split_ref(text: &Vec<char>) -> (r: Option<(Vec<Vec<char>>, bool)>)
    ensures
        r matches Some(o) ==> split_of(comps_view(o.0), text@) && o.1
            == ref_absolute(text@),
        r is None ==> forall|comps: Seq<Seq<char>>| !split_of(comps, text@),
{
    let ghost body = ref_body(text@);
    let mut comps: Vec<Vec<char>> = Vec::new();
    let mut start: usize = 0;
    let absolute = text.len() > 0 && text[0] == '.';
    if absolute {
        start = 1;
    }
    assert(body =~= text@.skip(start as int));
    let mut cur: Vec<char> = Vec::new();
    let mut i = start;
    proof {
        assert(dotted(comps_view(comps).push(cur@)) =~= body.take(0));
    }
    while i < text.len()
        invariant
            start <= i <= text@.len(),
            dotted(comps_view(comps).push(cur@)) == body.take(i - start),
            forall|x: int| 0 <= x < comps@.len() ==> (#[trigger] comps_view(
                comps,
            )[x]).len() > 0,
            forall|x: int, j: int|
                0 <= x < comps@.len() && 0 <= j < comps@[x]@.len() ==> #[trigger] comps@[x]@[j]
                    != '.',
            forall|j: int| 0 <= j < cur@.len() ==> cur@[j] != '.',
            cur@.len() == 0 ==> (i == start || text@[i - 1] == '.'),
        decreases text@.len() - i,
    {
        let ghost pre_view = comps_view(comps);
        let ghost bi = i - start;
        assert(body[bi] == text@[i as int]);
        if text[i] == '.' {
            if cur.len() == 0 {
                proof {
                    assert forall|comps2: Seq<Seq<char>>| !split_of(comps2, text@) by {
                        if split_of(comps2, text@) {
                            lemma_split_shape(comps2);
                            if bi == 0 {
                                assert(body[0] == '.');
                            } else {
                                assert(body[bi - 1] == text@[i - 1]);
                                assert(body[bi - 1] == '.' && body[bi] == '.');
                            }
                            assert(false);
                        }
                    }
                }
                return None;
            }
            proof {
                lemma_dotted_push(pre_view, cur@);
                let new_view = pre_view.push(cur@);
                lemma_dotted_push(new_view, Seq::<char>::empty());
                assert(body.take(bi + 1) =~= body.take(bi).push('.'));
                assert(dotted(new_view.push(Seq::<char>::empty())) =~= body.take(bi + 1));
            }
            comps.push(cur);
            cur = Vec::new();
            proof {
                assert(comps_view(comps) =~= pre_view.push(
                    comps_view(comps)[comps@.len() - 1],
                ));
            }
        } else {
            let c = text[i];
            proof {
                lemma_dotted_push(pre_view, cur@);
                lemma_dotted_push(pre_view, cur@.push(c));
                assert(body.take(bi + 1) =~= body.take(bi).push(c));
                if pre_view.len() == 0 {
                    assert(cur@.push(c) =~= body.take(bi).push(c));
                } else {
                    assert(dotted(pre_view) + seq!['.'] + cur@.push(c) =~= (dotted(pre_view)
                        + seq!['.'] + cur@).push(c));
                }
            }
            cur.push(c);
        }
        i = i + 1;
    }
    if cur.len() == 0 {
        proof {
            assert forall|comps2: Seq<Seq<char>>| !split_of(comps2, text@) by {
                if split_of(comps2, text@) {
                    lemma_split_shape(comps2);
                    if i == start {
                        assert(body.len() == 0);
                    } else {
                        assert(body.last() == text@[i - 1]);
                        assert(body.last() == '.');
                    }
                    assert(false);
                }
            }
        }
        return None;
    }
    let ghost pre_view = comps_view(comps);
    proof {
        lemma_dotted_push(pre_view, cur@);
        assert(body.take(i - start) =~= body);
    }
    comps.push(cur);
    proof {
        assert(comps_view(comps) =~= pre_view.push(
            comps_view(comps)[comps@.len() - 1],
        ));
        assert(dotted(comps_view(comps)) == body);
        assert(split_of(comps_view(comps), text@));
    }
    Some((comps, absolute))
}

/// What resolving a split reference yields: an absolute reference
/// descends from the root; a relative one searches outward from `sid`.
pub open spec fn ref_resolution(
    t: SymbolTable,
    sid: int,
    comps: Seq<Seq<char>>,
    absolute: bool,
) -> crate::binder::Resolution {
    if absolute {
        crate::binder::descend_spec(t, 0, comps)
    } else {
        crate::binder::resolve_spec(t, sid, comps)
    }
}

/// The reference text has a well-formed split and it resolves to a
/// symbol from scope `sid`.
pub open spec fn ref_resolves(t: SymbolTable, sid: int, text: Seq<char>) -> bool {
    &&& exists|comps: Seq<Seq<char>>| #[trigger] split_of(comps, text)
    &&& forall|comps: Seq<Seq<char>>| #[trigger] split_of(comps, text) ==> ref_resolution(
        t,
        sid,
        comps,
        ref_absolute(text),
    ) is Found
}

} // verus!

verus! {

/// Shape of every synthetic map-entry message: flagged, nested in a
/// declared message, two fields `key = 1` and `value = 2`.
pub open spec fn synth_entry_shape(sm: MessageDescriptor, orig: int, s: int) -> bool {
    &&& sm.map_entry
    &&& (sm.parent matches Some(p) && 0 <= p < orig)
    &&& sm.fields@.len() == 2
    &&& sm.fields@[0].name@ == "key"@
    &&& sm.fields@[0].number == 1
    &&& sm.fields@[1].name@ == "value"@
    &&& sm.fields@[1].number == 2
}

/// One lowered field corresponds to its declaration: same name, number
/// and oneof index; scalars keep their type; a map field becomes repeated
/// with the deterministic entry-message type name.
pub open spec fn field_lowered(
    df: FieldDescriptor,
    f: FileNode,
    mi: int,
    k: int,
) -> bool {
    let src = f.messages@[mi].fields@[k];
    &&& df.name@ == src.name@
    &&& df.number == src.number
    &&& df.oneof_index == src.oneof
    &&& (src.ftype matches FieldType::Scalar(s) ==> df.scalar == Some(s) && df.label == src.label)
    &&& (src.ftype matches FieldType::MapOf(key, _) ==> df.label is Repeated && df.scalar is None
        && df.type_fqn@ == dotted(msg_path(f, mi)) + seq!['.'] + map_entry_name_spec(src.name@))
}

/// The whole lowering contract of one file.
pub open spec fn file_lowered(fd: FileDescriptor, f: FileNode) -> bool {
    &&& desc_mirrors(fd, f)
    &&& fd.syntax == f.syntax
    &&& fd.enums@.len() == f.enums@.len()
    &&& forall|ei: int| 0 <= ei < f.enums@.len() ==> {
        let de = #[trigger] fd.enums@[ei];
        &&& de.name@ == f.enums@[ei].name@
        &&& de.parent == f.enums@[ei].parent
        &&& de.fqn@ == dotted(enum_path(f, ei))
        &&& de.values@.len() == f.enums@[ei].values@.len()
    }
    &&& forall|mi: int| 0 <= mi < f.messages@.len() ==> (#[trigger] fd.messages@[mi]).fields@.len()
        == f.messages@[mi].fields@.len() && fd.messages@[mi].oneofs@.len()
        == f.messages@[mi].oneofs@.len() && !fd.messages@[mi].map_entry
    &&& forall|mi: int, k: int|
        0 <= mi < f.messages@.len() && 0 <= k < f.messages@[mi].fields@.len() ==> field_lowered(
            #[trigger] fd.messages@[mi].fields@[k],
            f,
            mi,
            k,
        )
    &&& forall|s: int| f.messages@.len() <= s < fd.messages@.len() ==> synth_entry_shape(
        #[trigger] fd.messages@[s],
        f.messages@.len() as int,
        s,
    )
}

/// A lowered message-type field carries the fully qualified name of the
/// symbol its declared reference resolves to.
pub open spec fn named_field_lowered(
    df: FieldDescriptor,
    f: FileNode,
    mi: int,
    k: int,
    t: SymbolTable,
    scope: int,
) -> bool {
    f.messages@[mi].fields@[k].ftype matches FieldType::Named(text) ==> df.scalar is None
        && df.label == f.messages@[mi].fields@[k].label && exists|comps: Seq<Seq<char>>|
        #[trigger] split_of(comps, text@) && (ref_resolution(t, scope, comps, ref_absolute(text@))
            matches Resolution::Found(sym) && sym < t.syms@.len() && df.type_fqn@ == t.syms@[
            sym as int
        ].fqn@)
}

/// The synthetic entry message a map field lowers to, matched to the
/// lowered field: flagged, nested in the declaring message, named from
/// the field, typed `key = 1` of the key scalar and `value = 2` of the
/// value type, and carrying exactly the field's type name.
pub open spec fn synth_matches(
    sm: MessageDescriptor,
    df: FieldDescriptor,
    key: ScalarType,
    val: MapValue,
    mi: int,
) -> bool {
    &&& sm.map_entry
    &&& (sm.parent matches Some(p) && p == mi)
    &&& sm.name@ == map_entry_name_spec(df.name@)
    &&& sm.fqn@ == df.type_fqn@
    &&& sm.fields@.len() == 2
    &&& sm.fields@[0].name@ == "key"@
    &&& sm.fields@[0].number == 1
    &&& sm.fields@[0].scalar == Some(key)
    &&& sm.fields@[0].label is Unlabeled
    &&& sm.fields@[1].name@ == "value"@
    &&& sm.fields@[1].number == 2
    &&& sm.fields@[1].label is Unlabeled
    &&& (val matches MapValue::Scalar(s2) ==> sm.fields@[1].scalar == Some(s2))
    &&& (val matches MapValue::Named(_) ==> sm.fields@[1].scalar is None)
}

/// Every map field of the file has its synthetic entry message among the
/// appended descriptors.
pub open spec fn map_entry_lowered(fd: FileDescriptor, f: FileNode, mi: int, k: int) -> bool {
    f.messages@[mi].fields@[k].ftype matches FieldType::MapOf(key, val) ==> exists|si: int|
        f.messages@.len() <= si < fd.messages@.len() && synth_matches(
            #[trigger] fd.messages@[si],
            fd.messages@[mi].fields@[k],
            key,
            val,
            mi,
        )
}

/// The descriptor records the file's imports, in order.
pub open spec fn deps_mirror(fd: FileDescriptor, f: FileNode) -> bool {
    &&& fd.deps@.len() == f.imports@.len()
    &&& forall|k: int| 0 <= k < f.imports@.len() ==> (#[trigger] fd.deps@[k])@
        == f.imports@[k].path@
}

/// Every reference the builder must resolve — field types, map value
/// types, method input and output types — resolves from its scope.
pub open spec fn file_refs_resolve(f: FileNode, t: SymbolTable, fs: FileSyms) -> bool {
    &&& forall|mi: int, k: int|
        0 <= mi < f.messages@.len() && 0 <= k < f.messages@[mi].fields@.len() ==> {
            let ft = (#[trigger] f.messages@[mi].fields@[k]).ftype;
            &&& (ft matches FieldType::Named(text) ==> ref_resolves(
                t,
                fs.msg_scopes@[mi] as int,
                text@,
            ))
            &&& (ft matches FieldType::MapOf(_, MapValue::Named(vt)) ==> ref_resolves(
                t,
                fs.msg_scopes@[mi] as int,
                vt@,
            ))
        }
    &&& forall|si: int, xi: int|
        0 <= si < f.services@.len() && 0 <= xi < f.services@[si].methods@.len() ==> ref_resolves(
            t,
            fs.file_scope as int,
            (#[trigger] f.services@[si].methods@[xi]).input@,
        ) && ref_resolves(t, fs.file_scope as int, f.services@[si].methods@[xi].output@)
}

fn lower_map_value(
    t: &SymbolTable,
    scope: usize,
    val: &MapValue,
    pos: Pos,
) -> (r: Result<(Option<ScalarType>, Vec<char>), NameResolutionError>)
    requires
        wf_table(*t),
        scope < t.parents@.len(),
    ensures
        (*val) matches MapValue::Scalar(_) ==> r is Ok,
        (*val) matches MapValue::Named(text) && ref_resolves(*t, scope as int, text@) ==> r is Ok,
        r matches Ok(o) ==> ((*val) matches MapValue::Scalar(s) ==> o.0 == Some(s)),
        r matches Ok(o) ==> ((*val) matches MapValue::Named(_) ==> o.0 is None),
{
    match val {
        MapValue::Scalar(s) => Ok((Some(*s), Vec::new())),
        MapValue::Named(text) => {
            match resolve_fqn(t, scope, text, pos) {
                Ok(v) => Ok((None, v)),
                Err(e) => Err(e),
            }
        },
    }
}

/// Resolves a dotted reference from `scope` and returns the fully
/// qualified name of the symbol it binds to. Succeeds whenever the
/// reference has a well-formed split that resolves; fails with the
/// reference and its position otherwise.
pub fn resolve_fqn(t: &SymbolTable, scope: usize, text: &Vec<char>, pos: Pos) -> (r: Result<
    Vec<char>,
    NameResolutionError,
>)
    requires
        wf_table(*t),
        scope < t.parents@.len(),
    ensures
        ref_resolves(*t, scope as int, text@) ==> r is Ok,
        r matches Ok(v) ==> exists|comps: Seq<Seq<char>>|
            #[trigger] split_of(comps, text@) && (ref_resolution(
                *t,
                scope as int,
                comps,
                ref_absolute(text@),
            ) matches Resolution::Found(sym) && sym < t.syms@.len() && v@ == t.syms@[
                sym as int
            ].fqn@),
        r matches Err(e) ==> !ref_resolves(*t, scope as int, text@),
        r matches Err(NameResolutionError::Unresolved { reference, pos: q }) ==> reference@
            == text@ && q == pos,
        r matches Err(NameResolutionError::Ambiguous { reference, pos: q }) ==> reference@
            == text@ && q == pos,
{
    match split_ref(text) {
        Some((comps, absolute)) => {
            let ghost cv = comps_view(comps);
            match resolve(t, scope, &comps, absolute) {
                Resolution::Found(sym) => {
                    proof {
                        assert(split_of(cv, text@));
                        assert(ref_resolution(*t, scope as int, cv, ref_absolute(text@))
                            matches Resolution::Found(s2) && s2 == sym);
                    }
                    Ok(copy_chars(&t.syms[sym].fqn))
                },
                Resolution::Ambig => {
                    proof {
                        assert(!(ref_resolution(*t, scope as int, cv, ref_absolute(text@))
                            is Found));
                        assert(!ref_resolves(*t, scope as int, text@));
                    }
                    Err(NameResolutionError::Ambiguous { reference: copy_chars(text), pos })
                },
                Resolution::Missing => {
                    proof {
                        assert(!(ref_resolution(*t, scope as int, cv, ref_absolute(text@))
                            is Found));
                        assert(!ref_resolves(*t, scope as int, text@));
                    }
                    Err(NameResolutionError::Unresolved { reference: copy_chars(text), pos })
                },
            }
        },
        None => {
            proof {
                assert(!ref_resolves(*t, scope as int, text@));
            }
            Err(NameResolutionError::Unresolved { reference: copy_chars(text), pos })
        },
    }
}

/// Lowers one bound, validated file into its resolved descriptor.
/// Fails only when a type reference does not resolve.
#[verifier::loop_isolation(false)]
#[verifier::rlimit(100)]
pub fn build_file_descriptor(
    f: &FileNode,
    fi: usize,
    t: &SymbolTable,
    fs: &FileSyms,
    rel: &Vec<char>,
) -> (r: Result<FileDescriptor, NameResolutionError>)
    requires
        wf_file(*f),
        wf_table(*t),
        file_bound(*t, *fs, *f, fi as int),
    ensures
        r matches Ok(fd) ==> file_lowered(fd, *f),
        r matches Ok(fd) ==> fd.name@ == rel@,
        r matches Ok(fd) ==> deps_mirror(fd, *f),
        r matches Ok(fd) ==> forall|mi: int, k: int|
            0 <= mi < f.messages@.len() && 0 <= k < f.messages@[mi].fields@.len()
                ==> named_field_lowered(
                #[trigger] fd.messages@[mi].fields@[k],
                *f,
                mi,
                k,
                *t,
                fs.msg_scopes@[mi] as int,
            ) && map_entry_lowered(fd, *f, mi, k),
        file_refs_resolve(*f, *t, *fs) ==> r is Ok,
{
    let orig = f.messages.len();
    let mut messages: Vec<MessageDescriptor> = Vec::new();
    let mut synths: Vec<MessageDescriptor> = Vec::new();
    let mut mi: usize = 0;
    while mi < orig
        invariant
            mi <= orig == f.messages@.len(),
            messages@.len() == mi,
            forall|x: int| 0 <= x < mi ==> {
                let dm = #[trigger] messages@[x];
                &&& dm.name@ == f.messages@[x].name@
                &&& dm.parent == f.messages@[x].parent
                &&& dm.fqn@ == dotted(msg_path(*f, x))
                &&& dm.fields@.len() == f.messages@[x].fields@.len()
                &&& dm.oneofs@.len() == f.messages@[x].oneofs@.len()
                &&& !dm.map_entry
            },
            forall|x: int, k: int|
                0 <= x < mi && 0 <= k < f.messages@[x].fields@.len() ==> field_lowered(
                    #[trigger] messages@[x].fields@[k],
                    *f,
                    x,
                    k,
                ) && named_field_lowered(
                    messages@[x].fields@[k],
                    *f,
                    x,
                    k,
                    *t,
                    fs.msg_scopes@[x] as int,
                ),
            forall|x: int, k: int|
                0 <= x < mi && 0 <= k < f.messages@[x].fields@.len() ==> ((
                #[trigger] f.messages@[x].fields@[k]).ftype matches FieldType::MapOf(key, val)
                    ==> exists|si: int|
                    0 <= si < synths@.len() && synth_matches(
                        #[trigger] synths@[si],
                        messages@[x].fields@[k],
                        key,
                        val,
                        x,
                    )),
            forall|s: int| 0 <= s < synths@.len() ==> synth_entry_shape(
                #[trigger] synths@[s],
                orig as int,
                s,
            ),
        decreases orig - mi,
    {
        let ghost synths_msg = synths@;
        let ghost messages_msg = messages@;
        let m = &f.messages[mi];
        proof {
            assert(fs.msg_syms@[mi as int] < t.syms@.len());
        }
        let scope = fs.msg_scopes[mi];
        let fqn = copy_chars(&t.syms[fs.msg_syms[mi]].fqn);
        assert(fqn@ == dotted(msg_path(*f, mi as int)));
        let mut fields: Vec<FieldDescriptor> = Vec::new();
        let mut k: usize = 0;
        while k < m.fields.len()
            invariant
                k <= m.fields@.len(),
                fields@.len() == k,
                forall|x: int| 0 <= x < k ==> field_lowered(
                    #[trigger] fields@[x],
                    *f,
                    mi as int,
                    x,
                ) && named_field_lowered(fields@[x], *f, mi as int, x, *t, scope as int),
                forall|x: int|
                    0 <= x < k ==> ((#[trigger] f.messages@[mi as int].fields@[x]).ftype matches
                        FieldType::MapOf(key, val) ==> exists|si: int|
                        0 <= si < synths@.len() && synth_matches(
                            #[trigger] synths@[si],
                            fields@[x],
                            key,
                            val,
                            mi as int,
                        )),
                forall|s: int| 0 <= s < synths@.len() ==> synth_entry_shape(
                    #[trigger] synths@[s],
                    orig as int,
                    s,
                ),
                synths_msg.is_prefix_of(synths@),
            decreases m.fields@.len() - k,
        {
            let ghost synths_iter = synths@;
            let ghost fields_iter = fields@;
            let fld = &m.fields[k];
            match &fld.ftype {
                FieldType::Scalar(s) => {
                    fields.push(
                        FieldDescriptor {
                            name: copy_chars(&fld.name),
                            number: fld.number,
                            label: fld.label,
                            scalar: Some(*s),
                            type_fqn: Vec::new(),
                            oneof_index: fld.oneof,
                        },
                    );
                },
                FieldType::Named(text) => {
                    let tf = match resolve_fqn(t, scope, text, fld.pos) {
                        Ok(o) => o,
                        Err(e) => {
                            proof {
                                assert(f.messages@[mi as int].fields@[k as int].ftype matches
                                    FieldType::Named(tx) && tx@ == text@);
                                assert(!file_refs_resolve(*f, *t, *fs));
                            }
                            return Err(e);
                        },
                    };
                    fields.push(
                        FieldDescriptor {
                            name: copy_chars(&fld.name),
                            number: fld.number,
                            label: fld.label,
                            scalar: None,
                            type_fqn: tf,
                            oneof_index: fld.oneof,
                        },
                    );
                },
                FieldType::MapOf(key, val) => {
                    let (vscalar, vfqn) = match lower_map_value(t, scope, val, fld.pos) {
                        Ok(o) => o,
                        Err(e) => {
                            proof {
                                assert((*val) matches MapValue::Named(vt) && f.messages@[
                                    mi as int
                                ].fields@[k as int].ftype matches FieldType::MapOf(
                                    _,
                                    MapValue::Named(vt2),
                                ) && vt2@ == vt@);
                                assert(!file_refs_resolve(*f, *t, *fs));
                            }
                            return Err(e);
                        },
                    };
                    let entry_name = map_entry_name(&fld.name);
                    let mut entry_fqn = copy_chars(&fqn);
                    entry_fqn.push('.');
                    let mut en = copy_chars(&entry_name);
                    entry_fqn.append(&mut en);
                    assert(entry_fqn@ =~= dotted(msg_path(*f, mi as int)) + seq!['.']
                        + map_entry_name_spec(fld.name@));
                    let mut efields: Vec<FieldDescriptor> = Vec::new();
                    efields.push(
                        FieldDescriptor {
                            name: chars_of("key"),
                            number: 1,
                            label: Label::Unlabeled,
                            scalar: Some(*key),
                            type_fqn: Vec::new(),
                            oneof_index: None,
                        },
                    );
                    efields.push(
                        FieldDescriptor {
                            name: chars_of("value"),
                            number: 2,
                            label: Label::Unlabeled,
                            scalar: vscalar,
                            type_fqn: vfqn,
                            oneof_index: None,
                        },
                    );
                    synths.push(
                        MessageDescriptor {
                            name: entry_name,
                            fqn: copy_chars(&entry_fqn),
                            parent: Some(mi),
                            fields: efields,
                            oneofs: Vec::new(),
                            map_entry: true,
                        },
                    );
                    fields.push(
                        FieldDescriptor {
                            name: copy_chars(&fld.name),
                            number: fld.number,
                            label: Label::Repeated,
                            scalar: None,
                            type_fqn: entry_fqn,
                            oneof_index: fld.oneof,
                        },
                    );
                    proof {
                        assert(synth_matches(
                            synths@[synths@.len() - 1],
                            fields@[fields@.len() - 1],
                            *key,
                            *val,
                            mi as int,
                        ));
                        assert(synths_msg =~= synths@.subrange(0, synths_msg.len() as int));
                    }
                },
            }
            proof {
                assert forall|x: int|
                    0 <= x < k + 1 implies ((#[trigger] f.messages@[mi as int].fields@[x]).ftype
                    matches FieldType::MapOf(key, val) ==> exists|si: int|
                    0 <= si < synths@.len() && synth_matches(
                        #[trigger] synths@[si],
                        fields@[x],
                        key,
                        val,
                        mi as int,
                    )) by {
                    if x < k {
                        match f.messages@[mi as int].fields@[x].ftype {
                            FieldType::MapOf(key, val) => {
                                let si = choose|si: int|
                                    0 <= si < synths_iter.len() && synth_matches(
                                        #[trigger] synths_iter[si],
                                        fields_iter[x],
                                        key,
                                        val,
                                        mi as int,
                                    );
                                assert(synths@[si] == synths_iter[si]);
                                assert(fields@[x] == fields_iter[x]);
                            },
                            _ => {},
                        }
                    }
                }
            }
            k = k + 1;
        }
        let mut oneofs: Vec<Vec<char>> = Vec::new();
        let mut q: usize = 0;
        while q < m.oneofs.len()
            invariant
                q <= m.oneofs@.len(),
                oneofs@.len() == q,
            decreases m.oneofs@.len() - q,
        {
            oneofs.push(copy_chars(&m.oneofs[q]));
            q = q + 1;
        }
        messages.push(
            MessageDescriptor {
                name: copy_chars(&m.name),
                fqn,
                parent: m.parent,
                fields,
                oneofs,
                map_entry: false,
            },
        );
        proof {
            assert forall|x: int, k2: int|
                0 <= x < mi + 1 && 0 <= k2 < f.messages@[x].fields@.len() implies ((
            #[trigger] f.messages@[x].fields@[k2]).ftype matches FieldType::MapOf(key, val)
                ==> exists|si: int|
                0 <= si < synths@.len() && synth_matches(
                    #[trigger] synths@[si],
                    messages@[x].fields@[k2],
                    key,
                    val,
                    x,
                )) by {
                if x < mi {
                    assert(messages@[x] == messages_msg[x]);
                    match f.messages@[x].fields@[k2].ftype {
                        FieldType::MapOf(key, val) => {
                            let si = choose|si: int|
                                0 <= si < synths_msg.len() && synth_matches(
                                    #[trigger] synths_msg[si],
                                    messages_msg[x].fields@[k2],
                                    key,
                                    val,
                                    x,
                                );
                            assert(synths_msg =~= synths@.subrange(
                                0,
                                synths_msg.len() as int,
                            ));
                            assert(synths@[si] == synths_msg[si]);
                        },
                        _ => {},
                    }
                } else {
                    assert(messages@[x].fields@ == fields@);
                }
            }
        }
        mi = mi + 1;
    }
    // append the synthetic entry messages after all declared ones
    let ghost pre_msgs = messages@;
    let ghost pre_synths = synths@;
    let mut sx = synths;
    messages.append(&mut sx);
    assert(messages@ == pre_msgs + pre_synths);
    proof {
        // each map field's synthetic entry moves to `orig + si` in the
        // combined arena
        assert forall|x: int, k2: int|
            0 <= x < orig && 0 <= k2 < f.messages@[x].fields@.len() implies ((
        #[trigger] f.messages@[x].fields@[k2]).ftype matches FieldType::MapOf(key, val)
            ==> exists|sj: int|
            orig <= sj < messages@.len() && synth_matches(
                #[trigger] messages@[sj],
                messages@[x].fields@[k2],
                key,
                val,
                x,
            )) by {
            assert(messages@[x] == pre_msgs[x]);
            match f.messages@[x].fields@[k2].ftype {
                FieldType::MapOf(key, val) => {
                    let si = choose|si: int|
                        0 <= si < pre_synths.len() && synth_matches(
                            #[trigger] pre_synths[si],
                            pre_msgs[x].fields@[k2],
                            key,
                            val,
                            x,
                        );
                    assert(messages@[orig + si] == pre_synths[si]);
                },
                _ => {},
            }
        }
    }
    // enums
    let mut enums: Vec<EnumDescriptor> = Vec::new();
    let mut ei: usize = 0;
    while ei < f.enums.len()
        invariant
            ei <= f.enums@.len(),
            enums@.len() == ei,
            forall|x: int| 0 <= x < ei ==> {
                let de = #[trigger] enums@[x];
                &&& de.name@ == f.enums@[x].name@
                &&& de.parent == f.enums@[x].parent
                &&& de.fqn@ == dotted(enum_path(*f, x))
                &&& de.values@.len() == f.enums@[x].values@.len()
            },
        decreases f.enums@.len() - ei,
    {
        let e = &f.enums[ei];
        proof {
            assert(fs.enum_syms@[ei as int] < t.syms@.len());
        }
        let fqn = copy_chars(&t.syms[fs.enum_syms[ei]].fqn);
        let mut values: Vec<EnumValueDescriptor> = Vec::new();
        let mut vi: usize = 0;
        while vi < e.values.len()
            invariant
                vi <= e.values@.len(),
                values@.len() == vi,
            decreases e.values@.len() - vi,
        {
            values.push(
                EnumValueDescriptor {
                    name: copy_chars(&e.values[vi].name),
                    number: e.values[vi].number,
                },
            );
            vi = vi + 1;
        }
        enums.push(EnumDescriptor { name: copy_chars(&e.name), fqn, parent: e.parent, values });
        ei = ei + 1;
    }
    // services
    let mut services: Vec<ServiceDescriptor> = Vec::new();
    let mut si: usize = 0;
    while si < f.services.len()
        invariant
            si <= f.services@.len(),
        decreases f.services@.len() - si,
    {
        let sv = &f.services[si];
        let mut methods: Vec<MethodDescriptor> = Vec::new();
        let mut xi: usize = 0;
        while xi < sv.methods.len()
            invariant
                xi <= sv.methods@.len(),
            decreases sv.methods@.len() - xi,
        {
            let md = &sv.methods[xi];
            let input_type = match resolve_fqn(t, fs.file_scope, &md.input, md.pos) {
                Ok(o) => o,
                Err(e) => {
                    proof {
                        assert(f.services@[si as int].methods@[xi as int].input@ == md.input@);
                        assert(!file_refs_resolve(*f, *t, *fs));
                    }
                    return Err(e);
                },
            };
            let output_type = match resolve_fqn(t, fs.file_scope, &md.output, md.pos) {
                Ok(o) => o,
                Err(e) => {
                    proof {
                        assert(f.services@[si as int].methods@[xi as int].output@ == md.output@);
                        assert(!file_refs_resolve(*f, *t, *fs));
                    }
                    return Err(e);
                },
            };
            methods.push(MethodDescriptor { name: copy_chars(&md.name), input_type, output_type });
            xi = xi + 1;
        }
        services.push(ServiceDescriptor { name: copy_chars(&sv.name), methods });
        si = si + 1;
    }
    // file-level options, kept opaquely
    let mut options: Vec<OptionNode> = Vec::new();
    let mut oi: usize = 0;
    while oi < f.options.len()
        invariant
            oi <= f.options@.len(),
        decreases f.options@.len() - oi,
    {
        options.push(
            OptionNode {
                name: copy_chars(&f.options[oi].name),
                value: copy_chars(&f.options[oi].value),
                pos: f.options[oi].pos,
            },
        );
        oi = oi + 1;
    }
    let mut deps: Vec<Vec<char>> = Vec::new();
    let mut di: usize = 0;
    while di < f.imports.len()
        invariant
            di <= f.imports@.len(),
            deps@.len() == di,
            forall|x: int| 0 <= x < di ==> (#[trigger] deps@[x])@ == f.imports@[x].path@,
        decreases f.imports@.len() - di,
    {
        deps.push(copy_chars(&f.imports[di].path));
        di = di + 1;
    }
    let mut package: Vec<Vec<char>> = Vec::new();
    let mut pi: usize = 0;
    while pi < f.package.len()
        invariant
            pi <= f.package@.len(),
            package@.len() == pi,
            forall|x: int| 0 <= x < pi ==> (#[trigger] package@[x])@ == f.package@[x]@,
        decreases f.package@.len() - pi,
    {
        package.push(copy_chars(&f.package[pi]));
        pi = pi + 1;
    }
    let fd = FileDescriptor {
        name: copy_chars(rel),
        package,
        syntax: f.syntax,
        messages,
        enums,
        services,
        options,
        deps,
    };
    proof {
        assert(desc_package_path(fd) =~= crate::ast::package_path(*f));
    }
    Ok(fd)
}

} // verus!
