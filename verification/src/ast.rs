//! The abstract syntax tree of one `.proto` file.
//!
//! Messages and enums live in flat arenas addressed by integer index; a
//! nested declaration records the index of its enclosing message. A parent
//! always has a smaller index than its children, which makes walks up the
//! nesting chain terminate.

use vstd::prelude::*;
use crate::diag::Pos;

verus! {

#[derive(Clone, Copy, PartialEq, Eq, Structural, Debug)]
pub enum Syntax {
    Proto2,
    Proto3,
}

#[derive(Clone, Copy, PartialEq, Eq, Structural, Debug)]
pub enum ImportKind {
    Normal,
    Public,
    Weak,
}

#[derive(Clone, Debug)]
pub struct ImportNode {
    pub path: Vec<char>,
    pub kind: ImportKind,
    pub pos: Pos,
}

#[derive(Clone, Copy, PartialEq, Eq, Structural, Debug)]
pub enum ScalarType {
    Double,
    Float,
    Int32,
    Int64,
    Uint32,
    Uint64,
    Sint32,
    Sint64,
    Fixed32,
    Fixed64,
    Sfixed32,
    Sfixed64,
    Bool,
    Str,
    Bytes,
}

#[derive(Clone, Copy, PartialEq, Eq, Structural, Debug)]
pub enum Label {
    Unlabeled,
    Optional,
    Required,
    Repeated,
}

/// The value type of a map field: a scalar or a named type reference.
#[derive(Clone, Debug)]
pub enum MapValue {
    Scalar(ScalarType),
    Named(Vec<char>),
}

/// The declared type of a field: a scalar, a (possibly dotted, possibly
/// absolute) type reference, or a map with a scalar key.
#[derive(Clone, Debug)]
pub enum FieldType {
    Scalar(ScalarType),
    Named(Vec<char>),
    MapOf(ScalarType, MapValue),
}

#[derive(Clone, Debug)]
pub struct FieldNode {
    pub name: Vec<char>,
    pub number: u64,
    pub label: Label,
    pub ftype: FieldType,
    /// Index into the owning message's `oneofs`, if the field belongs to one.
    pub oneof: Option<usize>,
    /// Whether a `[default = ...]` option is present (rejected in proto3).
    pub has_default: bool,
    pub pos: Pos,
}

/// An inclusive numeric range, used for `reserved` and `extensions`.
#[derive(Clone, Copy, PartialEq, Eq, Structural, Debug)]
pub struct NumRange {
    pub lo: u64,
    pub hi: u64,
}

#[derive(Clone, Debug)]
pub struct MessageNode {
    pub name: Vec<char>,
    /// Arena index of the enclosing message; always smaller than this
    /// message's own index.
    pub parent: Option<usize>,
    pub fields: Vec<FieldNode>,
    /// Oneof names, in declaration order; a field's `oneof` indexes here.
    pub oneofs: Vec<Vec<char>>,
    pub reserved: Vec<NumRange>,
    pub reserved_names: Vec<Vec<char>>,
    pub ext_ranges: Vec<NumRange>,
    pub pos: Pos,
}

#[derive(Clone, Debug)]
pub struct EnumValueNode {
    pub name: Vec<char>,
    pub number: i64,
    pub pos: Pos,
}

#[derive(Clone, Debug)]
pub struct EnumNode {
    pub name: Vec<char>,
    /// Arena index of the enclosing message, if nested.
    pub parent: Option<usize>,
    pub values: Vec<EnumValueNode>,
    pub allow_alias: bool,
    pub pos: Pos,
}

#[derive(Clone, Debug)]
pub struct MethodNode {
    pub name: Vec<char>,
    pub input: Vec<char>,
    pub output: Vec<char>,
    pub pos: Pos,
}

#[derive(Clone, Debug)]
pub struct ServiceNode {
    pub name: Vec<char>,
    pub methods: Vec<MethodNode>,
    pub pos: Pos,
}

/// An uninterpreted option: dotted name and raw value text, kept opaquely.
#[derive(Clone, Debug)]
pub struct OptionNode {
    pub name: Vec<char>,
    pub value: Vec<char>,
    pub pos: Pos,
}

/// A top-level `extend` block: the extended type and the fields added to it.
#[derive(Clone, Debug)]
pub struct ExtendNode {
    pub target: Vec<char>,
    pub fields: Vec<FieldNode>,
    pub pos: Pos,
}

#[derive(Clone, Debug)]
pub struct FileNode {
    pub syntax: Syntax,
    /// Dotted package components; empty when no package is declared.
    pub package: Vec<Vec<char>>,
    pub imports: Vec<ImportNode>,
    pub messages: Vec<MessageNode>,
    pub enums: Vec<EnumNode>,
    pub services: Vec<ServiceNode>,
    pub options: Vec<OptionNode>,
    pub extends: Vec<ExtendNode>,
}

/// Every field's oneof index stays inside the message's oneof list.
pub open spec fn wf_message(m: MessageNode) -> bool {
    forall|k: int| 0 <= k < m.fields@.len() ==> ((#[trigger] m.fields@[k].oneof) matches Some(o)
        ==> o < m.oneofs@.len())
}

/// Message parents precede their children; enum parents are in range.
pub open spec fn wf_msg_arena(msgs: Seq<MessageNode>) -> bool {
    forall|i: int| 0 <= i < msgs.len() ==> ((#[trigger] msgs[i].parent) matches Some(p) ==> 0 <= p
        < i) && wf_message(msgs[i])
}

pub open spec fn wf_enum_arena(enums: Seq<EnumNode>, nmsgs: int) -> bool {
    forall|i: int| 0 <= i < enums.len() ==> ((#[trigger] enums[i].parent) matches Some(p) ==> 0
        <= p < nmsgs)
}

/// Structural well-formedness of a parsed file: all arena indices in range,
/// parents before children.
pub open spec fn wf_file(f: FileNode) -> bool {
    &&& wf_msg_arena(f.messages@)
    &&& wf_enum_arena(f.enums@, f.messages@.len() as int)
}

/// The package components of `f`, as character sequences.
pub open spec fn package_path(f: FileNode) -> Seq<Seq<char>> {
    f.package@.map_values(|v: Vec<char>| v@)
}

/// The fully qualified name of message `i`, as its sequence of dotted
/// components: package, enclosing message names, own name.
pub open spec fn msg_path(f: FileNode, i: int) -> Seq<Seq<char>>
    recommends
        0 <= i < f.messages@.len(),
        wf_file(f),
    decreases i,
{
    let m = f.messages@[i];
    match m.parent {
        Some(p) => if 0 <= p < i {
            msg_path(f, p as int).push(m.name@)
        } else {
            seq![m.name@]
        },
        None => package_path(f).push(m.name@),
    }
}

/// The fully qualified name of enum `i`, as its dotted components.
pub open spec fn enum_path(f: FileNode, i: int) -> Seq<Seq<char>>
    recommends
        0 <= i < f.enums@.len(),
        wf_file(f),
{
    let e = f.enums@[i];
    match e.parent {
        Some(p) => if 0 <= p < f.messages@.len() {
            msg_path(f, p as int).push(e.name@)
        } else {
            seq![e.name@]
        },
        None => package_path(f).push(e.name@),
    }
}

/// Dotted rendering of a component path: components joined by `'.'`.
pub open spec fn dotted(path: Seq<Seq<char>>) -> Seq<char>
    decreases path.len(),
{
    if path.len() == 0 {
        Seq::empty()
    } else if path.len() == 1 {
        path[0]
    } else {
        dotted(path.drop_last()) + seq!['.'] + path.last()
    }
}

} // verus!
