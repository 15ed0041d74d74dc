//! The recursive-descent parser: consumes the token sequence of one file
//! and produces a `FileNode`, or fails with a positioned syntax error at
//! the first token mismatch. No error recovery is attempted.

use vstd::prelude::*;
use crate::ast::{
    EnumNode, EnumValueNode, ExtendNode, FieldNode, FieldType, FileNode, ImportKind, ImportNode,
    Label, MapValue, MessageNode, MethodNode, NumRange, OptionNode, ScalarType, ServiceNode,
    Syntax, wf_enum_arena, wf_file, wf_message, wf_msg_arena,
};
use crate::diag::{Pos, SyntaxError};
use crate::lexer::{TokKind, Token};
use crate::text::{chars_of, text_is};

verus! {

/// Position of token `i`, or of the last token when the stream has ended.
fn pos_at(toks: &Vec<Token>, i: usize) -> Pos {
    if i < toks.len() {
        toks[i].pos
    } else if toks.len() > 0 {
        toks[toks.len() - 1].pos
    } else {
        Pos::start()
    }
}

fn err_at(toks: &Vec<Token>, i: usize, detail: &str) -> SyntaxError {
    SyntaxError { pos: pos_at(toks, i), detail: chars_of(detail) }
}

/// A copy of a character vector.
pub fn copy_chars(v: &Vec<char>) -> (r: Vec<char>)
    ensures
        r@ == v@,
{
    let mut r: Vec<char> = Vec::new();
    let mut i: usize = 0;
    while i < v.len()
        invariant
            i <= v@.len(),
            r@ == v@.take(i as int),
        decreases v@.len() - i,
    {
        r.push(v[i]);
        assert(r@ =~= v@.take(i + 1));
        i = i + 1;
    }
    assert(r@ =~= v@);
    r
}

/// True iff token `i` exists, is an identifier, and reads `s`.
fn at_kw(toks: &Vec<Token>, i: usize, s: &str) -> (r: bool)
    ensures
        r ==> i < toks@.len(),
        r ==> i < usize::MAX,
{
    let n = toks.len();
    i < toks.len() && matches!(toks[i].kind, TokKind::Ident) && text_is(&toks[i].text, s)
}

/// True iff token `i` exists and is the punctuation character `c`.
fn at_punct(toks: &Vec<Token>, i: usize, c: char) -> (r: bool)
    ensures
        r ==> i < toks@.len(),
        r ==> i < usize::MAX,
{
    let n = toks.len();
    i < toks.len() && matches!(toks[i].kind, TokKind::Punct) && toks[i].text.len() == 1
        && toks[i].text[0] == c
}

fn at_ident(toks: &Vec<Token>, i: usize) -> (r: bool)
    ensures
        r ==> i < toks@.len(),
        r ==> i < usize::MAX,
{
    let n = toks.len();
    i < toks.len() && matches!(toks[i].kind, TokKind::Ident)
}

fn at_int(toks: &Vec<Token>, i: usize) -> (r: bool)
    ensures
        r ==> i < toks@.len(),
        r ==> i < usize::MAX,
{
    let n = toks.len();
    i < toks.len() && matches!(toks[i].kind, TokKind::IntLit)
}

fn at_str(toks: &Vec<Token>, i: usize) -> (r: bool)
    ensures
        r ==> i < toks@.len(),
        r ==> i < usize::MAX,
{
    let n = toks.len();
    i < toks.len() && matches!(toks[i].kind, TokKind::StrLit)
}

/// The scalar type named by `t`, if any.
fn scalar_of(t: &Vec<char>) -> (r: Option<ScalarType>) {
    if text_is(t, "double") {
        Some(ScalarType::Double)
    } else if text_is(t, "float") {
        Some(ScalarType::Float)
    } else if text_is(t, "int32") {
        Some(ScalarType::Int32)
    } else if text_is(t, "int64") {
        Some(ScalarType::Int64)
    } else if text_is(t, "uint32") {
        Some(ScalarType::Uint32)
    } else if text_is(t, "uint64") {
        Some(ScalarType::Uint64)
    } else if text_is(t, "sint32") {
        Some(ScalarType::Sint32)
    } else if text_is(t, "sint64") {
        Some(ScalarType::Sint64)
    } else if text_is(t, "fixed32") {
        Some(ScalarType::Fixed32)
    } else if text_is(t, "fixed64") {
        Some(ScalarType::Fixed64)
    } else if text_is(t, "sfixed32") {
        Some(ScalarType::Sfixed32)
    } else if text_is(t, "sfixed64") {
        Some(ScalarType::Sfixed64)
    } else if text_is(t, "bool") {
        Some(ScalarType::Bool)
    } else if text_is(t, "string") {
        Some(ScalarType::Str)
    } else if text_is(t, "bytes") {
        Some(ScalarType::Bytes)
    } else {
        None
    }
}

/// Parses a possibly absolute dotted type reference starting at `i`:
/// `['.'] ident ('.' ident)*`. Returns the reference text and the index
/// after it.
fn parse_type_ref(toks: &Vec<Token>, i: usize) -> (r: Result<(Vec<char>, usize), SyntaxError>)
    requires
        i <= toks@.len(),
    ensures
        r matches Ok(o) ==> i < o.1 <= toks@.len(),
{
    let mut text: Vec<char> = Vec::new();
    let mut j = i;
    if at_punct(toks, j, '.') {
        text.push('.');
        j = j + 1;
    }
    if !at_ident(toks, j) {
        return Err(err_at(toks, j, "expected a type name"));
    }
    let mut part = copy_chars(&toks[j].text);
    text.append(&mut part);
    j = j + 1;
    while at_punct(toks, j, '.')
        invariant
            i < j <= toks@.len(),
        decreases toks@.len() - j,
    {
        j = j + 1;
        if !at_ident(toks, j) {
            return Err(err_at(toks, j, "expected an identifier after '.'"));
        }
        text.push('.');
        let mut part = copy_chars(&toks[j].text);
        text.append(&mut part);
        j = j + 1;
    }
    Ok((text, j))
}

/// Parses a dotted option name, with parenthesized custom-option parts:
/// `(full.Name)` or `ident`, joined by dots.
fn parse_option_name(toks: &Vec<Token>, i: usize) -> (r: Result<(Vec<char>, usize), SyntaxError>)
    requires
        i <= toks@.len(),
    ensures
        r matches Ok(o) ==> i < o.1 <= toks@.len(),
{
    let mut text: Vec<char> = Vec::new();
    let mut j = i;
    if at_punct(toks, j, '(') {
        j = j + 1;
        let (mut inner, j2) = match parse_type_ref(toks, j) {
            Ok(o) => o,
            Err(e) => { return Err(e) },
        };
        j = j2;
        if !at_punct(toks, j, ')') {
            return Err(err_at(toks, j, "expected ')' in option name"));
        }
        j = j + 1;
        text.push('(');
        text.append(&mut inner);
        text.push(')');
    } else {
        if !at_ident(toks, j) {
            return Err(err_at(toks, j, "expected an option name"));
        }
        let mut part = copy_chars(&toks[j].text);
        text.append(&mut part);
        j = j + 1;
    }
    while at_punct(toks, j, '.')
        invariant
            i < j <= toks@.len(),
        decreases toks@.len() - j,
    {
        j = j + 1;
        if !at_ident(toks, j) {
            return Err(err_at(toks, j, "expected an identifier after '.'"));
        }
        text.push('.');
        let mut part = copy_chars(&toks[j].text);
        text.append(&mut part);
        j = j + 1;
    }
    Ok((text, j))
}

/// Parses one option value: a literal, an identifier, or a negated number.
/// Returns its raw text.
fn parse_option_value(toks: &Vec<Token>, i: usize) -> (r: Result<(Vec<char>, usize), SyntaxError>)
    requires
        i <= toks@.len(),
    ensures
        r matches Ok(o) ==> i < o.1 <= toks@.len(),
{
    let mut j = i;
    let mut text: Vec<char> = Vec::new();
    if at_punct(toks, j, '-') {
        text.push('-');
        j = j + 1;
    }
    if j < toks.len() && (matches!(toks[j].kind, TokKind::IntLit) || matches!(
        toks[j].kind,
        TokKind::FloatLit,
    ) || matches!(toks[j].kind, TokKind::StrLit) || matches!(toks[j].kind, TokKind::Ident)) {
        let mut part = copy_chars(&toks[j].text);
        text.append(&mut part);
        j = j + 1;
        Ok((text, j))
    } else {
        Err(err_at(toks, j, "expected an option value"))
    }
}

/// Parses the bracketed option list of a field, `[name = value, ...]`,
/// starting at the `[`. Reports whether a `default` option is present.
fn parse_field_options(toks: &Vec<Token>, i: usize) -> (r: Result<(bool, usize), SyntaxError>)
    requires
        i < toks@.len(),
    ensures
        r matches Ok(o) ==> i < o.1 <= toks@.len(),
{
    let n = toks.len();
    let mut j = i + 1;  // past '['
    let mut has_default = false;
    loop
        invariant
            i < j <= toks@.len(),
        decreases toks@.len() - j,
    {
        let (name, j2) = match parse_option_name(toks, j) {
            Ok(o) => o,
            Err(e) => { return Err(e) },
        };
        j = j2;
        if text_is(&name, "default") {
            has_default = true;
        }
        if !at_punct(toks, j, '=') {
            return Err(err_at(toks, j, "expected '=' in field option"));
        }
        j = j + 1;
        let (_value, j3) = match parse_option_value(toks, j) {
            Ok(o) => o,
            Err(e) => { return Err(e) },
        };
        j = j3;
        if at_punct(toks, j, ',') {
            j = j + 1;
        } else if at_punct(toks, j, ']') {
            return Ok((has_default, j + 1));
        } else {
            return Err(err_at(toks, j, "expected ',' or ']' in field options"));
        }
    }
}

/// Parses one field declaration starting at its first token (an optional
/// label). Fields inside a oneof pass `oneof` and allow no label.
fn parse_field(toks: &Vec<Token>, i: usize, oneof: Option<usize>, allow_label: bool) -> (r: Result<
    (FieldNode, usize),
    SyntaxError,
>)
    requires
        i <= toks@.len(),
    ensures
        r matches Ok(o) ==> i < o.1 <= toks@.len(),
        r matches Ok(o) ==> o.0.oneof == oneof,
{
    let mut j = i;
    let mut label = Label::Unlabeled;
    if allow_label {
        if at_kw(toks, j, "optional") {
            label = Label::Optional;
            j = j + 1;
        } else if at_kw(toks, j, "required") {
            label = Label::Required;
            j = j + 1;
        } else if at_kw(toks, j, "repeated") {
            label = Label::Repeated;
            j = j + 1;
        }
    }
    // the declared type
    let ftype: FieldType;
    if at_kw(toks, j, "map") && at_punct(toks, j + 1, '<') {
        j = j + 2;
        if !at_ident(toks, j) {
            return Err(err_at(toks, j, "expected a map key type"));
        }
        let key = match scalar_of(&toks[j].text) {
            Some(k) => k,
            None => { return Err(err_at(toks, j, "map key must be a scalar type")) },
        };
        j = j + 1;
        if !at_punct(toks, j, ',') {
            return Err(err_at(toks, j, "expected ',' in map type"));
        }
        j = j + 1;
        let value: MapValue;
        if at_ident(toks, j) {
            match scalar_of(&toks[j].text) {
                Some(s) => {
                    value = MapValue::Scalar(s);
                    j = j + 1;
                },
                None => {
                    let (refname, j2) = match parse_type_ref(toks, j) {
                        Ok(o) => o,
                        Err(e) => { return Err(e) },
                    };
                    value = MapValue::Named(refname);
                    j = j2;
                },
            }
        } else if at_punct(toks, j, '.') {
            let (refname, j2) = match parse_type_ref(toks, j) {
                Ok(o) => o,
                Err(e) => { return Err(e) },
            };
            value = MapValue::Named(refname);
            j = j2;
        } else {
            return Err(err_at(toks, j, "expected a map value type"));
        }
        if !at_punct(toks, j, '>') {
            return Err(err_at(toks, j, "expected '>' in map type"));
        }
        j = j + 1;
        ftype = FieldType::MapOf(key, value);
    } else if at_ident(toks, j) {
        match scalar_of(&toks[j].text) {
            Some(s) => {
                ftype = FieldType::Scalar(s);
                j = j + 1;
            },
            None => {
                let (refname, j2) = match parse_type_ref(toks, j) {
                    Ok(o) => o,
                    Err(e) => { return Err(e) },
                };
                ftype = FieldType::Named(refname);
                j = j2;
            },
        }
    } else if at_punct(toks, j, '.') {
        let (refname, j2) = match parse_type_ref(toks, j) {
            Ok(o) => o,
            Err(e) => { return Err(e) },
        };
        ftype = FieldType::Named(refname);
        j = j2;
    } else {
        return Err(err_at(toks, j, "expected a field type"));
    }
    // name, '=', number
    if !at_ident(toks, j) {
        return Err(err_at(toks, j, "expected a field name"));
    }
    let name = copy_chars(&toks[j].text);
    let pos = toks[j].pos;
    j = j + 1;
    if !at_punct(toks, j, '=') {
        return Err(err_at(toks, j, "expected '=' after field name"));
    }
    j = j + 1;
    if !at_int(toks, j) {
        return Err(err_at(toks, j, "expected a field number"));
    }
    let number = toks[j].value;
    j = j + 1;
    let mut has_default = false;
    if at_punct(toks, j, '[') {
        let (d, j2) = match parse_field_options(toks, j) {
            Ok(o) => o,
            Err(e) => { return Err(e) },
        };
        has_default = d;
        j = j2;
    }
    if !at_punct(toks, j, ';') {
        return Err(err_at(toks, j, "expected ';' after field declaration"));
    }
    j = j + 1;
    Ok((FieldNode { name, number, label, ftype, oneof, has_default, pos }, j))
}

/// Parses a `reserved`/`extensions` range list starting after the keyword:
/// `n`, `n to m`, or `n to max`, separated by commas, ended by `;`.
/// String names in a `reserved` list go to `names` instead.
fn parse_ranges(toks: &Vec<Token>, i: usize, allow_names: bool) -> (r: Result<
    (Vec<NumRange>, Vec<Vec<char>>, usize),
    SyntaxError,
>)
    requires
        i <= toks@.len(),
    ensures
        r matches Ok(o) ==> i < o.2 <= toks@.len(),
{
    let mut j = i;
    let mut ranges: Vec<NumRange> = Vec::new();
    let mut names: Vec<Vec<char>> = Vec::new();
    loop
        invariant
            i <= j <= toks@.len(),
        decreases toks@.len() - j,
    {
        if allow_names && at_str(toks, j) {
            names.push(copy_chars(&toks[j].text));
            j = j + 1;
        } else if at_int(toks, j) {
            let lo = toks[j].value;
            let mut hi = lo;
            j = j + 1;
            if at_kw(toks, j, "to") {
                j = j + 1;
                if at_int(toks, j) {
                    hi = toks[j].value;
                    j = j + 1;
                } else if at_kw(toks, j, "max") {
                    hi = 536870911;
                    j = j + 1;
                } else {
                    return Err(err_at(toks, j, "expected a number or 'max' after 'to'"));
                }
            }
            ranges.push(NumRange { lo, hi });
        } else {
            return Err(err_at(toks, j, "expected a reserved number or name"));
        }
        if at_punct(toks, j, ',') {
            j = j + 1;
        } else if at_punct(toks, j, ';') {
            return Ok((ranges, names, j + 1));
        } else {
            return Err(err_at(toks, j, "expected ',' or ';' in range list"));
        }
    }
}

/// Parses `option <name> = <value> ;` starting at the `option` keyword.
fn parse_option_stmt(toks: &Vec<Token>, i: usize) -> (r: Result<(OptionNode, usize), SyntaxError>)
    requires
        i < toks@.len(),
    ensures
        r matches Ok(o) ==> i < o.1 <= toks@.len(),
{
    let n = toks.len();
    let pos = toks[i].pos;
    let mut j = i + 1;
    let (name, j2) = match parse_option_name(toks, j) {
        Ok(o) => o,
        Err(e) => { return Err(e) },
    };
    j = j2;
    if !at_punct(toks, j, '=') {
        return Err(err_at(toks, j, "expected '=' in option"));
    }
    j = j + 1;
    let (value, j3) = match parse_option_value(toks, j) {
        Ok(o) => o,
        Err(e) => { return Err(e) },
    };
    j = j3;
    if !at_punct(toks, j, ';') {
        return Err(err_at(toks, j, "expected ';' after option"));
    }
    Ok((OptionNode { name, value, pos }, j + 1))
}

} // verus!

verus! {

/// Parses an `enum` declaration starting at the `enum` keyword. Enum value
/// numbers must fit a 32-bit signed integer.
fn parse_enum(toks: &Vec<Token>, i0: usize, parent: Option<usize>) -> (r: Result<
    (EnumNode, usize),
    SyntaxError,
>)
    requires
        i0 <= toks@.len(),
    ensures
        r matches Ok(o) ==> i0 < o.1 <= toks@.len(),
        r matches Ok(o) ==> o.0.parent == parent,
    decreases toks@.len() - i0,
{
    let mut j = i0;
    if !at_kw(toks, j, "enum") {
        return Err(err_at(toks, j, "expected 'enum'"));
    }
    let pos = toks[j].pos;
    j = j + 1;
    if !at_ident(toks, j) {
        return Err(err_at(toks, j, "expected an enum name"));
    }
    let name = copy_chars(&toks[j].text);
    j = j + 1;
    if !at_punct(toks, j, '{') {
        return Err(err_at(toks, j, "expected '{' after enum name"));
    }
    j = j + 1;
    let mut values: Vec<EnumValueNode> = Vec::new();
    let mut allow_alias = false;
    loop
        invariant
            i0 < j <= toks@.len(),
        decreases toks@.len() - j,
    {
        if at_punct(toks, j, '}') {
            return Ok((EnumNode { name, parent, values, allow_alias, pos }, j + 1));
        } else if at_punct(toks, j, ';') {
            j = j + 1;
        } else if at_kw(toks, j, "option") {
            let (opt, j2) = match parse_option_stmt(toks, j) {
                Ok(o) => o,
                Err(e) => { return Err(e) },
            };
            if text_is(&opt.name, "allow_alias") && text_is(&opt.value, "true") {
                allow_alias = true;
            }
            j = j2;
        } else if at_kw(toks, j, "reserved") {
            let (_ranges, _names, j2) = match parse_ranges(toks, j + 1, true) {
                Ok(o) => o,
                Err(e) => { return Err(e) },
            };
            j = j2;
        } else if at_ident(toks, j) {
            let vname = copy_chars(&toks[j].text);
            let vpos = toks[j].pos;
            j = j + 1;
            if !at_punct(toks, j, '=') {
                return Err(err_at(toks, j, "expected '=' after enum value name"));
            }
            j = j + 1;
            let mut neg = false;
            if at_punct(toks, j, '-') {
                neg = true;
                j = j + 1;
            }
            if !at_int(toks, j) {
                return Err(err_at(toks, j, "expected an enum value number"));
            }
            let raw = toks[j].value;
            if neg && raw > 2147483648 {
                return Err(err_at(toks, j, "enum value out of 32-bit range"));
            }
            if !neg && raw > 2147483647 {
                return Err(err_at(toks, j, "enum value out of 32-bit range"));
            }
            let number: i64 = if neg {
                -(raw as i64)
            } else {
                raw as i64
            };
            j = j + 1;
            if at_punct(toks, j, '[') {
                let (_d, j2) = match parse_field_options(toks, j) {
                    Ok(o) => o,
                    Err(e) => { return Err(e) },
                };
                j = j2;
            }
            if !at_punct(toks, j, ';') {
                return Err(err_at(toks, j, "expected ';' after enum value"));
            }
            values.push(EnumValueNode { name: vname, number, pos: vpos });
            j = j + 1;
        } else {
            return Err(err_at(toks, j, "expected an enum value or '}'"));
        }
    }
}

/// Parses a `message` declaration starting at the `message` keyword,
/// appending the message (and every nested declaration) to the arenas.
/// The message's own arena index is `old(msgs).len()`; parents always
/// precede children, so the arenas stay well formed.
#[verifier::loop_isolation(false)]
fn parse_message(
    toks: &Vec<Token>,
    i0: usize,
    msgs: &mut Vec<MessageNode>,
    enums: &mut Vec<EnumNode>,
    extends: &mut Vec<ExtendNode>,
    parent: Option<usize>,
) -> (r: Result<usize, SyntaxError>)
    requires
        i0 <= toks@.len(),
        wf_msg_arena(old(msgs)@),
        wf_enum_arena(old(enums)@, old(msgs)@.len() as int),
        parent matches Some(p) ==> p < old(msgs)@.len(),
    ensures
        wf_msg_arena(final(msgs)@),
        wf_enum_arena(final(enums)@, final(msgs)@.len() as int),
        old(msgs)@.len() <= final(msgs)@.len(),
        r matches Ok(o) ==> i0 < o <= toks@.len(),
        r matches Ok(o) ==> old(msgs)@.len() < final(msgs)@.len(),
    decreases toks@.len() - i0,
{
    let mut j = i0;
    if !at_kw(toks, j, "message") {
        return Err(err_at(toks, j, "expected 'message'"));
    }
    let pos = toks[j].pos;
    j = j + 1;
    if !at_ident(toks, j) {
        return Err(err_at(toks, j, "expected a message name"));
    }
    let name = copy_chars(&toks[j].text);
    j = j + 1;
    if !at_punct(toks, j, '{') {
        return Err(err_at(toks, j, "expected '{' after message name"));
    }
    j = j + 1;
    // reserve this message's arena slot before its children are parsed
    let idx = msgs.len();
    msgs.push(
        MessageNode {
            name,
            parent,
            fields: Vec::new(),
            oneofs: Vec::new(),
            reserved: Vec::new(),
            reserved_names: Vec::new(),
            ext_ranges: Vec::new(),
            pos,
        },
    );
    let mut fields: Vec<FieldNode> = Vec::new();
    let mut oneofs: Vec<Vec<char>> = Vec::new();
    let mut reserved: Vec<NumRange> = Vec::new();
    let mut reserved_names: Vec<Vec<char>> = Vec::new();
    let mut ext_ranges: Vec<NumRange> = Vec::new();
    loop
        invariant
            i0 < j <= toks@.len(),
            idx < msgs@.len(),
            wf_msg_arena(msgs@),
            wf_enum_arena(enums@, msgs@.len() as int),
            old(msgs)@.len() == idx,
            forall|k: int| 0 <= k < fields@.len() ==> ((#[trigger] fields@[k].oneof) matches Some(
                o,
            ) ==> o < oneofs@.len()),
        decreases toks@.len() - j,
    {
        if at_punct(toks, j, '}') {
            j = j + 1;
            let m = msgs[idx].pos;
            let node = MessageNode {
                name: copy_chars(&msgs[idx].name),
                parent,
                fields,
                oneofs,
                reserved,
                reserved_names,
                ext_ranges,
                pos: m,
            };
            assert(wf_message(node));
            let ghost pre = msgs@;
            msgs[idx] = node;
            proof {
                assert forall|i: int| 0 <= i < msgs@.len() implies ((
                #[trigger] msgs@[i].parent) matches Some(p) ==> 0 <= p < i) && wf_message(
                    msgs@[i],
                ) by {
                    if i != idx {
                        assert(msgs@[i] == pre[i]);
                    }
                }
            }
            assert(wf_msg_arena(msgs@));
            return Ok(j);
        } else if at_punct(toks, j, ';') {
            j = j + 1;
        } else if at_kw(toks, j, "message") {
            let j2 = match parse_message(toks, j, msgs, enums, extends, Some(idx)) {
                Ok(o) => o,
                Err(e) => { return Err(e) },
            };
            j = j2;
        } else if at_kw(toks, j, "enum") {
            let (e, j2) = match parse_enum(toks, j, Some(idx)) {
                Ok(o) => o,
                Err(e) => { return Err(e) },
            };
            enums.push(e);
            j = j2;
        } else if at_kw(toks, j, "oneof") {
            let ghost j_arm = j as int;
            j = j + 1;
            if !at_ident(toks, j) {
                return Err(err_at(toks, j, "expected a oneof name"));
            }
            let oname = copy_chars(&toks[j].text);
            j = j + 1;
            if !at_punct(toks, j, '{') {
                return Err(err_at(toks, j, "expected '{' after oneof name"));
            }
            j = j + 1;
            let oidx = oneofs.len();
            oneofs.push(oname);
            loop
                invariant
                    j_arm < j <= toks@.len(),
                    oidx < oneofs@.len(),
                    forall|k: int| 0 <= k < fields@.len() ==> ((
                    #[trigger] fields@[k].oneof) matches Some(o) ==> o < oneofs@.len()),
                decreases toks@.len() - j,
            {
                if at_punct(toks, j, '}') {
                    j = j + 1;
                    break;
                } else if at_punct(toks, j, ';') {
                    j = j + 1;
                } else if at_kw(toks, j, "option") {
                    let (_opt, j2) = match parse_option_stmt(toks, j) {
                        Ok(o) => o,
                        Err(e) => { return Err(e) },
                    };
                    j = j2;
                } else {
                    let (field, j2) = match parse_field(toks, j, Some(oidx), false) {
                        Ok(o) => o,
                        Err(e) => { return Err(e) },
                    };
                    fields.push(field);
                    j = j2;
                }
            }
        } else if at_kw(toks, j, "reserved") {
            let (mut ranges, mut names, j2) = match parse_ranges(toks, j + 1, true) {
                Ok(o) => o,
                Err(e) => { return Err(e) },
            };
            reserved.append(&mut ranges);
            reserved_names.append(&mut names);
            j = j2;
        } else if at_kw(toks, j, "extensions") {
            let (mut ranges, _names, j2) = match parse_ranges(toks, j + 1, false) {
                Ok(o) => o,
                Err(e) => { return Err(e) },
            };
            ext_ranges.append(&mut ranges);
            j = j2;
        } else if at_kw(toks, j, "option") {
            let (_opt, j2) = match parse_option_stmt(toks, j) {
                Ok(o) => o,
                Err(e) => { return Err(e) },
            };
            j = j2;
        } else if at_kw(toks, j, "extend") {
            let (e, j2) = match parse_extend(toks, j) {
                Ok(o) => o,
                Err(e) => { return Err(e) },
            };
            extends.push(e);
            j = j2;
        } else {
            let (field, j2) = match parse_field(toks, j, None, true) {
                Ok(o) => o,
                Err(e) => { return Err(e) },
            };
            fields.push(field);
            j = j2;
        }
    }
}

/// Parses an `extend` block starting at the `extend` keyword.
fn parse_extend(toks: &Vec<Token>, i0: usize) -> (r: Result<(ExtendNode, usize), SyntaxError>)
    requires
        i0 <= toks@.len(),
    ensures
        r matches Ok(o) ==> i0 < o.1 <= toks@.len(),
{
    let mut j = i0;
    if !at_kw(toks, j, "extend") {
        return Err(err_at(toks, j, "expected 'extend'"));
    }
    let pos = toks[j].pos;
    j = j + 1;
    let (target, j2) = match parse_type_ref(toks, j) {
        Ok(o) => o,
        Err(e) => { return Err(e) },
    };
    j = j2;
    if !at_punct(toks, j, '{') {
        return Err(err_at(toks, j, "expected '{' after extend target"));
    }
    j = j + 1;
    let mut fields: Vec<FieldNode> = Vec::new();
    loop
        invariant
            i0 < j <= toks@.len(),
        decreases toks@.len() - j,
    {
        if at_punct(toks, j, '}') {
            return Ok((ExtendNode { target, fields, pos }, j + 1));
        } else if at_punct(toks, j, ';') {
            j = j + 1;
        } else {
            let (field, j2) = match parse_field(toks, j, None, true) {
                Ok(o) => o,
                Err(e) => { return Err(e) },
            };
            fields.push(field);
            j = j2;
        }
    }
}

/// Parses a `service` declaration starting at the `service` keyword.
#[verifier::loop_isolation(false)]
fn parse_service(toks: &Vec<Token>, i0: usize) -> (r: Result<(ServiceNode, usize), SyntaxError>)
    requires
        i0 <= toks@.len(),
    ensures
        r matches Ok(o) ==> i0 < o.1 <= toks@.len(),
{
    let mut j = i0;
    if !at_kw(toks, j, "service") {
        return Err(err_at(toks, j, "expected 'service'"));
    }
    let pos = toks[j].pos;
    j = j + 1;
    if !at_ident(toks, j) {
        return Err(err_at(toks, j, "expected a service name"));
    }
    let name = copy_chars(&toks[j].text);
    j = j + 1;
    if !at_punct(toks, j, '{') {
        return Err(err_at(toks, j, "expected '{' after service name"));
    }
    j = j + 1;
    let mut methods: Vec<MethodNode> = Vec::new();
    loop
        invariant
            i0 < j <= toks@.len(),
        decreases toks@.len() - j,
    {
        if at_punct(toks, j, '}') {
            return Ok((ServiceNode { name, methods, pos }, j + 1));
        } else if at_punct(toks, j, ';') {
            j = j + 1;
        } else if at_kw(toks, j, "option") {
            let (_opt, j2) = match parse_option_stmt(toks, j) {
                Ok(o) => o,
                Err(e) => { return Err(e) },
            };
            j = j2;
        } else if at_kw(toks, j, "rpc") {
            let ghost j_arm = j as int;
            let mpos = toks[j].pos;
            j = j + 1;
            if !at_ident(toks, j) {
                return Err(err_at(toks, j, "expected a method name"));
            }
            let mname = copy_chars(&toks[j].text);
            j = j + 1;
            if !at_punct(toks, j, '(') {
                return Err(err_at(toks, j, "expected '(' after method name"));
            }
            j = j + 1;
            if at_kw(toks, j, "stream") {
                j = j + 1;
            }
            let (input, j2) = match parse_type_ref(toks, j) {
                Ok(o) => o,
                Err(e) => { return Err(e) },
            };
            j = j2;
            if !at_punct(toks, j, ')') {
                return Err(err_at(toks, j, "expected ')' after method input type"));
            }
            j = j + 1;
            if !at_kw(toks, j, "returns") {
                return Err(err_at(toks, j, "expected 'returns'"));
            }
            j = j + 1;
            if !at_punct(toks, j, '(') {
                return Err(err_at(toks, j, "expected '(' after 'returns'"));
            }
            j = j + 1;
            if at_kw(toks, j, "stream") {
                j = j + 1;
            }
            let (output, j2) = match parse_type_ref(toks, j) {
                Ok(o) => o,
                Err(e) => { return Err(e) },
            };
            j = j2;
            if !at_punct(toks, j, ')') {
                return Err(err_at(toks, j, "expected ')' after method output type"));
            }
            j = j + 1;
            if at_punct(toks, j, ';') {
                j = j + 1;
            } else if at_punct(toks, j, '{') {
                j = j + 1;
                loop
                    invariant
                        j_arm < j <= toks@.len(),
                    decreases toks@.len() - j,
                {
                    if at_punct(toks, j, '}') {
                        j = j + 1;
                        break;
                    } else if at_punct(toks, j, ';') {
                        j = j + 1;
                    } else if at_kw(toks, j, "option") {
                        let (_opt, j2) = match parse_option_stmt(toks, j) {
                            Ok(o) => o,
                            Err(e) => { return Err(e) },
                        };
                        j = j2;
                    } else {
                        return Err(err_at(toks, j, "expected an option or '}' in method body"));
                    }
                }
            } else {
                return Err(err_at(toks, j, "expected ';' or '{' after method signature"));
            }
            methods.push(MethodNode { name: mname, input, output, pos: mpos });
        } else {
            return Err(err_at(toks, j, "expected 'rpc', 'option' or '}' in service"));
        }
    }
}

/// Parses one whole file from its token sequence. On success the file is
/// structurally well formed: arena parents precede children and all oneof
/// indices are in range. The syntax defaults to proto2 when no `syntax`
/// declaration is present.
#[verifier::loop_isolation(false)]
pub fn parse_file(toks: &Vec<Token>) -> (r: Result<FileNode, SyntaxError>)
    ensures
        r matches Ok(f) ==> wf_file(f),
{
    let n = toks.len();
    let mut j: usize = 0;
    let mut syntax = Syntax::Proto2;
    if at_kw(toks, j, "syntax") {
        j = j + 1;
        if !at_punct(toks, j, '=') {
            return Err(err_at(toks, j, "expected '=' after 'syntax'"));
        }
        j = j + 1;
        if !at_str(toks, j) {
            return Err(err_at(toks, j, "expected a string after 'syntax ='"));
        }
        if text_is(&toks[j].text, "proto2") {
            syntax = Syntax::Proto2;
        } else if text_is(&toks[j].text, "proto3") {
            syntax = Syntax::Proto3;
        } else {
            return Err(err_at(toks, j, "syntax must be 'proto2' or 'proto3'"));
        }
        j = j + 1;
        if !at_punct(toks, j, ';') {
            return Err(err_at(toks, j, "expected ';' after syntax declaration"));
        }
        j = j + 1;
    }
    let mut package: Vec<Vec<char>> = Vec::new();
    let mut have_package = false;
    let mut imports: Vec<ImportNode> = Vec::new();
    let mut messages: Vec<MessageNode> = Vec::new();
    let mut enums: Vec<EnumNode> = Vec::new();
    let mut services: Vec<ServiceNode> = Vec::new();
    let mut options: Vec<OptionNode> = Vec::new();
    let mut extends: Vec<ExtendNode> = Vec::new();
    while j < n
        invariant
            j <= n,
            n == toks@.len(),
            wf_msg_arena(messages@),
            wf_enum_arena(enums@, messages@.len() as int),
        decreases n - j,
    {
        if at_punct(toks, j, ';') {
            j = j + 1;
        } else if at_kw(toks, j, "package") {
            if have_package {
                return Err(err_at(toks, j, "duplicate package declaration"));
            }
            have_package = true;
            let ghost j_arm = j as int;
            j = j + 1;
            if !at_ident(toks, j) {
                return Err(err_at(toks, j, "expected a package name"));
            }
            package.push(copy_chars(&toks[j].text));
            j = j + 1;
            while at_punct(toks, j, '.')
                invariant
                    j_arm < j <= n,
                decreases n - j,
            {
                j = j + 1;
                if !at_ident(toks, j) {
                    return Err(err_at(toks, j, "expected an identifier after '.'"));
                }
                package.push(copy_chars(&toks[j].text));
                j = j + 1;
            }
            if !at_punct(toks, j, ';') {
                return Err(err_at(toks, j, "expected ';' after package declaration"));
            }
            j = j + 1;
        } else if at_kw(toks, j, "import") {
            let pos = toks[j].pos;
            j = j + 1;
            let mut kind = ImportKind::Normal;
            if at_kw(toks, j, "public") {
                kind = ImportKind::Public;
                j = j + 1;
            } else if at_kw(toks, j, "weak") {
                kind = ImportKind::Weak;
                j = j + 1;
            }
            if !at_str(toks, j) {
                return Err(err_at(toks, j, "expected an import path string"));
            }
            let path = copy_chars(&toks[j].text);
            j = j + 1;
            if !at_punct(toks, j, ';') {
                return Err(err_at(toks, j, "expected ';' after import"));
            }
            j = j + 1;
            imports.push(ImportNode { path, kind, pos });
        } else if at_kw(toks, j, "option") {
            let (opt, j2) = match parse_option_stmt(toks, j) {
                Ok(o) => o,
                Err(e) => { return Err(e) },
            };
            options.push(opt);
            j = j2;
        } else if at_kw(toks, j, "message") {
            let j2 = match parse_message(toks, j, &mut messages, &mut enums, &mut extends, None) {
                Ok(o) => o,
                Err(e) => { return Err(e) },
            };
            j = j2;
        } else if at_kw(toks, j, "enum") {
            let (e, j2) = match parse_enum(toks, j, None) {
                Ok(o) => o,
                Err(e) => { return Err(e) },
            };
            enums.push(e);
            j = j2;
        } else if at_kw(toks, j, "service") {
            let (s, j2) = match parse_service(toks, j) {
                Ok(o) => o,
                Err(e) => { return Err(e) },
            };
            services.push(s);
            j = j2;
        } else if at_kw(toks, j, "extend") {
            let (e, j2) = match parse_extend(toks, j) {
                Ok(o) => o,
                Err(e) => { return Err(e) },
            };
            extends.push(e);
            j = j2;
        } else {
            return Err(err_at(toks, j, "expected a top-level declaration"));
        }
    }
    Ok(FileNode { syntax, package, imports, messages, enums, services, options, extends })
}

} // verus!
