//! The validator: structural and semantic rules over a parsed file.
//! Violations found within one file are aggregated; a file passes exactly
//! when its error list is empty, and each check's contract says precisely
//! which declarations it accepts.

use vstd::prelude::*;
use crate::ast::{
    EnumNode, FieldNode, FieldType, FileNode, Label, MessageNode, NumRange, ScalarType, Syntax,
};
use crate::diag::{Pos, ValidationError, ValidationKind};
use crate::text::chars_eq;

verus! {

/// The largest legal field number: `2^29 - 1`.
pub open spec fn max_field_number() -> int {
    0x1FFFFFFF
}

/// The band `[19000, 19999]` is reserved by the language itself.
pub open spec fn in_reserved_band(n: int) -> bool {
    19000 <= n <= 19999
}

/// True iff `n` lies inside one of the declared inclusive ranges.
pub open spec fn in_any_range(ranges: Seq<NumRange>, n: int) -> bool {
    exists|k: int| 0 <= k < ranges.len() && (#[trigger] ranges[k]).lo <= n <= ranges[k].hi
}

/// A field number is acceptable in a message iff it lies in
/// `[1, 2^29 - 1]`, is outside the reserved band, and is outside every
/// declared reserved range of the message.
pub open spec fn field_number_ok(n: int, reserved: Seq<NumRange>) -> bool {
    &&& 1 <= n <= max_field_number()
    &&& !in_reserved_band(n)
    &&& !in_any_range(reserved, n)
}

/// A message accepts every valid field number not covered by a declared
/// reserved range, and always rejects numbers inside the language's
/// reserved band or inside a declared reserved range.
pub proof fn lemma_field_number_acceptance(n: int, reserved: Seq<NumRange>)
    ensures
        (1 <= n <= max_field_number() && !in_reserved_band(n) && !in_any_range(reserved, n))
            ==> field_number_ok(n, reserved),
        in_reserved_band(n) ==> !field_number_ok(n, reserved),
        in_any_range(reserved, n) ==> !field_number_ok(n, reserved),
{
}

/// Exact test of `field_number_ok`.
pub fn check_field_number(n: u64, reserved: &Vec<NumRange>) -> (r: bool)
    ensures
        r == field_number_ok(n as int, reserved@),
{
    if n < 1 || n > 0x1FFFFFFF {
        return false;
    }
    if 19000 <= n && n <= 19999 {
        return false;
    }
    let mut k: usize = 0;
    while k < reserved.len()
        invariant
            k <= reserved@.len(),
            forall|t: int| 0 <= t < k ==> !((#[trigger] reserved@[t]).lo <= n as int
                <= reserved@[t].hi),
        decreases reserved@.len() - k,
    {
        if reserved[k].lo <= n && n <= reserved[k].hi {
            return false;
        }
        k = k + 1;
    }
    true
}

/// Two distinct fields of one message carry the same number.
pub open spec fn dup_number_pair(fields: Seq<FieldNode>, a: int, b: int) -> bool {
    0 <= a < b < fields.len() && fields[a].number == fields[b].number
}

pub open spec fn has_dup_numbers(fields: Seq<FieldNode>) -> bool {
    exists|a: int, b: int| dup_number_pair(fields, a, b)
}

/// Every field number of the message is acceptable.
pub open spec fn numbers_ok(m: MessageNode) -> bool {
    forall|k: int| 0 <= k < m.fields@.len() ==> field_number_ok(
        (#[trigger] m.fields@[k]).number as int,
        m.reserved@,
    )
}

/// The label/presence rules of the two syntax levels:
/// proto3 rejects `required` and explicit defaults; proto2 requires a
/// label on every plain (non-map, non-oneof) field.
pub open spec fn field_syntax_ok(f: FieldNode, syntax: Syntax) -> bool {
    match syntax {
        Syntax::Proto3 => !(f.label is Required) && !f.has_default,
        Syntax::Proto2 => (f.ftype matches FieldType::MapOf(_, _)) || f.oneof is Some || !(f.label
            is Unlabeled),
    }
}

pub open spec fn syntax_ok(m: MessageNode, syntax: Syntax) -> bool {
    forall|k: int| 0 <= k < m.fields@.len() ==> field_syntax_ok(#[trigger] m.fields@[k], syntax)
}

/// A map key type must be integral, string or bool.
pub open spec fn map_key_ok(k: ScalarType) -> bool {
    !(k is Double || k is Float || k is Bytes)
}

/// Shape rules of one field's map type, if it is one: comparable key,
/// no label, not inside a oneof.
pub open spec fn field_map_ok(f: FieldNode) -> bool {
    f.ftype matches FieldType::MapOf(k, _) ==> map_key_ok(k) && f.label is Unlabeled && f.oneof
        is None
}

pub open spec fn maps_ok(m: MessageNode) -> bool {
    forall|k: int| 0 <= k < m.fields@.len() ==> field_map_ok(#[trigger] m.fields@[k])
}

/// An extension range is acceptable iff its bounds are ordered, lie in
/// `[1, 2^29 - 1]`, and no declared field number falls inside it.
pub open spec fn ext_range_ok(r: NumRange, fields: Seq<FieldNode>) -> bool {
    &&& 1 <= r.lo <= r.hi <= max_field_number()
    &&& forall|k: int| 0 <= k < fields.len() ==> !(r.lo <= (#[trigger] fields[k]).number <= r.hi)
}

pub open spec fn ext_ranges_ok(m: MessageNode) -> bool {
    forall|k: int| 0 <= k < m.ext_ranges@.len() ==> ext_range_ok(
        #[trigger] m.ext_ranges@[k],
        m.fields@,
    )
}

/// proto3 has no extensions: extension ranges are a proto2 feature.
pub open spec fn ext_syntax_ok(m: MessageNode, syntax: Syntax) -> bool {
    syntax is Proto3 ==> m.ext_ranges@.len() == 0
}

/// All structural rules of one message.
pub open spec fn message_valid(m: MessageNode, syntax: Syntax) -> bool {
    &&& !has_dup_numbers(m.fields@)
    &&& numbers_ok(m)
    &&& syntax_ok(m, syntax)
    &&& maps_ok(m)
    &&& ext_syntax_ok(m, syntax)
    &&& ext_ranges_ok(m)
}

/// Two distinct values of one enum carry the same number.
pub open spec fn dup_enum_pair(e: EnumNode, a: int, b: int) -> bool {
    0 <= a < b < e.values@.len() && e.values@[a].number == e.values@[b].number
}

/// All structural rules of one enum: non-empty, and value numbers unique
/// unless the enum allows aliases.
pub open spec fn enum_valid(e: EnumNode) -> bool {
    &&& e.values@.len() > 0
    &&& !e.allow_alias ==> !(exists|a: int, b: int| dup_enum_pair(e, a, b))
}

/// Checks one message against every structural rule. The result is empty
/// exactly when the message is valid; a duplicate-number error carries the
/// positions of both fields involved.
#[verifier::loop_isolation(false)]
#[verifier::rlimit(100)]
pub fn validate_message(m: &MessageNode, syntax: Syntax) -> (r: Vec<ValidationError>)
    ensures
        r@.len() == 0 <==> message_valid(*m, syntax),
        forall|a: int, b: int| dup_number_pair(m.fields@, a, b) ==> exists|e: int|
            0 <= e < r@.len() && (#[trigger] r@[e]).kind == ValidationKind::DuplicateFieldNumber
                && r@[e].other_pos == m.fields@[a].pos && r@[e].pos == m.fields@[b].pos,
        forall|k: int|
            0 <= k < m.fields@.len() && !field_syntax_ok(#[trigger] m.fields@[k], syntax)
                ==> exists|e: int|
                0 <= e < r@.len() && (#[trigger] r@[e]).kind
                    == ValidationKind::SyntaxFeatureRestriction && r@[e].pos == m.fields@[k].pos,
        forall|k: int|
            0 <= k < m.fields@.len() && !field_number_ok(
                (#[trigger] m.fields@[k]).number as int,
                m.reserved@,
            ) ==> exists|e: int|
                0 <= e < r@.len() && ((#[trigger] r@[e]).kind
                    == ValidationKind::FieldNumberOutOfRange || r@[e].kind
                    == ValidationKind::FieldNumberReserved) && r@[e].pos == m.fields@[k].pos,
{
    let mut errors: Vec<ValidationError> = Vec::new();
    let nf = m.fields.len();
    // duplicate field numbers: every later field against every earlier one
    let mut b: usize = 0;
    while b < nf
        invariant
            b <= nf,
            errors@.len() == 0 <==> !(exists|x: int, y: int|
                dup_number_pair(m.fields@, x, y) && y < b),
            forall|x: int, y: int| dup_number_pair(m.fields@, x, y) && y < b ==> exists|e: int|
                0 <= e < errors@.len() && (#[trigger] errors@[e]).kind
                    == ValidationKind::DuplicateFieldNumber && errors@[e].other_pos == m.fields@[
                    x
                ].pos && errors@[e].pos == m.fields@[y].pos,
        decreases nf - b,
    {
        let mut a: usize = 0;
        while a < b
            invariant
                a <= b < nf,
                errors@.len() == 0 <==> !(exists|x: int, y: int|
                    dup_number_pair(m.fields@, x, y) && y < b) && !(exists|x: int|
                    dup_number_pair(m.fields@, x, b as int) && x < a),
                forall|x: int, y: int| dup_number_pair(m.fields@, x, y) && y < b ==> exists|
                    e: int,
                |
                    0 <= e < errors@.len() && (#[trigger] errors@[e]).kind
                        == ValidationKind::DuplicateFieldNumber && errors@[e].other_pos
                        == m.fields@[x].pos && errors@[e].pos == m.fields@[y].pos,
                forall|x: int| dup_number_pair(m.fields@, x, b as int) && x < a ==> exists|e: int|
                    0 <= e < errors@.len() && (#[trigger] errors@[e]).kind
                        == ValidationKind::DuplicateFieldNumber && errors@[e].other_pos
                        == m.fields@[x].pos && errors@[e].pos == m.fields@[b as int].pos,
            decreases b - a,
        {
            let ghost errs0 = errors@;
            if m.fields[a].number == m.fields[b].number {
                assert(dup_number_pair(m.fields@, a as int, b as int));
                errors.push(
                    ValidationError {
                        kind: ValidationKind::DuplicateFieldNumber,
                        pos: m.fields[b].pos,
                        other_pos: m.fields[a].pos,
                    },
                );
            }
            proof {
                assert forall|x: int, y: int|
                    dup_number_pair(m.fields@, x, y) && y < b implies exists|e: int|
                    0 <= e < errors@.len() && (#[trigger] errors@[e]).kind
                        == ValidationKind::DuplicateFieldNumber && errors@[e].other_pos
                        == m.fields@[x].pos && errors@[e].pos == m.fields@[y].pos by {
                    let e = choose|e: int|
                        0 <= e < errs0.len() && (#[trigger] errs0[e]).kind
                            == ValidationKind::DuplicateFieldNumber && errs0[e].other_pos
                            == m.fields@[x].pos && errs0[e].pos == m.fields@[y].pos;
                    assert(errors@[e] == errs0[e]);
                }
                assert forall|x: int|
                    dup_number_pair(m.fields@, x, b as int) && x < a + 1 implies exists|e: int|
                    0 <= e < errors@.len() && (#[trigger] errors@[e]).kind
                        == ValidationKind::DuplicateFieldNumber && errors@[e].other_pos
                        == m.fields@[x].pos && errors@[e].pos == m.fields@[b as int].pos by {
                    if x < a {
                        let e = choose|e: int|
                            0 <= e < errs0.len() && (#[trigger] errs0[e]).kind
                                == ValidationKind::DuplicateFieldNumber && errs0[e].other_pos
                                == m.fields@[x].pos && errs0[e].pos == m.fields@[b as int].pos;
                        assert(errors@[e] == errs0[e]);
                    } else {
                        assert(errors@[errors@.len() - 1].kind
                            == ValidationKind::DuplicateFieldNumber);
                    }
                }
            }
            a = a + 1;
        }
        proof {
            assert forall|x: int, y: int|
                dup_number_pair(m.fields@, x, y) && y < b + 1 implies exists|e: int|
                0 <= e < errors@.len() && (#[trigger] errors@[e]).kind
                    == ValidationKind::DuplicateFieldNumber && errors@[e].other_pos == m.fields@[
                    x
                ].pos && errors@[e].pos == m.fields@[y].pos by {
                if y < b {
                } else {
                }
            }
        }
        b = b + 1;
    }
    let dup_errors = errors.len();
    proof {
        if has_dup_numbers(m.fields@) {
            let (x, y) = choose|x: int, y: int| dup_number_pair(m.fields@, x, y);
            assert(dup_number_pair(m.fields@, x, y) && y < nf);
        }
    }
    assert(dup_errors == 0 <==> !has_dup_numbers(m.fields@));
    // per-field rules: number validity, syntax restrictions, map shape
    let mut k: usize = 0;
    while k < nf
        invariant
            k <= nf,
            errors@.len() == dup_errors as int <==> (forall|x: int| 0 <= x < k ==> field_number_ok(
                (#[trigger] m.fields@[x]).number as int,
                m.reserved@,
            ) && field_syntax_ok(m.fields@[x], syntax) && field_map_ok(m.fields@[x])),
            errors@.len() >= dup_errors as int,
            forall|x: int, y: int| dup_number_pair(m.fields@, x, y) ==> exists|e: int|
                0 <= e < errors@.len() && (#[trigger] errors@[e]).kind
                    == ValidationKind::DuplicateFieldNumber && errors@[e].other_pos == m.fields@[
                    x
                ].pos && errors@[e].pos == m.fields@[y].pos,
            forall|x: int|
                0 <= x < k && !field_syntax_ok(#[trigger] m.fields@[x], syntax) ==> exists|e: int|
                    0 <= e < errors@.len() && (#[trigger] errors@[e]).kind
                        == ValidationKind::SyntaxFeatureRestriction && errors@[e].pos == m.fields@[
                        x
                    ].pos,
            forall|x: int|
                0 <= x < k && !field_number_ok(
                    (#[trigger] m.fields@[x]).number as int,
                    m.reserved@,
                ) ==> exists|e: int|
                    0 <= e < errors@.len() && ((#[trigger] errors@[e]).kind
                        == ValidationKind::FieldNumberOutOfRange || errors@[e].kind
                        == ValidationKind::FieldNumberReserved) && errors@[e].pos == m.fields@[
                        x
                    ].pos,
        decreases nf - k,
    {
        let ghost errs0 = errors@;
        let f = &m.fields[k];
        let ghost num_idx = errors@.len() as int;
        if !check_field_number(f.number, &m.reserved) {
            let kind = if f.number < 1 || f.number > 0x1FFFFFFF {
                ValidationKind::FieldNumberOutOfRange
            } else {
                ValidationKind::FieldNumberReserved
            };
            errors.push(ValidationError { kind, pos: f.pos, other_pos: f.pos });
        }
        let syntax_bad = match syntax {
            Syntax::Proto3 => matches!(f.label, Label::Required) || f.has_default,
            Syntax::Proto2 => !matches!(f.ftype, FieldType::MapOf(_, _)) && f.oneof.is_none()
                && matches!(f.label, Label::Unlabeled),
        };
        let ghost syn_idx = errors@.len() as int;
        if syntax_bad {
            errors.push(
                ValidationError {
                    kind: ValidationKind::SyntaxFeatureRestriction,
                    pos: f.pos,
                    other_pos: f.pos,
                },
            );
        }
        match f.ftype {
            FieldType::MapOf(key, _) => {
                let key_bad = matches!(key, ScalarType::Double) || matches!(
                    key,
                    ScalarType::Float,
                ) || matches!(key, ScalarType::Bytes);
                if key_bad {
                    errors.push(
                        ValidationError {
                            kind: ValidationKind::MapKeyNotComparable,
                            pos: f.pos,
                            other_pos: f.pos,
                        },
                    );
                }
                if !matches!(f.label, Label::Unlabeled) || f.oneof.is_some() {
                    errors.push(
                        ValidationError {
                            kind: ValidationKind::MapFieldShape,
                            pos: f.pos,
                            other_pos: f.pos,
                        },
                    );
                }
            },
            _ => {},
        }
        proof {
            assert forall|x: int, y: int| dup_number_pair(m.fields@, x, y) implies exists|e: int|
                0 <= e < errors@.len() && (#[trigger] errors@[e]).kind
                    == ValidationKind::DuplicateFieldNumber && errors@[e].other_pos == m.fields@[
                    x
                ].pos && errors@[e].pos == m.fields@[y].pos by {
                let e = choose|e: int|
                    0 <= e < errs0.len() && (#[trigger] errs0[e]).kind
                        == ValidationKind::DuplicateFieldNumber && errs0[e].other_pos == m.fields@[
                        x
                    ].pos && errs0[e].pos == m.fields@[y].pos;
                assert(errors@[e] == errs0[e]);
            }
            assert forall|x: int|
                0 <= x < k + 1 && !field_syntax_ok(#[trigger] m.fields@[x], syntax) implies exists|
                e: int,
            |
                0 <= e < errors@.len() && (#[trigger] errors@[e]).kind
                    == ValidationKind::SyntaxFeatureRestriction && errors@[e].pos == m.fields@[
                    x
                ].pos by {
                if x < k {
                    let e = choose|e: int|
                        0 <= e < errs0.len() && (#[trigger] errs0[e]).kind
                            == ValidationKind::SyntaxFeatureRestriction && errs0[e].pos
                            == m.fields@[x].pos;
                    assert(errors@[e] == errs0[e]);
                } else {
                    assert(errors@[syn_idx].kind == ValidationKind::SyntaxFeatureRestriction
                        && errors@[syn_idx].pos == m.fields@[x].pos);
                }
            }
            assert forall|x: int|
                0 <= x < k + 1 && !field_number_ok(
                    (#[trigger] m.fields@[x]).number as int,
                    m.reserved@,
                ) implies exists|e: int|
                0 <= e < errors@.len() && ((#[trigger] errors@[e]).kind
                    == ValidationKind::FieldNumberOutOfRange || errors@[e].kind
                    == ValidationKind::FieldNumberReserved) && errors@[e].pos == m.fields@[
                    x
                ].pos by {
                if x < k {
                    let e = choose|e: int|
                        0 <= e < errs0.len() && ((#[trigger] errs0[e]).kind
                            == ValidationKind::FieldNumberOutOfRange || errs0[e].kind
                            == ValidationKind::FieldNumberReserved) && errs0[e].pos == m.fields@[
                            x
                        ].pos;
                    assert(errors@[e] == errs0[e]);
                } else {
                    assert((errors@[num_idx].kind == ValidationKind::FieldNumberOutOfRange
                        || errors@[num_idx].kind == ValidationKind::FieldNumberReserved)
                        && errors@[num_idx].pos == m.fields@[x].pos);
                }
            }
        }
        k = k + 1;
    }
    let per_field_errors = errors.len();
    assert(per_field_errors == dup_errors <==> (numbers_ok(*m) && syntax_ok(*m, syntax) && maps_ok(
        *m,
    )));
    // proto3 rejects extension ranges altogether
    let ghost errs_pf = errors@;
    if matches!(syntax, Syntax::Proto3) && m.ext_ranges.len() > 0 {
        errors.push(
            ValidationError {
                kind: ValidationKind::SyntaxFeatureRestriction,
                pos: m.pos,
                other_pos: m.pos,
            },
        );
    }
    proof {
        assert forall|x: int, y: int| dup_number_pair(m.fields@, x, y) implies exists|e: int|
            0 <= e < errors@.len() && (#[trigger] errors@[e]).kind
                == ValidationKind::DuplicateFieldNumber && errors@[e].other_pos == m.fields@[
                x
            ].pos && errors@[e].pos == m.fields@[y].pos by {
            let e = choose|e: int|
                0 <= e < errs_pf.len() && (#[trigger] errs_pf[e]).kind
                    == ValidationKind::DuplicateFieldNumber && errs_pf[e].other_pos == m.fields@[
                    x
                ].pos && errs_pf[e].pos == m.fields@[y].pos;
            assert(errors@[e] == errs_pf[e]);
        }
        assert forall|x: int|
            0 <= x < m.fields@.len() && !field_syntax_ok(#[trigger] m.fields@[x], syntax) implies
            exists|e: int|
            0 <= e < errors@.len() && (#[trigger] errors@[e]).kind
                == ValidationKind::SyntaxFeatureRestriction && errors@[e].pos == m.fields@[
                x
            ].pos by {
            let e = choose|e: int|
                0 <= e < errs_pf.len() && (#[trigger] errs_pf[e]).kind
                    == ValidationKind::SyntaxFeatureRestriction && errs_pf[e].pos == m.fields@[
                    x
                ].pos;
            assert(errors@[e] == errs_pf[e]);
        }
        assert forall|x: int|
            0 <= x < m.fields@.len() && !field_number_ok(
                (#[trigger] m.fields@[x]).number as int,
                m.reserved@,
            ) implies exists|e: int|
            0 <= e < errors@.len() && ((#[trigger] errors@[e]).kind
                == ValidationKind::FieldNumberOutOfRange || errors@[e].kind
                == ValidationKind::FieldNumberReserved) && errors@[e].pos == m.fields@[
                x
            ].pos by {
            let e = choose|e: int|
                0 <= e < errs_pf.len() && ((#[trigger] errs_pf[e]).kind
                    == ValidationKind::FieldNumberOutOfRange || errs_pf[e].kind
                    == ValidationKind::FieldNumberReserved) && errs_pf[e].pos == m.fields@[
                    x
                ].pos;
            assert(errors@[e] == errs_pf[e]);
        }
    }
    let p3_errors = errors.len();
    assert(p3_errors == per_field_errors <==> ext_syntax_ok(*m, syntax));
    // extension ranges: ordered, in bounds, and disjoint from declared fields
    let mut k: usize = 0;
    while k < m.ext_ranges.len()
        invariant
            k <= m.ext_ranges@.len(),
            errors@.len() == p3_errors as int <==> (forall|x: int| 0 <= x < k
                ==> ext_range_ok(#[trigger] m.ext_ranges@[x], m.fields@)),
            errors@.len() >= p3_errors as int,
            forall|x: int, y: int| dup_number_pair(m.fields@, x, y) ==> exists|e: int|
                0 <= e < errors@.len() && (#[trigger] errors@[e]).kind
                    == ValidationKind::DuplicateFieldNumber && errors@[e].other_pos == m.fields@[
                    x
                ].pos && errors@[e].pos == m.fields@[y].pos,
            forall|x: int|
                0 <= x < m.fields@.len() && !field_syntax_ok(#[trigger] m.fields@[x], syntax)
                    ==> exists|e: int|
                    0 <= e < errors@.len() && (#[trigger] errors@[e]).kind
                        == ValidationKind::SyntaxFeatureRestriction && errors@[e].pos == m.fields@[
                        x
                    ].pos,
            forall|x: int|
                0 <= x < m.fields@.len() && !field_number_ok(
                    (#[trigger] m.fields@[x]).number as int,
                    m.reserved@,
                ) ==> exists|e: int|
                    0 <= e < errors@.len() && ((#[trigger] errors@[e]).kind
                        == ValidationKind::FieldNumberOutOfRange || errors@[e].kind
                        == ValidationKind::FieldNumberReserved) && errors@[e].pos == m.fields@[
                        x
                    ].pos,
        decreases m.ext_ranges@.len() - k,
    {
        let ghost errs0 = errors@;
        let r = m.ext_ranges[k];
        let mut bad = r.lo < 1 || r.lo > r.hi || r.hi > 0x1FFFFFFF;
        let mut x: usize = 0;
        while x < nf
            invariant
                x <= nf,
                bad == !(r.lo >= 1 && r.lo <= r.hi && r.hi <= max_field_number() && forall|t: int|
                    0 <= t < x ==> !(r.lo <= (#[trigger] m.fields@[t]).number <= r.hi)),
            decreases nf - x,
        {
            if r.lo <= m.fields[x].number && m.fields[x].number <= r.hi {
                bad = true;
            }
            x = x + 1;
        }
        if bad {
            errors.push(
                ValidationError {
                    kind: ValidationKind::ExtensionRangeInvalid,
                    pos: m.pos,
                    other_pos: m.pos,
                },
            );
        }
        proof {
            assert forall|x: int, y: int| dup_number_pair(m.fields@, x, y) implies exists|e: int|
                0 <= e < errors@.len() && (#[trigger] errors@[e]).kind
                    == ValidationKind::DuplicateFieldNumber && errors@[e].other_pos == m.fields@[
                    x
                ].pos && errors@[e].pos == m.fields@[y].pos by {
                let e = choose|e: int|
                    0 <= e < errs0.len() && (#[trigger] errs0[e]).kind
                        == ValidationKind::DuplicateFieldNumber && errs0[e].other_pos == m.fields@[
                        x
                    ].pos && errs0[e].pos == m.fields@[y].pos;
                assert(errors@[e] == errs0[e]);
            }
            assert forall|x: int|
                0 <= x < m.fields@.len() && !field_syntax_ok(#[trigger] m.fields@[x], syntax)
                    implies exists|e: int|
                0 <= e < errors@.len() && (#[trigger] errors@[e]).kind
                    == ValidationKind::SyntaxFeatureRestriction && errors@[e].pos == m.fields@[
                    x
                ].pos by {
                let e = choose|e: int|
                    0 <= e < errs0.len() && (#[trigger] errs0[e]).kind
                        == ValidationKind::SyntaxFeatureRestriction && errs0[e].pos == m.fields@[
                        x
                    ].pos;
                assert(errors@[e] == errs0[e]);
            }
            assert forall|x: int|
                0 <= x < m.fields@.len() && !field_number_ok(
                    (#[trigger] m.fields@[x]).number as int,
                    m.reserved@,
                ) implies exists|e: int|
                0 <= e < errors@.len() && ((#[trigger] errors@[e]).kind
                    == ValidationKind::FieldNumberOutOfRange || errors@[e].kind
                    == ValidationKind::FieldNumberReserved) && errors@[e].pos == m.fields@[
                    x
                ].pos by {
                let e = choose|e: int|
                    0 <= e < errs0.len() && ((#[trigger] errs0[e]).kind
                        == ValidationKind::FieldNumberOutOfRange || errs0[e].kind
                        == ValidationKind::FieldNumberReserved) && errs0[e].pos == m.fields@[
                        x
                    ].pos;
                assert(errors@[e] == errs0[e]);
            }
        }
        k = k + 1;
    }
    errors
}

/// Checks one enum: it must have a value, and value numbers must be unique
/// unless `allow_alias` is set. The result is empty exactly when the enum
/// is valid.
#[verifier::loop_isolation(false)]
pub fn validate_enum(e: &EnumNode) -> (r: Vec<ValidationError>)
    ensures
        r@.len() == 0 <==> enum_valid(*e),
{
    let mut errors: Vec<ValidationError> = Vec::new();
    let nv = e.values.len();
    if nv == 0 {
        errors.push(
            ValidationError { kind: ValidationKind::EmptyEnum, pos: e.pos, other_pos: e.pos },
        );
        return errors;
    }
    if e.allow_alias {
        return errors;
    }
    let mut b: usize = 0;
    while b < nv
        invariant
            b <= nv,
            errors@.len() == 0 <==> !(exists|x: int, y: int| dup_enum_pair(*e, x, y) && y < b),
        decreases nv - b,
    {
        let mut a: usize = 0;
        while a < b
            invariant
                a <= b < nv,
                errors@.len() == 0 <==> !(exists|x: int, y: int|
                    dup_enum_pair(*e, x, y) && y < b) && !(exists|x: int|
                    dup_enum_pair(*e, x, b as int) && x < a),
            decreases b - a,
        {
            if e.values[a].number == e.values[b].number {
                assert(dup_enum_pair(*e, a as int, b as int));
                errors.push(
                    ValidationError {
                        kind: ValidationKind::DuplicateEnumValue,
                        pos: e.values[b].pos,
                        other_pos: e.values[a].pos,
                    },
                );
            }
            a = a + 1;
        }
        b = b + 1;
    }
    proof {
        if exists|x: int, y: int| dup_enum_pair(*e, x, y) {
            let (x, y) = choose|x: int, y: int| dup_enum_pair(*e, x, y);
            assert(dup_enum_pair(*e, x, y) && y < nv);
        }
    }
    errors
}

} // verus!

verus! {

/// Two sibling messages of one file share a name.
pub open spec fn dup_msg_pair(f: FileNode, a: int, b: int) -> bool {
    0 <= a < b < f.messages@.len() && f.messages@[a].parent == f.messages@[b].parent
        && f.messages@[a].name@ == f.messages@[b].name@
}

/// Two sibling enums of one file share a name.
pub open spec fn dup_enum_name_pair(f: FileNode, a: int, b: int) -> bool {
    0 <= a < b < f.enums@.len() && f.enums@[a].parent == f.enums@[b].parent && f.enums@[a].name@
        == f.enums@[b].name@
}

/// A message and an enum of one file share a scope and a name.
pub open spec fn dup_mixed_pair(f: FileNode, a: int, b: int) -> bool {
    0 <= a < f.messages@.len() && 0 <= b < f.enums@.len() && f.messages@[a].parent
        == f.enums@[b].parent && f.messages@[a].name@ == f.enums@[b].name@
}

/// No two declarations of the file share a scope and a name, so every
/// fully qualified name declared by the file is unique.
pub open spec fn symbols_unique(f: FileNode) -> bool {
    &&& !(exists|a: int, b: int| dup_msg_pair(f, a, b))
    &&& !(exists|a: int, b: int| dup_enum_name_pair(f, a, b))
    &&& !(exists|a: int, b: int| dup_mixed_pair(f, a, b))
}

/// Checks that no name is declared twice in one scope of the file. The
/// result is empty exactly when all declared names are unique; each error
/// carries the positions of both clashing declarations.
#[verifier::loop_isolation(false)]
pub fn check_duplicate_symbols(f: &FileNode) -> (r: Vec<ValidationError>)
    ensures
        r@.len() == 0 <==> symbols_unique(*f),
{
    let mut errors: Vec<ValidationError> = Vec::new();
    let nm = f.messages.len();
    let ne = f.enums.len();
    let mut b: usize = 0;
    while b < nm
        invariant
            b <= nm,
            errors@.len() == 0 <==> !(exists|x: int, y: int| dup_msg_pair(*f, x, y) && y < b),
        decreases nm - b,
    {
        let mut a: usize = 0;
        while a < b
            invariant
                a <= b < nm,
                errors@.len() == 0 <==> !(exists|x: int, y: int|
                    dup_msg_pair(*f, x, y) && y < b) && !(exists|x: int|
                    dup_msg_pair(*f, x, b as int) && x < a),
            decreases b - a,
        {
            if matches_parent(f.messages[a].parent, f.messages[b].parent) && chars_eq(
                &f.messages[a].name,
                &f.messages[b].name,
            ) {
                assert(dup_msg_pair(*f, a as int, b as int));
                errors.push(
                    ValidationError {
                        kind: ValidationKind::DuplicateSymbol,
                        pos: f.messages[b].pos,
                        other_pos: f.messages[a].pos,
                    },
                );
            }
            a = a + 1;
        }
        b = b + 1;
    }
    let msg_errors = errors.len();
    proof {
        if exists|x: int, y: int| dup_msg_pair(*f, x, y) {
            let (x, y) = choose|x: int, y: int| dup_msg_pair(*f, x, y);
            assert(dup_msg_pair(*f, x, y) && y < nm);
        }
    }
    let mut b: usize = 0;
    while b < ne
        invariant
            b <= ne,
            errors@.len() == msg_errors as int <==> !(exists|x: int, y: int|
                dup_enum_name_pair(*f, x, y) && y < b),
            errors@.len() >= msg_errors as int,
        decreases ne - b,
    {
        let mut a: usize = 0;
        while a < b
            invariant
                a <= b < ne,
                errors@.len() == msg_errors as int <==> !(exists|x: int, y: int|
                    dup_enum_name_pair(*f, x, y) && y < b) && !(exists|x: int|
                    dup_enum_name_pair(*f, x, b as int) && x < a),
                errors@.len() >= msg_errors as int,
            decreases b - a,
        {
            if matches_parent(f.enums[a].parent, f.enums[b].parent) && chars_eq(
                &f.enums[a].name,
                &f.enums[b].name,
            ) {
                assert(dup_enum_name_pair(*f, a as int, b as int));
                errors.push(
                    ValidationError {
                        kind: ValidationKind::DuplicateSymbol,
                        pos: f.enums[b].pos,
                        other_pos: f.enums[a].pos,
                    },
                );
            }
            a = a + 1;
        }
        b = b + 1;
    }
    let enum_errors = errors.len();
    proof {
        if exists|x: int, y: int| dup_enum_name_pair(*f, x, y) {
            let (x, y) = choose|x: int, y: int| dup_enum_name_pair(*f, x, y);
            assert(dup_enum_name_pair(*f, x, y) && y < ne);
        }
    }
    let mut a: usize = 0;
    while a < nm
        invariant
            a <= nm,
            errors@.len() == enum_errors as int <==> !(exists|x: int, y: int|
                dup_mixed_pair(*f, x, y) && x < a),
            errors@.len() >= enum_errors as int,
        decreases nm - a,
    {
        let mut b: usize = 0;
        while b < ne
            invariant
                b <= ne,
                a < nm,
                errors@.len() == enum_errors as int <==> !(exists|x: int, y: int|
                    dup_mixed_pair(*f, x, y) && x < a) && !(exists|y: int|
                    dup_mixed_pair(*f, a as int, y) && y < b),
                errors@.len() >= enum_errors as int,
            decreases ne - b,
        {
            if matches_parent(f.messages[a].parent, f.enums[b].parent) && chars_eq(
                &f.messages[a].name,
                &f.enums[b].name,
            ) {
                assert(dup_mixed_pair(*f, a as int, b as int));
                errors.push(
                    ValidationError {
                        kind: ValidationKind::DuplicateSymbol,
                        pos: f.enums[b].pos,
                        other_pos: f.messages[a].pos,
                    },
                );
            }
            b = b + 1;
        }
        a = a + 1;
    }
    errors
}

/// Equality of the optional enclosing-message index.
fn matches_parent(a: Option<usize>, b: Option<usize>) -> (r: bool)
    ensures
        r == (a == b),
{
    match (a, b) {
        (None, None) => true,
        (Some(x), Some(y)) => x == y,
        _ => false,
    }
}

} // verus!
