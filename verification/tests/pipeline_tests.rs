use protobuf_parse::diag::{CompileError, ImportError, ValidationKind};
use protobuf_parse::pipeline::parse_and_typecheck;
use protobuf_parse::resolver::SourceFile;

fn cv(s: &str) -> Vec<char> {
    s.chars().collect()
}

fn sf(path: &str, content: &str) -> SourceFile {
    SourceFile { path: cv(path), content: cv(content) }
}

fn compile(
    files: Vec<(&str, &str)>,
    inputs: Vec<&str>,
) -> Result<protobuf_parse::pipeline::ParsedAndTypechecked, CompileError> {
    let sources: Vec<SourceFile> = files.iter().map(|(p, c)| sf(p, c)).collect();
    let includes = vec![cv("")];
    let input_paths: Vec<Vec<char>> = inputs.iter().map(|p| cv(p)).collect();
    parse_and_typecheck(&sources, &includes, &input_paths)
}

fn validation_kinds(r: Result<protobuf_parse::pipeline::ParsedAndTypechecked, CompileError>) -> Vec<ValidationKind> {
    match r {
        Err(CompileError::Validation { errors, .. }) => errors.iter().map(|e| e.kind).collect(),
        other => panic!("expected a validation failure, got {:?}", other.is_ok()),
    }
}

#[test]
fn accepts_simple_proto3_message() {
    let r = compile(
        vec![("m.proto", "syntax = \"proto3\"; message M { int32 a = 1; string b = 2; }")],
        vec!["m.proto"],
    )
    .unwrap();
    assert_eq!(r.file_descriptors.len(), 1);
    let fd = &r.file_descriptors[0];
    assert_eq!(fd.messages.len(), 1);
    assert_eq!(fd.messages[0].name, cv("M"));
    assert_eq!(fd.messages[0].fqn, cv("M"));
    assert_eq!(fd.messages[0].fields.len(), 2);
    assert_eq!(fd.messages[0].fields[0].number, 1);
    assert_eq!(r.relative_paths, vec![cv("m.proto")]);
}

#[test]
fn duplicate_field_number_reports_both_positions() {
    // the duplicate-number error must reference both field positions
    let r = compile(
        vec![("m.proto", "syntax = \"proto3\";\nmessage M {\n  int32 a = 1;\n  int32 b = 1;\n}\n")],
        vec!["m.proto"],
    );
    match r {
        Err(CompileError::Validation { errors, .. }) => {
            assert_eq!(errors.len(), 1);
            assert_eq!(errors[0].kind, ValidationKind::DuplicateFieldNumber);
            assert_eq!(errors[0].other_pos.line, 3);
            assert_eq!(errors[0].pos.line, 4);
        }
        other => panic!("expected validation failure, got ok={}", other.is_ok()),
    }
}

#[test]
fn proto3_rejects_required() {
    let r = compile(
        vec![("m.proto", "syntax = \"proto3\"; message M { required string x = 1; }")],
        vec!["m.proto"],
    );
    let kinds = validation_kinds(r);
    assert!(kinds.contains(&ValidationKind::SyntaxFeatureRestriction));
}

#[test]
fn proto2_requires_labels() {
    // no syntax declaration: proto2 by default, where a plain field needs a label
    let r = compile(vec![("m.proto", "message M { int32 a = 1; }")], vec!["m.proto"]);
    let kinds = validation_kinds(r);
    assert!(kinds.contains(&ValidationKind::SyntaxFeatureRestriction));
}

#[test]
fn field_number_band_rejected() {
    let r = compile(
        vec![("m.proto", "syntax = \"proto3\"; message M { int32 a = 19000; }")],
        vec!["m.proto"],
    );
    let kinds = validation_kinds(r);
    assert!(kinds.contains(&ValidationKind::FieldNumberReserved));
}

#[test]
fn field_number_bounds() {
    // the largest legal number is accepted
    let ok = compile(
        vec![("m.proto", "syntax = \"proto3\"; message M { int32 a = 536870911; }")],
        vec!["m.proto"],
    );
    assert!(ok.is_ok());
    // one past it is rejected
    let r = compile(
        vec![("m.proto", "syntax = \"proto3\"; message M { int32 a = 536870912; }")],
        vec!["m.proto"],
    );
    let kinds = validation_kinds(r);
    assert!(kinds.contains(&ValidationKind::FieldNumberOutOfRange));
    // zero is rejected
    let r = compile(
        vec![("m.proto", "syntax = \"proto3\"; message M { int32 a = 0; }")],
        vec!["m.proto"],
    );
    let kinds = validation_kinds(r);
    assert!(kinds.contains(&ValidationKind::FieldNumberOutOfRange));
}

#[test]
fn declared_reserved_range_rejected() {
    let r = compile(
        vec![("m.proto", "syntax = \"proto3\"; message M { reserved 4, 20 to 30; int32 a = 25; }")],
        vec!["m.proto"],
    );
    let kinds = validation_kinds(r);
    assert!(kinds.contains(&ValidationKind::FieldNumberReserved));
    // a number outside the reserved ranges is accepted
    let ok = compile(
        vec![("m.proto", "syntax = \"proto3\"; message M { reserved 4, 20 to 30; int32 a = 31; }")],
        vec!["m.proto"],
    );
    assert!(ok.is_ok());
}

#[test]
fn map_field_lowers_to_synthetic_entry() {
    let r = compile(
        vec![("m.proto", "syntax = \"proto3\"; message M { map<string,int32> m = 1; }")],
        vec!["m.proto"],
    )
    .unwrap();
    let fd = &r.file_descriptors[0];
    // the declared message plus one synthetic entry message
    assert_eq!(fd.messages.len(), 2);
    let entry = &fd.messages[1];
    assert!(entry.map_entry);
    assert_eq!(entry.name, cv("MEntry"));
    assert_eq!(entry.fqn, cv("M.MEntry"));
    assert_eq!(entry.parent, Some(0));
    assert_eq!(entry.fields.len(), 2);
    assert_eq!(entry.fields[0].name, cv("key"));
    assert_eq!(entry.fields[0].number, 1);
    assert_eq!(entry.fields[0].scalar, Some(protobuf_parse::ast::ScalarType::Str));
    assert_eq!(entry.fields[1].name, cv("value"));
    assert_eq!(entry.fields[1].number, 2);
    assert_eq!(entry.fields[1].scalar, Some(protobuf_parse::ast::ScalarType::Int32));
    // the declaring field becomes repeated of the synthetic type
    let m = &fd.messages[0];
    assert_eq!(m.fields[0].label, protobuf_parse::ast::Label::Repeated);
    assert_eq!(m.fields[0].type_fqn, cv("M.MEntry"));
}

#[test]
fn map_key_must_be_comparable() {
    let r = compile(
        vec![("m.proto", "syntax = \"proto3\"; message M { map<float,int32> m = 1; }")],
        vec!["m.proto"],
    );
    let kinds = validation_kinds(r);
    assert!(kinds.contains(&ValidationKind::MapKeyNotComparable));
}

#[test]
fn public_import_is_transitively_visible() {
    // C references a type of B through A's public import
    let b = "syntax = \"proto3\"; package pb; message B { int32 x = 1; }";
    let a = "syntax = \"proto3\"; package pa; import public \"b.proto\"; message A { int32 y = 1; }";
    let c = "syntax = \"proto3\"; package pc; import \"a.proto\"; message C { pb.B f = 1; }";
    let r = compile(vec![("b.proto", b), ("a.proto", a), ("c.proto", c)], vec!["c.proto"]).unwrap();
    // dependency order: imports precede importers
    let names: Vec<String> = r
        .file_descriptors
        .iter()
        .map(|fd| fd.name.iter().collect::<String>())
        .collect();
    assert_eq!(names, vec!["b.proto", "a.proto", "c.proto"]);
    let c_fd = &r.file_descriptors[2];
    assert_eq!(c_fd.messages[0].fields[0].type_fqn, cv("pb.B"));
}

#[test]
fn import_cycle_fails_both_orders() {
    let a = "syntax = \"proto3\"; import \"b.proto\"; message A { int32 x = 1; }";
    let b = "syntax = \"proto3\"; import \"a.proto\"; message B { int32 x = 1; }";
    for inputs in [vec!["a.proto"], vec!["b.proto"], vec!["a.proto", "b.proto"], vec![
        "b.proto",
        "a.proto",
    ]] {
        let r = compile(vec![("a.proto", a), ("b.proto", b)], inputs);
        match r {
            Err(CompileError::Import(ImportError::Cycle { path_sequence })) => {
                // exactly the two files on the cycle, each importing the next
                assert_eq!(path_sequence.len(), 2);
                let names: Vec<String> =
                    path_sequence.iter().map(|p| p.iter().collect()).collect();
                assert!(names.contains(&"a.proto".to_string()));
                assert!(names.contains(&"b.proto".to_string()));
            }
            other => panic!("expected a cycle error, got ok={}", other.is_ok()),
        }
    }
}

#[test]
fn missing_import_fails_unless_weak() {
    let r = compile(
        vec![("m.proto", "syntax = \"proto3\"; import \"gone.proto\"; message M { int32 a = 1; }")],
        vec!["m.proto"],
    );
    match r {
        Err(CompileError::Import(ImportError::NotFound { path })) => {
            assert_eq!(path, cv("gone.proto"));
        }
        other => panic!("expected not-found, got ok={}", other.is_ok()),
    }
    let ok = compile(
        vec![(
            "m.proto",
            "syntax = \"proto3\"; import weak \"gone.proto\"; message M { int32 a = 1; }",
        )],
        vec!["m.proto"],
    );
    assert!(ok.is_ok());
}

#[test]
fn resolution_ignores_sibling_declaration_order() {
    // reordering non-conflicting sibling declarations never changes binding
    let one = "syntax = \"proto3\"; message Outer { Inner i = 1; message Inner { int32 x = 1; } message Other { int32 x = 1; } }";
    let two = "syntax = \"proto3\"; message Outer { Inner i = 1; message Other { int32 x = 1; } message Inner { int32 x = 1; } }";
    let r1 = compile(vec![("m.proto", one)], vec!["m.proto"]).unwrap();
    let r2 = compile(vec![("m.proto", two)], vec!["m.proto"]).unwrap();
    let t1 = &r1.file_descriptors[0].messages[0].fields[0].type_fqn;
    let t2 = &r2.file_descriptors[0].messages[0].fields[0].type_fqn;
    assert_eq!(t1, t2);
    assert_eq!(t1, &cv("Outer.Inner"));
}

#[test]
fn fqn_round_trip_through_descriptor() {
    // re-deriving dotted names from the lowered descriptor reproduces the
    // names computed during binding
    let src = "syntax = \"proto3\"; package a.b; message M { message N { int32 x = 1; } N n = 1; }";
    let r = compile(vec![("m.proto", src)], vec!["m.proto"]).unwrap();
    let fd = &r.file_descriptors[0];
    assert_eq!(fd.messages[0].fqn, cv("a.b.M"));
    assert_eq!(fd.messages[1].fqn, cv("a.b.M.N"));
    // derive the nested name from the descriptor structure alone
    let n = &fd.messages[1];
    let parent = &fd.messages[n.parent.unwrap()];
    let mut derived: Vec<char> = parent.fqn.clone();
    derived.push('.');
    derived.extend(n.name.iter());
    assert_eq!(derived, n.fqn);
    assert_eq!(fd.messages[0].fields[0].type_fqn, cv("a.b.M.N"));
}

#[test]
fn unresolved_reference_fails() {
    let r = compile(
        vec![("m.proto", "syntax = \"proto3\"; message M { Nope f = 1; }")],
        vec!["m.proto"],
    );
    assert!(matches!(r, Err(CompileError::Name { .. })));
}

#[test]
fn enum_rules() {
    let dup = compile(
        vec![("m.proto", "syntax = \"proto3\"; enum E { A = 0; B = 0; }")],
        vec!["m.proto"],
    );
    let kinds = validation_kinds(dup);
    assert!(kinds.contains(&ValidationKind::DuplicateEnumValue));
    let aliased = compile(
        vec![(
            "m.proto",
            "syntax = \"proto3\"; enum E { option allow_alias = true; A = 0; B = 0; }",
        )],
        vec!["m.proto"],
    );
    assert!(aliased.is_ok());
    let empty = compile(vec![("m.proto", "syntax = \"proto3\"; enum E { }")], vec!["m.proto"]);
    let kinds = validation_kinds(empty);
    assert!(kinds.contains(&ValidationKind::EmptyEnum));
}

#[test]
fn method_types_must_be_messages() {
    let good = "syntax = \"proto3\"; message Q { int32 a = 1; } message P { int32 a = 1; } service S { rpc M (Q) returns (P); }";
    assert!(compile(vec![("m.proto", good)], vec!["m.proto"]).is_ok());
    let bad = "syntax = \"proto3\"; enum E { A = 0; } message P { int32 a = 1; } service S { rpc M (E) returns (P); }";
    let kinds = validation_kinds(compile(vec![("m.proto", bad)], vec!["m.proto"]));
    assert!(kinds.contains(&ValidationKind::MethodTypeNotMessage));
}

#[test]
fn extension_range_overlap_rejected() {
    let r = compile(
        vec![("m.proto", "message M { optional int32 a = 150; extensions 100 to 199; }")],
        vec!["m.proto"],
    );
    let kinds = validation_kinds(r);
    assert!(kinds.contains(&ValidationKind::ExtensionRangeInvalid));
    let ok = compile(
        vec![("m.proto", "message M { optional int32 a = 1; extensions 100 to max; }")],
        vec!["m.proto"],
    );
    assert!(ok.is_ok());
}

#[test]
fn numeric_literal_bases() {
    let src = "syntax = \"proto3\"; message M { int32 a = 0x10; int32 b = 010; }";
    let r = compile(vec![("m.proto", src)], vec!["m.proto"]).unwrap();
    let fd = &r.file_descriptors[0];
    assert_eq!(fd.messages[0].fields[0].number, 16);
    assert_eq!(fd.messages[0].fields[1].number, 8);
}

#[test]
fn comments_and_strings() {
    let src = "// leading comment\nsyntax = \"proto3\"; /* block\ncomment */ message M { int32 a = 1; }";
    assert!(compile(vec![("m.proto", src)], vec!["m.proto"]).is_ok());
    let bad = "syntax = \"proto3";
    assert!(matches!(
        compile(vec![("m.proto", bad)], vec!["m.proto"]),
        Err(CompileError::Syntax { .. })
    ));
}

#[test]
fn absolute_and_scoped_references() {
    let src = "syntax = \"proto3\"; package p; message A { int32 x = 1; } message B { .p.A abs = 1; A rel = 2; }";
    let r = compile(vec![("m.proto", src)], vec!["m.proto"]).unwrap();
    let fd = &r.file_descriptors[0];
    assert_eq!(fd.messages[1].fields[0].type_fqn, cv("p.A"));
    assert_eq!(fd.messages[1].fields[1].type_fqn, cv("p.A"));
}

#[test]
fn oneof_fields_get_their_index() {
    let src = "syntax = \"proto3\"; message M { oneof alt { int32 a = 1; string b = 2; } int32 c = 3; }";
    let r = compile(vec![("m.proto", src)], vec!["m.proto"]).unwrap();
    let m = &r.file_descriptors[0].messages[0];
    assert_eq!(m.oneofs.len(), 1);
    assert_eq!(m.oneofs[0], cv("alt"));
    assert_eq!(m.fields[0].oneof_index, Some(0));
    assert_eq!(m.fields[1].oneof_index, Some(0));
    assert_eq!(m.fields[2].oneof_index, None);
}

#[test]
fn include_directories_resolve_in_order() {
    let b = "syntax = \"proto3\"; package inc; message B { int32 x = 1; }";
    let m = "syntax = \"proto3\"; import \"b.proto\"; message M { inc.B f = 1; }";
    let sources = vec![sf("root/m.proto", m), sf("inc/b.proto", b)];
    let includes = vec![cv("root"), cv("inc")];
    let inputs = vec![cv("root/m.proto")];
    let r = parse_and_typecheck(&sources, &includes, &inputs).unwrap();
    assert_eq!(r.relative_paths, vec![cv("m.proto")]);
    let names: Vec<String> =
        r.file_descriptors.iter().map(|fd| fd.name.iter().collect::<String>()).collect();
    assert_eq!(names, vec!["b.proto", "m.proto"]);
}

#[test]
fn duplicate_sibling_names_rejected() {
    let msgs = "syntax = \"proto3\"; message A { int32 x = 1; } message A { int32 y = 1; }";
    let kinds = validation_kinds(compile(vec![("m.proto", msgs)], vec!["m.proto"]));
    assert!(kinds.contains(&ValidationKind::DuplicateSymbol));
    let mixed = "syntax = \"proto3\"; message A { int32 x = 1; } enum A { Z = 0; }";
    let kinds = validation_kinds(compile(vec![("m.proto", mixed)], vec!["m.proto"]));
    assert!(kinds.contains(&ValidationKind::DuplicateSymbol));
    // the same name in different scopes is no clash
    let nested = "syntax = \"proto3\"; message A { message B { int32 x = 1; } } message B { int32 x = 1; }";
    assert!(compile(vec![("m.proto", nested)], vec!["m.proto"]).is_ok());
}

#[test]
fn proto3_rejects_extension_ranges() {
    let r = compile(
        vec![("m.proto", "syntax = \"proto3\"; message M { int32 a = 1; extensions 100 to 199; }")],
        vec!["m.proto"],
    );
    let kinds = validation_kinds(r);
    assert!(kinds.contains(&ValidationKind::SyntaxFeatureRestriction));
    // proto2 keeps them
    let ok = compile(
        vec![("m.proto", "message M { optional int32 a = 1; extensions 100 to 199; }")],
        vec!["m.proto"],
    );
    assert!(ok.is_ok());
}
