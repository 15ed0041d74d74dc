use protobuf_parse::ast::NumRange;
use protobuf_parse::lexer::{TokKind, tokenize};
use protobuf_parse::paths::remove_path_prefix;
use protobuf_parse::validator::check_field_number;

fn cv(s: &str) -> Vec<char> {
    s.chars().collect()
}

#[test]
fn test_remove_path_prefix() {
    assert_eq!(
        Some(cv("abc.proto")),
        remove_path_prefix(&cv("xxx/abc.proto"), &cv("xxx"))
    );
    assert_eq!(
        Some(cv("abc.proto")),
        remove_path_prefix(&cv("xxx/abc.proto"), &cv("xxx/"))
    );
    assert_eq!(
        Some(cv("abc.proto")),
        remove_path_prefix(&cv("../xxx/abc.proto"), &cv("../xxx/"))
    );
    assert_eq!(
        Some(cv("abc.proto")),
        remove_path_prefix(&cv("abc.proto"), &cv("."))
    );
    assert_eq!(
        Some(cv("abc.proto")),
        remove_path_prefix(&cv("abc.proto"), &cv("./"))
    );
    assert_eq!(None, remove_path_prefix(&cv("xxx/abc.proto"), &cv("yyy")));
    assert_eq!(None, remove_path_prefix(&cv("xxx/abc.proto"), &cv("yyy/")));
}

#[test]
fn field_numbers_accepted_and_rejected() {
    let none: Vec<NumRange> = vec![];
    // every bound of the legal interval
    assert!(check_field_number(1, &none));
    assert!(check_field_number(536870911, &none));
    assert!(!check_field_number(0, &none));
    assert!(!check_field_number(536870912, &none));
    // the language's reserved band
    assert!(!check_field_number(19000, &none));
    assert!(!check_field_number(19999, &none));
    assert!(check_field_number(18999, &none));
    assert!(check_field_number(20000, &none));
    // declared reserved ranges
    let reserved = vec![NumRange { lo: 5, hi: 10 }, NumRange { lo: 42, hi: 42 }];
    assert!(!check_field_number(5, &reserved));
    assert!(!check_field_number(7, &reserved));
    assert!(!check_field_number(10, &reserved));
    assert!(!check_field_number(42, &reserved));
    assert!(check_field_number(4, &reserved));
    assert!(check_field_number(11, &reserved));
    assert!(check_field_number(41, &reserved));
}

#[test]
fn lexer_token_shapes() {
    let toks = tokenize(&cv("message M { int32 a = 0x1F; } // end")).unwrap();
    assert_eq!(toks[0].kind, TokKind::Ident);
    assert_eq!(toks[0].text, cv("message"));
    let nums: Vec<u64> =
        toks.iter().filter(|t| t.kind == TokKind::IntLit).map(|t| t.value).collect();
    assert_eq!(nums, vec![31]);
}

#[test]
fn lexer_string_escapes_and_errors() {
    let toks = tokenize(&cv("\"a\\nb\\\"c\"")).unwrap();
    assert_eq!(toks.len(), 1);
    assert_eq!(toks[0].kind, TokKind::StrLit);
    assert_eq!(toks[0].text, cv("a\nb\"c"));
    assert!(tokenize(&cv("\"open")).is_err());
    assert!(tokenize(&cv("/* open")).is_err());
    assert!(tokenize(&cv("message @")).is_err());
}

#[test]
fn lexer_positions() {
    let toks = tokenize(&cv("a\n  b")).unwrap();
    assert_eq!(toks[0].pos.line, 1);
    assert_eq!(toks[0].pos.col, 1);
    assert_eq!(toks[1].pos.line, 2);
    assert_eq!(toks[1].pos.col, 3);
}

#[test]
fn path_stripping_normalizes_components() {
    // a leading `.` component is ignored wherever it is written
    assert_eq!(
        remove_path_prefix(&cv("././x"), &cv("")),
        remove_path_prefix(&cv("./x"), &cv(""))
    );
    assert_eq!(Some(cv("x")), remove_path_prefix(&cv("././x"), &cv("")));
    // interior `.` segments and doubled separators do not count
    assert_eq!(Some(cv("abc")), remove_path_prefix(&cv("xxx/./abc"), &cv("xxx")));
    assert_eq!(Some(cv("abc")), remove_path_prefix(&cv("xxx//abc"), &cv("xxx/")));
    // an absolute path never matches a relative prefix
    assert_eq!(None, remove_path_prefix(&cv("/xxx/abc"), &cv("xxx")));
    assert_eq!(Some(cv("abc")), remove_path_prefix(&cv("/xxx/abc"), &cv("/xxx")));
}
