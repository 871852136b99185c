use spx::options::TranspileOptions;
use spx::transpile::{check_stage, fmt_errors, transpile, Stage, TranspileError};

fn opts(filename: &str) -> TranspileOptions {
    TranspileOptions::new(filename)
}

#[test]
fn strips_type_annotation() {
    let src = "const x: number = 42;";
    let out = transpile(src, &opts("index.ts")).unwrap();
    assert!(!out.code.contains(": number"), "type annotation should be stripped");
    assert!(out.code.contains("42"));
}

#[test]
fn strips_interface() {
    let src = "interface Foo { bar: string } export {};";
    let out = transpile(src, &opts("foo.ts")).unwrap();
    assert!(!out.code.contains("interface"));
}

#[test]
fn plain_js_passthrough() {
    let src = "const hello = 'world';";
    let out = transpile(src, &opts("hello.mjs")).unwrap();
    assert!(out.code.contains("hello"));
    assert!(out.code.contains("world"));
}

#[test]
fn source_map_absent_by_default() {
    let src = "const x: number = 1;";
    let out = transpile(src, &opts("x.ts")).unwrap();
    assert!(out.map.is_none());
}

#[test]
fn source_map_present_when_requested() {
    let src = "const x: number = 1;";
    let mut o = opts("x.ts");
    o.source_maps = true;
    let out = transpile(src, &o).unwrap();
    assert!(out.map.is_some());
}

#[test]
fn parse_error_is_reported() {
    let src = "const = ;";
    let result = transpile(src, &opts("bad.ts"));
    assert!(result.is_err());
}

#[test]
fn parse_error_names_the_file() {
    match transpile("const = ;", &opts("bad.ts")) {
        Err(TranspileError::Parse { file, message }) => {
            assert_eq!(file, "bad.ts");
            assert!(!message.is_empty());
        }
        _ => panic!("expected a parse error"),
    }
}

#[test]
fn unknown_extension_is_javascript() {
    let out = transpile("let a = 1;", &opts("script.unknown")).unwrap();
    assert!(out.code.contains("let a = 1"));
}

#[test]
fn default_options() {
    let o = TranspileOptions::default();
    assert_eq!(o.filename, "<unknown>");
    assert!(!o.source_maps);
    let n = TranspileOptions::new("a.ts");
    assert_eq!(n.filename, "a.ts");
    assert!(!n.source_maps);
}

#[test]
fn errors_are_joined_with_semicolons() {
    let msgs = vec![String::from("a"), String::from("b"), String::from("c")];
    assert_eq!(fmt_errors(&msgs), "a; b; c");
    assert_eq!(fmt_errors(&vec![String::from("only")]), "only");
    assert_eq!(fmt_errors(&Vec::new()), "");
}

#[test]
fn stage_outcomes() {
    assert_eq!(check_stage(Stage::Parse, "f.ts", &Vec::new()), Ok(()));
    assert_eq!(
        check_stage(Stage::Transform, "f.ts", &vec![String::from("x"), String::from("y")]),
        Err(TranspileError::Transform { file: String::from("f.ts"), message: String::from("x; y") })
    );
    assert_eq!(
        check_stage(Stage::Parse, "g.ts", &vec![String::from("z")]),
        Err(TranspileError::Parse { file: String::from("g.ts"), message: String::from("z") })
    );
}

#[test]
fn source_maps_change_only_the_map() {
    let src = "const x: number = 1;";
    let mut with_map = opts("x.ts");
    with_map.source_maps = true;
    let a = transpile(src, &with_map).unwrap();
    let b = transpile(src, &opts("x.ts")).unwrap();
    assert_eq!(a.code, b.code);
    assert!(a.map.is_some() && b.map.is_none());
}

#[test]
fn parse_error_for_unknown_extension() {
    match transpile("let = ;", &opts("notes.txt")) {
        Err(TranspileError::Parse { file, .. }) => assert_eq!(file, "notes.txt"),
        _ => panic!("expected a parse error"),
    }
}
