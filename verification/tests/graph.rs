use spx::cache::Cache;
use spx::cli::{choose_loader_dir, exit_code, loader_files, node_args, Command, LoaderDir};
use spx::graph::{
    extract_imports, import_base_dir, import_specifiers, manifest_entries, manifest_json, normalize_separators,
    transpile_file, ts_extensions,
};
use spx::errors::SpxError;
use spx::key::CacheKey;
use spx::parse::ModuleStatement;
use spx::walk::FileWalk;
use std::collections::HashMap;

#[test]
fn extract_imports_static() {
    let source = "import { a } from './foo';\nimport b from './bar';\nexport { c } from './baz';\nexport * from './qux';\nconst local = 1;\nexport { local };\n";
    let mut specs = extract_imports("entry.ts", source);
    specs.sort();
    assert_eq!(specs, vec!["./bar", "./baz", "./foo", "./qux"]);
}

#[test]
fn extract_imports_no_imports() {
    let specs = extract_imports("index.ts", "const x: number = 1;\nconsole.log(x);\n");
    assert!(specs.is_empty());
}

#[test]
fn extract_imports_keeps_source_order() {
    let specs = extract_imports("m.mjs", "export * from 'z';\nimport 'a';\n");
    assert_eq!(specs, vec!["z", "a"]);
}

#[test]
fn specifiers_of_statements() {
    let stmts = vec![
        ModuleStatement::Other,
        ModuleStatement::ExportAll(String::from("x")),
        ModuleStatement::Import(String::from("y")),
        ModuleStatement::ExportFrom(String::from("z")),
    ];
    assert_eq!(import_specifiers(&stmts), vec!["x", "y", "z"]);
}

fn walk(entry: &str, graph: &[(&str, &[&str])]) -> Vec<String> {
    let mut w = FileWalk::new(String::from(entry));
    while let Some(file) = w.next_file() {
        let imports = graph
            .iter()
            .find(|(f, _)| *f == file)
            .map(|(_, deps)| deps.iter().map(|d| d.to_string()).collect())
            .unwrap_or_default();
        w.add_imports(imports);
    }
    w.into_files()
}

#[test]
fn collect_files_single() {
    let files = walk("/p/single/index.ts", &[]);
    assert_eq!(files.len(), 1);
    assert!(files[0].ends_with("index.ts"));
}

#[test]
fn collect_files_two_level_graph() {
    let mut files = walk("/p/graph/a.ts", &[("/p/graph/a.ts", &["/p/graph/b.ts"])]);
    files.sort();
    assert_eq!(files.len(), 2);
    assert!(files.iter().any(|p| p.ends_with("a.ts")));
    assert!(files.iter().any(|p| p.ends_with("b.ts")));
}

#[test]
fn walk_visits_each_file_once_breadth_first() {
    let files = walk(
        "a",
        &[("a", &["b", "c", "b"]), ("b", &["c", "d", "a"]), ("c", &["d"]), ("d", &[])],
    );
    assert_eq!(files, vec!["a", "b", "c", "d"]);
}

#[test]
fn ts_extension_order() {
    assert_eq!(ts_extensions(), vec![".ts", ".mts", ".cts", ".js", ".mjs", ".cjs"]);
}

#[test]
fn base_dir_of_imports() {
    assert_eq!(import_base_dir("/a/b/c.ts"), "/a/b");
    assert_eq!(import_base_dir("/"), ".");
    assert_eq!(import_base_dir("c.ts"), "");
}

#[test]
fn manifest_paths_use_forward_slashes() {
    let pairs = vec![
        (String::from("C:\\proj\\a.ts"), CacheKey::compute("C:\\proj\\a.ts", 5)),
        (String::from("/proj/b.ts"), CacheKey::compute("/proj/b.ts", 6)),
    ];
    let entries = manifest_entries(&pairs);
    assert_eq!(entries.len(), 2);
    for (key, _) in &entries {
        assert!(!key.contains('\\'), "path contains backslash: {key}");
    }
    assert_eq!(entries[0], (String::from("C:/proj/a.ts"), pairs[0].1.to_hex()));
}

#[test]
fn manifest_later_pair_wins() {
    let k1 = CacheKey::compute("a\\b.ts", 1);
    let k2 = CacheKey::compute("a/b.ts", 2);
    let entries = manifest_entries(&vec![(String::from("a\\b.ts"), k1), (String::from("a/b.ts"), k2)]);
    assert_eq!(entries, vec![(String::from("a/b.ts"), k2.to_hex())]);
}

#[test]
fn build_writes_manifest() {
    let key = CacheKey::compute("/proj/main.ts", 9);
    let text = manifest_json(&vec![(String::from("/proj/main.ts"), key)]).unwrap();
    let map: HashMap<String, String> = serde_json::from_str(&text).unwrap();
    assert_eq!(map.len(), 1);
    assert_eq!(map.get("/proj/main.ts"), Some(&key.to_hex()));
}

#[test]
fn normalizes_backslashes() {
    assert_eq!(normalize_separators("a\\b\\c"), "a/b/c");
    assert_eq!(normalize_separators("ünï\\cödé"), "ünï/cödé");
}

#[test]
fn transpile_file_then_cache() {
    let out = transpile_file("/p/t.ts", "const t: string = 'x';").unwrap();
    assert!(out.map.is_none());
    let mut cache = Cache::new(String::from("/tmp/spx-graph"), Ok(())).unwrap();
    let (key, _) = cache.put("/p/t.ts", &out.code, Ok(Some(3))).unwrap();
    assert_eq!(key, CacheKey::compute("/p/t.ts", 3));
    assert!(transpile_file("/p/bad.ts", "let = ;").is_err());
}

#[test]
fn node_arguments() {
    let args = vec![String::from("--flag"), String::from("x")];
    assert_eq!(
        node_args("/l/esm-loader.mjs", "/l/cjs-register.cjs", "main.ts", &args),
        vec!["--import", "/l/esm-loader.mjs", "--require", "/l/cjs-register.cjs", "main.ts", "--flag", "x"]
    );
    assert_eq!(loader_files(), (String::from("esm-loader.mjs"), String::from("cjs-register.cjs")));
}

#[test]
fn loader_dir_choice() {
    assert_eq!(choose_loader_dir(Some(String::from("/env")), true, true), LoaderDir::FromEnv(String::from("/env")));
    assert_eq!(choose_loader_dir(None, true, true), LoaderDir::BesideBinary);
    assert_eq!(choose_loader_dir(None, false, true), LoaderDir::AboveBinary);
    assert_eq!(choose_loader_dir(None, false, false), LoaderDir::Fallback);
}

#[test]
fn exit_codes_and_notices() {
    assert_eq!(exit_code(Some(3)), 3);
    assert_eq!(exit_code(None), 1);
    assert_eq!(Command::Repl.notice(), Some(String::from("spx repl: coming soon")));
    assert_eq!(
        Command::Watch { file: String::from("a.ts"), args: vec![] }.notice(),
        Some(String::from("spx watch: coming soon"))
    );
    assert_eq!(Command::Run { file: String::from("a.ts"), args: vec![] }.notice(), None);
}

#[test]
fn spawn_errors() {
    let missing = std::io::Error::new(std::io::ErrorKind::NotFound, "node");
    assert!(matches!(spx::cli::spawn_error(missing), SpxError::NodeNotFound));
    let denied = std::io::Error::new(std::io::ErrorKind::PermissionDenied, "node");
    assert!(matches!(spx::cli::spawn_error(denied), SpxError::Io(_)));
}

#[test]
fn manifest_text_is_sorted_json_object() {
    let ka = CacheKey::compute("/b.ts", 1);
    let kb = CacheKey::compute("/a.ts", 2);
    let text = manifest_json(&vec![(String::from("/b.ts"), ka), (String::from("/a.ts"), kb)]).unwrap();
    assert_eq!(text, format!("{{\"/a.ts\":\"{}\",\"/b.ts\":\"{}\"}}", kb.to_hex(), ka.to_hex()));
}

#[test]
fn transpile_file_reports_parse_errors_with_the_path() {
    match transpile_file("/p/bad.ts", "const = ;") {
        Err(SpxError::Transpile(spx::transpile::TranspileError::Parse { file, message })) => {
            assert_eq!(file, "/p/bad.ts");
            assert!(!message.is_empty());
        }
        _ => panic!("expected a parse error"),
    }
}

#[test]
fn collect_files_resolves_imports() {
    // `/etc/passwd` exists on every Linux system; `left-pad` is not installed.
    let resolver = spx::graph::graph_resolver();
    let mut w = FileWalk::new(String::from("/virtual/entry.ts"));
    let mut sources = vec![
        "import '/etc/passwd';\nimport pad from 'left-pad';\n",
        "export * from '/etc/passwd';\n",
    ]
    .into_iter();
    while let Some(_path) = w.next_file() {
        w.visit(&resolver, sources.next().unwrap());
    }
    assert_eq!(w.into_files(), vec!["/virtual/entry.ts", "/etc/passwd"]);
}

#[test]
fn resolve_imports_skips_unresolvable() {
    let resolver = spx::graph::graph_resolver();
    let specs = vec![String::from("left-pad"), String::from("/etc/passwd"), String::from("./nope")];
    assert_eq!(spx::graph::resolve_imports(&resolver, "/", &specs), vec!["/etc/passwd"]);
}
