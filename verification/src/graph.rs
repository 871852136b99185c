use vstd::prelude::*;
use oxc_resolver::{FileSystemOs, ResolverGeneric};
use crate::key::CacheKey;
use crate::text::{hex_lower, string_from_chars};
use crate::options::{source_type_for, oxc_source_type_for_path};
use crate::transpile::{transpile, transpile_outcome, output_outcome, error_outcome, TranspileOutput};
use crate::parse::{new_allocator, parse_program, oxc_parse, ModuleStatement, specifier_of, specifiers_of};
use crate::options::TranspileOptions;
use crate::cache::Cache;
use crate::errors::SpxError;

verus! {

broadcast use vstd::string::group_string_axioms;

/// The specifiers that the statements import or re-export from, in order.
pub fn import_specifiers(stmts: &Vec<ModuleStatement>) -> (specs: Vec<String>)
    ensures
        specs.deep_view() == specifiers_of(stmts@),
{
    let mut specs: Vec<String> = Vec::new();
    let n = stmts.len();
    let mut i: usize = 0;
    while i < n
        invariant
            n == stmts@.len(),
            i <= n,
            specs.deep_view() == stmts@.take(i as int).filter_map(|s: ModuleStatement| specifier_of(s)),
        decreases n - i,
    {
        proof {
            stmts@.lemma_filter_map_take_succ(|s: ModuleStatement| specifier_of(s), i as int);
        }
        let ghost before = specs.deep_view();
        match &stmts[i] {
            ModuleStatement::Import(src) | ModuleStatement::ExportFrom(src) | ModuleStatement::ExportAll(src) => {
                specs.push(src.clone());
                assert(specs.deep_view() =~= before + seq![src@]);
            },
            ModuleStatement::Other => {},
        }
        i = i + 1;
    }
    assert(stmts@.take(n as int) =~= stmts@);
    specs
}

/// The import specifiers of the module at `path` whose text is `source`:
/// the sources of its imports and re-exports, in order. The source type
/// comes from the path's extension (ESM JavaScript when unknown); parse
/// errors are ignored, keeping whatever statements were recovered.
pub fn extract_imports(path: &str, source: &str) -> (specs: Vec<String>)
    ensures
        specs.deep_view() == oxc_parse(source@, oxc_source_type_for_path(path@)).1.filter_map(
            |o: Option<Seq<char>>| o,
        ),
{
    let allocator = new_allocator();
    let source_type = source_type_for(path);
    let parsed = parse_program(&allocator, source, source_type);
    let (_program, _diagnostics, stmts) = parsed;
    let specs = import_specifiers(&stmts);
    proof {
        lemma_specifiers_of_sources(stmts@);
    }
    specs
}

/// The specifiers of statements are the present sources among them.
pub proof fn lemma_specifiers_of_sources(stmts: Seq<ModuleStatement>)
    ensures
        specifiers_of(stmts) == stmts.map_values(|s: ModuleStatement| specifier_of(s)).filter_map(|o: Option<Seq<char>>| o),
    decreases stmts.len(),
{
    let srcs = stmts.map_values(|s: ModuleStatement| specifier_of(s));
    if stmts.len() > 0 {
        lemma_specifiers_of_sources(stmts.drop_last());
        assert(srcs.drop_last() =~= stmts.drop_last().map_values(|s: ModuleStatement| specifier_of(s)));
    }
}


#[verifier::external_type_specification]
#[verifier::external_body]
#[verifier::reject_recursive_types(Fs)]
pub struct ExResolverGeneric<Fs>(ResolverGeneric<Fs>);

#[verifier::external_type_specification]
#[verifier::external_body]
pub struct ExFileSystemOs(FileSystemOs);

/// The extensions tried, in order, when an import leaves its extension out.
pub open spec fn ts_extension_texts() -> Seq<Seq<char>> {
    seq![
        seq!['.', 't', 's'],
        seq!['.', 'm', 't', 's'],
        seq!['.', 'c', 't', 's'],
        seq!['.', 'j', 's'],
        seq!['.', 'm', 'j', 's'],
        seq!['.', 'c', 'j', 's'],
    ]
}

/// The extensions tried, in order, when an import leaves its extension out:
/// `.ts`, `.mts`, `.cts`, `.js`, `.mjs`, `.cjs`.
pub fn ts_extensions() -> (exts: Vec<String>)
    ensures
        exts.deep_view() == ts_extension_texts(),
{
    let mut exts = Vec::new();
    exts.push(string_from_chars(&['.', 't', 's']));
    exts.push(string_from_chars(&['.', 'm', 't', 's']));
    exts.push(string_from_chars(&['.', 'c', 't', 's']));
    exts.push(string_from_chars(&['.', 'j', 's']));
    exts.push(string_from_chars(&['.', 'm', 'j', 's']));
    exts.push(string_from_chars(&['.', 'c', 'j', 's']));
    assert(exts.deep_view() =~= ts_extension_texts());
    exts
}

/// The extensions a resolver tries, in order, when an import leaves its
/// extension out: the `extensions` of the options it was made with, as
/// `options()` gives them back.
pub uninterp spec fn resolver_extensions(r: ResolverGeneric<FileSystemOs>) -> Seq<Seq<char>>;

/// Calls `Resolver::new` with the default resolve options but for the
/// extensions, which are `extensions`. `new` keeps the extensions as given
/// (it only derives `enforce_extension` from them), so the resolver tries
/// exactly these; the rest of the resolver is opaque here. `new` asserts
/// (in debug builds) that every non-empty extension starts with a dot, so
/// only such extensions are admitted.
#[verifier::external_body]
fn new_resolver(extensions: Vec<String>) -> (r: ResolverGeneric<FileSystemOs>)
    requires
        forall|i: int| 0 <= i < extensions@.len() && extensions@[i]@.len() > 0 ==> extensions@[i]@[0] == '.',
    ensures
        resolver_extensions(r) == extensions.deep_view(),
{
    ResolverGeneric::<FileSystemOs>::new(oxc_resolver::ResolveOptions {
        extensions,
        ..oxc_resolver::ResolveOptions::default()
    })
}

/// The resolver used for the import graph: Node-style resolution that
/// tries the TypeScript and JavaScript extensions in order.
pub fn graph_resolver() -> (r: ResolverGeneric<FileSystemOs>)
    ensures
        resolver_extensions(r) == ts_extension_texts(),
{
    let exts = ts_extensions();
    assert forall|i: int| 0 <= i < exts@.len() && exts@[i]@.len() > 0 implies exts@[i]@[0] == '.' by {
        assert(exts.deep_view()[i] == exts@[i]@);
        let t = ts_extension_texts();
        assert(t[0][0] == '.' && t[1][0] == '.' && t[2][0] == '.' && t[3][0] == '.' && t[4][0] == '.' && t[5][0] == '.');
        assert(t.len() == 6);
        assert(exts.deep_view().len() == exts@.len());
        assert(i == 0 || i == 1 || i == 2 || i == 3 || i == 4 || i == 5);
    }
    new_resolver(exts)
}

/// That `answer` is an answer the resolver `r` may give for `specifier`
/// from the directory `dir`: the path it resolves to, or `None` where it
/// does not resolve. The answer depends on what is on disk, so this is a
/// relation, not a function: two calls on the same pair may answer
/// differently.
pub uninterp spec fn resolver_answered(r: ResolverGeneric<FileSystemOs>, dir: Seq<char>, specifier: Seq<char>, answer: Option<Seq<char>>) -> bool;

/// Calls `Resolver::resolve` for `specifier` from the directory `dir` and
/// hands back the resolved path as text, or `None` where it does not
/// resolve (an outside package, a missing file, ...). Claimed: the answer
/// is the resolver's answer for exactly this directory and specifier
/// (`resolver_answered`); which answer that is depends on the disk and is
/// not stated.
#[verifier::external_body]
fn resolve(resolver: &ResolverGeneric<FileSystemOs>, dir: &str, specifier: &str) -> (r: Option<String>)
    ensures
        r matches Some(p) ==> resolver_answered(*resolver, dir@, specifier@, Some(p@)),
        r is None ==> resolver_answered(*resolver, dir@, specifier@, None),
{
    match resolver.resolve(std::path::Path::new(dir), specifier) {
        Ok(resolution) => Some(resolution.into_path_buf().to_string_lossy().into_owned()),
        Err(_) => None,
    }
}

/// The paths that resolved, in order: the values of the `Some` outcomes.
pub open spec fn resolved_of(outcomes: Seq<Option<Seq<char>>>) -> Seq<Seq<char>> {
    outcomes.filter_map(|o: Option<Seq<char>>| o)
}

/// That `outcomes` are, one for one, the resolver's answers for
/// `specifiers` from `dir`.
pub open spec fn answers_for(r: ResolverGeneric<FileSystemOs>, dir: Seq<char>, specifiers: Seq<Seq<char>>, outcomes: Seq<Option<Seq<char>>>) -> bool {
    &&& outcomes.len() == specifiers.len()
    &&& forall|j: int| 0 <= j < outcomes.len() ==> resolver_answered(r, dir, specifiers[j], #[trigger] outcomes[j])
}

/// Resolve each specifier from `dir`, keeping those that resolve, in order.
/// Those that do not (outside packages, unresolvable) are skipped.
pub fn resolve_imports(resolver: &ResolverGeneric<FileSystemOs>, dir: &str, specifiers: &Vec<String>) -> (paths: Vec<String>)
    ensures
        exists|outcomes: Seq<Option<Seq<char>>>| #[trigger] answers_for(*resolver, dir@, specifiers.deep_view(), outcomes)
            && paths.deep_view() == resolved_of(outcomes),
{
    let mut paths: Vec<String> = Vec::new();
    let ghost mut outcomes: Seq<Option<Seq<char>>> = Seq::empty();
    let n = specifiers.len();
    let mut i: usize = 0;
    while i < n
        invariant
            n == specifiers@.len(),
            i <= n,
            outcomes.len() == i,
            paths.deep_view() == resolved_of(outcomes),
            forall|j: int| 0 <= j < i ==> resolver_answered(*resolver, dir@, specifiers@[j]@, #[trigger] outcomes[j]),
        decreases n - i,
    {
        let r = resolve(resolver, dir, specifiers[i].as_str());
        let ghost before = paths.deep_view();
        let ghost o = match &r {
            Some(p) => Some(p@),
            None => None::<Seq<char>>,
        };
        proof {
            outcomes.push(o).lemma_filter_map_take_succ(|o: Option<Seq<char>>| o, i as int);
            assert(outcomes.push(o).take(i as int) =~= outcomes);
            assert(outcomes.push(o).take(i + 1) =~= outcomes.push(o));
        }
        match r {
            Some(p) => {
                paths.push(p);
                assert(paths.deep_view() =~= before + seq![o->0]);
            },
            None => {},
        }
        proof {
            outcomes = outcomes.push(o);
        }
        i = i + 1;
    }
    assert forall|j: int| 0 <= j < outcomes.len() implies resolver_answered(*resolver, dir@, specifiers.deep_view()[j], #[trigger] outcomes[j]) by {
        assert(specifiers.deep_view()[j] == specifiers@[j]@);
    }
    assert(answers_for(*resolver, dir@, specifiers.deep_view(), outcomes));
    paths
}

/// What `std::path::Path::parent` gives for a path: the path without its
/// final component, `None` for a root, a prefix or the empty path.
pub uninterp spec fn std_path_parent(path: Seq<char>) -> Option<Seq<char>>;

/// Calls `Path::parent` on `path` and hands back the parent as text.
#[verifier::external_body]
fn path_parent(path: &str) -> (parent: Option<String>)
    ensures
        match parent {
            Some(p) => std_path_parent(path@) == Some(p@),
            None => std_path_parent(path@) is None,
        },
{
    match std::path::Path::new(path).parent() {
        Some(p) => Some(p.to_string_lossy().into_owned()),
        None => None,
    }
}

/// The directory imports of `path` resolve from: its parent, or `.` where
/// it has none.
pub fn import_base_dir(path: &str) -> (dir: String)
    ensures
        dir@ == match std_path_parent(path@) {
            Some(p) => p,
            None => seq!['.'],
        },
{
    match path_parent(path) {
        Some(p) => p,
        None => string_from_chars(&['.']),
    }
}


/// `path` with every backslash turned into a forward slash.
pub open spec fn forward_slashes(path: Seq<char>) -> Seq<char> {
    path.map_values(|c: char| if c == '\\' { '/' } else { c })
}

/// `path` with every backslash turned into a forward slash, so that the
/// manifest is the same on every platform.
pub fn normalize_separators(path: &str) -> (out: String)
    ensures
        out@ == forward_slashes(path@),
{
    let mut out = String::new();
    for c in it: path.chars()
        invariant
            out@ == forward_slashes(it.seq().take(it.index() as int)),
    {
        let d = if c == '\\' { '/' } else { c };
        out.push(d);
        assert(it.seq().take(it.index() + 1) =~= it.seq().take(it.index() as int).push(c));
    }
    out
}


/// The (path, key digest) pairs of the transpiled files, as plain values.
pub open spec fn pair_views(pairs: Seq<(String, CacheKey)>) -> Seq<(Seq<char>, Seq<u8>)> {
    pairs.map_values(|p: (String, CacheKey)| (p.0@, p.1@))
}

/// The manifest of the pairs: each path, with forward slashes, maps to its
/// key's hex; where two pairs give the same path the later one wins.
pub open spec fn manifest_of(pairs: Seq<(Seq<char>, Seq<u8>)>) -> Map<Seq<char>, Seq<char>>
    decreases pairs.len(),
{
    if pairs.len() == 0 {
        Map::empty()
    } else {
        manifest_of(pairs.drop_last()).insert(forward_slashes(pairs.last().0), hex_lower(pairs.last().1))
    }
}

/// The paths of manifest entries.
pub open spec fn entry_paths(entries: Seq<(String, String)>) -> Seq<Seq<char>> {
    entries.map_values(|e: (String, String)| e.0@)
}

/// `entries` lists the map `m`: one entry per path of `m`, with its value.
pub open spec fn lists(entries: Seq<(String, String)>, m: Map<Seq<char>, Seq<char>>) -> bool {
    &&& entry_paths(entries).no_duplicates()
    &&& forall|i: int| 0 <= i < entries.len() ==> m.contains_key(#[trigger] entries[i].0@)
        && m[entries[i].0@] == entries[i].1@
    &&& forall|k: Seq<char>| #[trigger] m.contains_key(k) ==> entry_paths(entries).contains(k)
}

/// Where `entries` holds an entry for `path`.
fn find_entry(entries: &Vec<(String, String)>, path: &String) -> (r: Option<usize>)
    ensures
        match r {
            Some(j) => j < entries@.len() && entries@[j as int].0@ == path@,
            None => !entry_paths(entries@).contains(path@),
        },
{
    let n = entries.len();
    let mut j: usize = 0;
    while j < n
        invariant
            n == entries@.len(),
            j <= n,
            forall|k: int| 0 <= k < j ==> entries@[k].0@ != path@,
        decreases n - j,
    {
        if entries[j].0.eq(path) {
            return Some(j);
        }
        j = j + 1;
    }
    assert forall|k: int| 0 <= k < entry_paths(entries@).len() implies entry_paths(entries@)[k] != path@ by {
        assert(entry_paths(entries@)[k] == entries@[k].0@);
    }
    None
}

/// The manifest entries for the transpiled files: each path with forward
/// slashes, paired with its key's hex, one entry per path (the later pair
/// wins where two give the same path).
pub fn manifest_entries(pairs: &Vec<(String, CacheKey)>) -> (entries: Vec<(String, String)>)
    ensures
        lists(entries@, manifest_of(pair_views(pairs@))),
{
    let ghost pv = pair_views(pairs@);
    let mut entries: Vec<(String, String)> = Vec::new();
    let n = pairs.len();
    let mut i: usize = 0;
    while i < n
        invariant
            n == pairs@.len(),
            pv == pair_views(pairs@),
            pv.len() == n,
            i <= n,
            lists(entries@, manifest_of(pv.take(i as int))),
        decreases n - i,
    {
        let ghost m0 = manifest_of(pv.take(i as int));
        let path = normalize_separators(pairs[i].0.as_str());
        let hex = pairs[i].1.to_hex();
        proof {
            assert(pv.take(i + 1).drop_last() =~= pv.take(i as int));
            assert(pv.take(i + 1).last() == pv[i as int]);
            assert(pv[i as int] == (pairs@[i as int].0@, pairs@[i as int].1@));
        }
        let ghost m1 = manifest_of(pv.take(i + 1));
        assert(m1 == m0.insert(path@, hex@));
        let ghost e0 = entries@;
        match find_entry(&entries, &path) {
            Some(j) => {
                entries.set(j, (path, hex));
                proof {
                    assert(entry_paths(entries@) =~= entry_paths(e0));
                    assert forall|k: int| 0 <= k < entries@.len() implies m1.contains_key(#[trigger] entries@[k].0@)
                        && m1[entries@[k].0@] == entries@[k].1@ by {
                        if k != j {
                            assert(entry_paths(e0)[k] == e0[k].0@);
                            assert(entry_paths(e0)[j as int] == e0[j as int].0@);
                        }
                    }
                    assert forall|key: Seq<char>| #[trigger] m1.contains_key(key) implies entry_paths(entries@).contains(key) by {
                        if key == entries@[j as int].0@ {
                            assert(entry_paths(entries@)[j as int] == key);
                        }
                    }
                }
            },
            None => {
                let ghost p = path@;
                let ghost h = hex@;
                entries.push((path, hex));
                proof {
                    assert(entry_paths(entries@) =~= entry_paths(e0).push(p));
                    assert forall|k: int| 0 <= k < entries@.len() implies m1.contains_key(#[trigger] entries@[k].0@)
                        && m1[entries@[k].0@] == entries@[k].1@ by {
                        if k < e0.len() {
                            assert(entry_paths(e0)[k] == e0[k].0@);
                            assert(e0[k].0@ != p);
                        }
                    }
                    assert forall|key: Seq<char>| #[trigger] m1.contains_key(key) implies entry_paths(entries@).contains(key) by {
                        if key == p {
                            assert(entry_paths(entries@)[e0.len() as int] == key);
                        } else {
                            assert(entry_paths(e0).contains(key));
                            let k = choose|k: int| 0 <= k < e0.len() && entry_paths(e0)[k] == key;
                            assert(entry_paths(entries@)[k] == key);
                        }
                    }
                }
            },
        }
        i = i + 1;
    }
    assert(pv.take(n as int) =~= pv);
    entries
}


/// Every path in a manifest uses forward slashes.
pub proof fn lemma_manifest_of_forward_slashes(pairs: Seq<(Seq<char>, Seq<u8>)>, k: Seq<char>)
    requires
        manifest_of(pairs).contains_key(k),
    ensures
        !k.contains('\\'),
    decreases pairs.len(),
{
    if pairs.len() > 0 {
        let last = forward_slashes(pairs.last().0);
        if k == last {
            if k.contains('\\') {
                let i = choose|i: int| 0 <= i < k.len() && k[i] == '\\';
                assert(last[i] == (if pairs.last().0[i] == '\\' { '/' } else { pairs.last().0[i] }));
            }
        } else {
            lemma_manifest_of_forward_slashes(pairs.drop_last(), k);
        }
    }
}

/// The manifest's paths use forward slashes only, whatever the platform's
/// separator.
pub proof fn lemma_manifest_paths_use_forward_slashes(entries: Seq<(String, String)>, pairs: Seq<(String, CacheKey)>)
    requires
        lists(entries, manifest_of(pair_views(pairs))),
    ensures
        forall|i: int| 0 <= i < entries.len() ==> !(#[trigger] entries[i].0@).contains('\\'),
{
    assert forall|i: int| 0 <= i < entries.len() implies !(#[trigger] entries[i].0@).contains('\\') by {
        lemma_manifest_of_forward_slashes(pair_views(pairs), entries[i].0@);
    }
}

/// The entries as plain (path, hex) values.
pub open spec fn entry_views(entries: Seq<(String, String)>) -> Seq<(Seq<char>, Seq<char>)> {
    entries.map_values(|e: (String, String)| (e.0@, e.1@))
}

/// What `serde_json::to_string` gives for the entries gathered into a
/// `BTreeMap<&str, &str>`: a JSON object with one member per path, sorted
/// by path.
pub uninterp spec fn serde_json_object_text(entries: Seq<(Seq<char>, Seq<char>)>) -> Seq<char>;

/// Calls `serde_json::to_string` on the entries gathered into a
/// `BTreeMap<&str, &str>` (serde needs a map to print a JSON object): one
/// member per entry, in path order. The paths are distinct, so gathering
/// them drops nothing. The text is a function of the entries, named
/// `serde_json_object_text`; the call does not fail for string keys and
/// values, so the result is `Ok`.
#[verifier::external_body]
fn json_object(entries: &Vec<(String, String)>) -> (r: Result<String, serde_json::Error>)
    requires
        entry_paths(entries@).no_duplicates(),
    ensures
        r is Ok,
        r matches Ok(text) ==> text@ == serde_json_object_text(entry_views(entries@)),
{
    let map: std::collections::BTreeMap<&str, &str> = entries.iter().map(|(k, v)| (k.as_str(), v.as_str())).collect();
    serde_json::to_string(&map)
}

/// The name of the manifest file inside the cache directory.
pub open spec fn manifest_file_name_text() -> Seq<char> {
    seq!['m', 'a', 'n', 'i', 'f', 'e', 's', 't', '.', 'j', 's', 'o', 'n']
}

/// The name of the manifest file inside the cache directory.
pub fn manifest_file_name() -> (name: String)
    ensures
        name@ == manifest_file_name_text(),
{
    let name = string_from_chars(&['m', 'a', 'n', 'i', 'f', 'e', 's', 't', '.', 'j', 's', 'o', 'n']);
    assert(name@ =~= manifest_file_name_text());
    name
}

/// The manifest text for the transpiled files: a JSON object mapping each
/// path (with forward slashes) to its key's hex, the JSON text of entries
/// that list the manifest.
pub fn manifest_json(pairs: &Vec<(String, CacheKey)>) -> (r: Result<String, SpxError>)
    ensures
        r matches Ok(text) && exists|entries: Seq<(String, String)>|
            #[trigger] lists(entries, manifest_of(pair_views(pairs@)))
            && text@ == serde_json_object_text(entry_views(entries)),
{
    let entries = manifest_entries(pairs);
    assert(lists(entries@, manifest_of(pair_views(pairs@))));
    match json_object(&entries) {
        Ok(text) => Ok(text),
        Err(e) => Err(SpxError::Json(e)),
    }
}

/// Transpile the file at `path`, whose text is `source`, for the cache:
/// no source map.
pub fn transpile_file(path: &str, source: &str) -> (r: Result<TranspileOutput, SpxError>)
    ensures
        match r {
            Ok(out) => output_outcome(out) == transpile_outcome(source@, path@, false),
            Err(SpxError::Transpile(e)) => error_outcome(e) == transpile_outcome(source@, path@, false),
            Err(_) => false,
        },
{
    let opts = TranspileOptions { filename: path.to_owned(), source_maps: false };
    match transpile(source, &opts) {
        Ok(out) => Ok(out),
        Err(e) => Err(SpxError::Transpile(e)),
    }
}

/// What `build` leaves behind: the warmed cache.
pub struct GraphOutput {
    pub cache: Cache,
}


/// Every import and re-export statement contributes its source string,
/// whatever its text, and no other statement contributes anything: no
/// statements give no specifiers, and appending a statement appends its
/// source (or nothing, for any other statement).
pub proof fn law_specifiers_keep_every_source(stmts: Seq<ModuleStatement>, src: String)
    ensures
        specifiers_of(Seq::empty()) == Seq::<Seq<char>>::empty(),
        specifiers_of(stmts.push(ModuleStatement::Import(src))) == specifiers_of(stmts).push(src@),
        specifiers_of(stmts.push(ModuleStatement::ExportFrom(src))) == specifiers_of(stmts).push(src@),
        specifiers_of(stmts.push(ModuleStatement::ExportAll(src))) == specifiers_of(stmts).push(src@),
        specifiers_of(stmts.push(ModuleStatement::Other)) == specifiers_of(stmts),
{
    assert(stmts.push(ModuleStatement::Import(src)).drop_last() =~= stmts);
    assert(stmts.push(ModuleStatement::ExportFrom(src)).drop_last() =~= stmts);
    assert(stmts.push(ModuleStatement::ExportAll(src)).drop_last() =~= stmts);
    assert(stmts.push(ModuleStatement::Other).drop_last() =~= stmts);
    assert(specifiers_of(stmts) + seq![src@] =~= specifiers_of(stmts).push(src@));
}

/// Every answer that resolves contributes its path, in order: no answers
/// give no paths, a resolved answer appends its path, and an unresolved one
/// appends nothing.
pub proof fn law_resolved_keeps_every_answer(outcomes: Seq<Option<Seq<char>>>, path: Seq<char>)
    ensures
        resolved_of(Seq::empty()) == Seq::<Seq<char>>::empty(),
        resolved_of(outcomes.push(Some(path))) == resolved_of(outcomes).push(path),
        resolved_of(outcomes.push(None)) == resolved_of(outcomes),
{
    assert(outcomes.push(Some(path)).drop_last() =~= outcomes);
    assert(outcomes.push(None).drop_last() =~= outcomes);
    assert(resolved_of(outcomes) + seq![path] =~= resolved_of(outcomes).push(path));
}

/// Normalising separators changes backslashes only: the text keeps its
/// length, each backslash becomes a forward slash, and every other
/// character stays as it was.
pub proof fn law_forward_slashes_changes_backslashes_only(path: Seq<char>)
    ensures
        forward_slashes(path).len() == path.len(),
        forall|i: int| 0 <= i < path.len() && path[i] == '\\' ==> forward_slashes(path)[i] == '/',
        forall|i: int| 0 <= i < path.len() && path[i] != '\\' ==> forward_slashes(path)[i] == path[i],
{
}

} // verus!
