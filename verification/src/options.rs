use vstd::prelude::*;
use oxc::span::SourceType;

verus! {

#[verifier::external_type_specification]
#[verifier::external_body]
pub struct ExSourceType(SourceType);

/// The source type oxc gives a file at `path`: what `SourceType::from_path`
/// reads off its extension (`.js`, `.mjs`, `.cjs`, `.jsx`, `.ts`, `.mts`,
/// `.cts`, `.tsx`, `.d.ts`), or, where the extension is unknown or
/// missing, oxc's default source type, ESM JavaScript (`SourceType::mjs`).
pub uninterp spec fn oxc_source_type_for_path(path: Seq<char>) -> SourceType;

/// Calls `SourceType::from_path` on `path` and, where it reports an
/// unknown extension, takes `SourceType::default()` (which is
/// `SourceType::mjs()`, ESM JavaScript) in place of the error. The result
/// is a function of the path alone, named `oxc_source_type_for_path`.
#[verifier::external_body]
fn source_type_from_path(path: &str) -> (st: SourceType)
    ensures
        st == oxc_source_type_for_path(path@),
{
    SourceType::from_path(std::path::Path::new(path)).unwrap_or_default()
}

/// The source type of the file at `path`, inferred from its extension;
/// ESM JavaScript for unknown extensions.
pub fn source_type_for(path: &str) -> (st: SourceType)
    ensures
        st == oxc_source_type_for_path(path@),
{
    source_type_from_path(path)
}

/// The file name that options take when none is given.
pub open spec fn unknown_file_name() -> Seq<char> {
    seq!['<', 'u', 'n', 'k', 'n', 'o', 'w', 'n', '>']
}

/// Options for one transpilation.
#[derive(Debug, Clone)]
pub struct TranspileOptions {
    /// Source file path: used to infer the source type and in error messages / source maps.
    pub filename: String,
    /// Emit a source map alongside the generated code.
    pub source_maps: bool,
}

impl Default for TranspileOptions {
    /// File name `<unknown>`, no source map.
    fn default() -> (opts: Self)
        ensures
            opts.filename@ == unknown_file_name(),
            !opts.source_maps,
    {
        let filename = String::from_str("<unknown>");
        proof {
            reveal_strlit("<unknown>");
        }
        assert(filename@ =~= unknown_file_name());
        TranspileOptions { filename, source_maps: false }
    }
}

impl TranspileOptions {
    /// The default options, for `filename`.
    pub fn new(filename: &str) -> (opts: Self)
        ensures
            opts.filename@ == filename@,
            !opts.source_maps,
    {
        TranspileOptions { filename: filename.to_owned(), ..Self::default() }
    }

    /// Infer the source type from the file name's extension; ESM JavaScript
    /// for unknown extensions.
    pub fn source_type(&self) -> (st: SourceType)
        ensures
            st == oxc_source_type_for_path(self.filename@),
    {
        source_type_for(self.filename.as_str())
    }
}

} // verus!
