use vstd::prelude::*;
use oxc::allocator::Allocator;
use oxc::span::SourceType;
use oxc::parser::Parser;
use oxc::semantic::SemanticBuilder;
use oxc::transformer::{TransformOptions, Transformer};
use oxc::codegen::{Codegen, CodegenOptions};
use std::path::{Path, PathBuf};
use crate::options::{TranspileOptions, oxc_source_type_for_path};
use crate::parse::{new_allocator, parse_program, oxc_parse};

verus! {

/// What oxc's transform-and-print pipeline gives for a source text of a
/// source type at a path: the parser's program, analysed by the semantic
/// builder, transformed with the default transform options (which strip
/// TypeScript) and printed. The result is the text of each transformer
/// diagnostic in order, the printed code, and the source map (as JSON) that
/// printing builds when given the path as the source map path.
pub uninterp spec fn oxc_transform(source: Seq<char>, source_type: SourceType, path: Seq<char>) -> (Seq<Seq<char>>, Seq<char>, Seq<char>);

/// Parses `source` as `source_type` (`Parser::parse`), runs the semantic
/// analysis (`SemanticBuilder::build`), transforms the program with the
/// default options for `path` (`Transformer::build_with_scoping`) and
/// prints it (`Codegen::build`), with `source_map_path` as the source map
/// path. The diagnostics and the code are a function of the source, the
/// source type and the path, named `oxc_transform`: printing only reads
/// the code it writes when it records source map mappings, so the code
/// does not depend on the source map path. oxc builds a source map exactly
/// when a source map path is set; with the path itself it is the named one.
#[verifier::external_body]
fn transform_source(source: &str, source_type: SourceType, path: &str, source_map_path: Option<&str>) -> (out: (Vec<String>, String, Option<String>))
    ensures
        out.0.deep_view() == oxc_transform(source@, source_type, path@).0,
        out.1@ == oxc_transform(source@, source_type, path@).1,
        out.2 is Some <==> source_map_path is Some,
        out.2 matches Some(m) ==> (source_map_path matches Some(p) && p@ == path@
            ==> m@ == oxc_transform(source@, source_type, path@).2),
{
    let allocator = Allocator::default();
    let mut program = Parser::new(&allocator, source, source_type).parse().program;
    let scoping = SemanticBuilder::new().build(&program).semantic.into_scoping();
    let ret = Transformer::new(&allocator, Path::new(path), &TransformOptions::default())
        .build_with_scoping(scoping, &mut program);
    let options = CodegenOptions { source_map_path: source_map_path.map(PathBuf::from), ..CodegenOptions::default() };
    let printed = Codegen::new().with_options(options).build(&program);
    let messages = ret.diagnostics.iter().map(|d| d.to_string()).collect();
    (messages, printed.code, printed.map.map(|m| m.to_json_string()))
}

/// `parts` joined with `sep` between each two.
pub open spec fn join(parts: Seq<Seq<char>>, sep: Seq<char>) -> Seq<char>
    decreases parts.len(),
{
    if parts.len() == 0 {
        seq![]
    } else if parts.len() == 1 {
        parts[0]
    } else {
        join(parts.drop_last(), sep) + sep + parts.last()
    }
}

/// The separator between diagnostics in an error message: `; `.
pub open spec fn message_separator() -> Seq<char> {
    seq![';', ' ']
}

/// The diagnostics' texts joined with `; `.
pub fn fmt_errors(messages: &Vec<String>) -> (joined: String)
    ensures
        joined@ == join(messages.deep_view(), message_separator()),
{
    let ghost parts = messages.deep_view();
    let mut joined = String::new();
    let n = messages.len();
    let mut i: usize = 0;
    while i < n
        invariant
            n == messages.len(),
            parts == messages.deep_view(),
            parts.len() == n,
            i <= n,
            joined@ == join(parts.take(i as int), message_separator()),
        decreases n - i,
    {
        if i > 0 {
            joined.push(';');
            joined.push(' ');
        }
        joined.append(messages[i].as_str());
        proof {
            assert(parts.take(i + 1).drop_last() =~= parts.take(i as int));
            assert(parts[i as int] == messages[i as int]@);
            assert(parts.take(0) =~= Seq::<Seq<char>>::empty());
        }
        i = i + 1;
    }
    assert(parts.take(n as int) =~= parts);
    joined
}

/// Why a transpilation failed.
#[derive(Debug, Clone, PartialEq, Eq)]
pub enum TranspileError {
    /// The parser reported diagnostics.
    Parse { file: String, message: String },
    /// The transformer reported diagnostics.
    Transform { file: String, message: String },
}

/// The pipeline stage whose diagnostics are being checked.
pub enum Stage {
    Parse,
    Transform,
}

/// The outcome of a stage that reported `messages` for `file`: success when
/// there are none, else the stage's error with the file and the messages
/// joined with `; `.
pub fn check_stage(stage: Stage, file: &str, messages: &Vec<String>) -> (r: Result<(), TranspileError>)
    ensures
        messages.len() == 0 <==> r is Ok,
        r matches Err(e) ==> match (stage, e) {
            (Stage::Parse, TranspileError::Parse { file: f, message }) => f@ == file@
                && message@ == join(messages.deep_view(), message_separator()),
            (Stage::Transform, TranspileError::Transform { file: f, message }) => f@ == file@
                && message@ == join(messages.deep_view(), message_separator()),
            _ => false,
        },
{
    if messages.len() == 0 {
        Ok(())
    } else {
        let message = fmt_errors(messages);
        match stage {
            Stage::Parse => Err(TranspileError::Parse { file: file.to_owned(), message }),
            Stage::Transform => Err(TranspileError::Transform { file: file.to_owned(), message }),
        }
    }
}

/// Output produced by `transpile`.
pub struct TranspileOutput {
    pub code: String,
    /// Serialised source map JSON, present only when `opts.source_maps` is `true`.
    pub map: Option<String>,
}

/// What a transpilation comes to, as plain values.
pub enum TranspileOutcome {
    /// The printed code, and the source map where one was asked for.
    Printed { code: Seq<char>, map: Option<Seq<char>> },
    /// The parser reported diagnostics.
    ParseFailed { file: Seq<char>, message: Seq<char> },
    /// The transformer reported diagnostics.
    TransformFailed { file: Seq<char>, message: Seq<char> },
}

/// What transpiling `source` as the file `filename` comes to: the
/// parser's diagnostics for the file's source type, joined with `; `,
/// where there are any; else the transformer's, where there are any; else
/// the printed code, with the source map when `source_maps` is set.
pub open spec fn transpile_outcome(source: Seq<char>, filename: Seq<char>, source_maps: bool) -> TranspileOutcome {
    let st = oxc_source_type_for_path(filename);
    let parse_messages = oxc_parse(source, st).0;
    let t = oxc_transform(source, st, filename);
    if parse_messages.len() > 0 {
        TranspileOutcome::ParseFailed { file: filename, message: join(parse_messages, message_separator()) }
    } else if t.0.len() > 0 {
        TranspileOutcome::TransformFailed { file: filename, message: join(t.0, message_separator()) }
    } else {
        TranspileOutcome::Printed { code: t.1, map: if source_maps { Some(t.2) } else { None } }
    }
}

/// The outcome an error stands for.
pub open spec fn error_outcome(e: TranspileError) -> TranspileOutcome {
    match e {
        TranspileError::Parse { file, message } => TranspileOutcome::ParseFailed { file: file@, message: message@ },
        TranspileError::Transform { file, message } => TranspileOutcome::TransformFailed { file: file@, message: message@ },
    }
}

/// The outcome an output stands for.
pub open spec fn output_outcome(out: TranspileOutput) -> TranspileOutcome {
    TranspileOutcome::Printed {
        code: out.code@,
        map: match out.map {
            Some(m) => Some(m@),
            None => None,
        },
    }
}

/// The outcome a transpile result stands for.
pub open spec fn outcome_of(r: Result<TranspileOutput, TranspileError>) -> TranspileOutcome {
    match r {
        Ok(out) => output_outcome(out),
        Err(e) => error_outcome(e),
    }
}

/// Transpile `source` according to `opts`: parse, analyse, strip
/// TypeScript types, print. Parser diagnostics fail with `Parse`,
/// transformer diagnostics with `Transform`, each naming the file and
/// joining the diagnostics with `; `; otherwise the printed code, with a
/// source map exactly when `opts.source_maps` is set.
pub fn transpile(source: &str, opts: &TranspileOptions) -> (r: Result<TranspileOutput, TranspileError>)
    ensures
        outcome_of(r) == transpile_outcome(source@, opts.filename@, opts.source_maps),
{
    let allocator = new_allocator();
    let source_type = opts.source_type();

    let parsed = parse_program(&allocator, source, source_type);
    let (_program, parse_messages, _statements) = parsed;
    match check_stage(Stage::Parse, opts.filename.as_str(), &parse_messages) {
        Ok(()) => {},
        Err(e) => {
            return Err(e);
        },
    }

    let map_path = if opts.source_maps {
        Some(opts.filename.as_str())
    } else {
        None
    };
    let transformed = transform_source(source, source_type, opts.filename.as_str(), map_path);
    let (transform_messages, code, map) = transformed;
    match check_stage(Stage::Transform, opts.filename.as_str(), &transform_messages) {
        Ok(()) => {},
        Err(e) => {
            return Err(e);
        },
    }
    Ok(TranspileOutput { code, map })
}

/// Turning source maps on or off changes nothing but the source map: the
/// same source and file give the same errors, or the same code.
pub proof fn lemma_source_maps_change_only_the_map(source: Seq<char>, filename: Seq<char>)
    ensures
        match (transpile_outcome(source, filename, true), transpile_outcome(source, filename, false)) {
            (TranspileOutcome::Printed { code: c1, map: m1 }, TranspileOutcome::Printed { code: c2, map: m2 }) =>
                c1 == c2 && m1 is Some && m2 is None,
            (o1, o2) => o1 == o2,
        },
{
}


/// The file name decides how the source is read: transpiling as the file
/// `filename` runs oxc's parser and transformer with the source type that
/// `filename`'s extension gives. It fails with a parse error naming the
/// file, whose message is the parser's diagnostics joined with `; `, exactly
/// when the parser reports any; else with a transform error, likewise, exactly
/// when the transformer reports any; else it gives the printed code, with the
/// printed source map exactly when `source_maps` is set.
pub proof fn law_transpile_reads_the_file_name(source: Seq<char>, filename: Seq<char>, source_maps: bool)
    ensures
        ({
            let parsed = oxc_parse(source, oxc_source_type_for_path(filename));
            let printed = oxc_transform(source, oxc_source_type_for_path(filename), filename);
            let outcome = transpile_outcome(source, filename, source_maps);
            &&& parsed.0.len() > 0 ==> outcome == TranspileOutcome::ParseFailed {
                file: filename,
                message: join(parsed.0, seq![';', ' ']),
            }
            &&& parsed.0.len() == 0 && printed.0.len() > 0 ==> outcome == TranspileOutcome::TransformFailed {
                file: filename,
                message: join(printed.0, seq![';', ' ']),
            }
            &&& parsed.0.len() == 0 && printed.0.len() == 0 ==> outcome == TranspileOutcome::Printed {
                code: printed.1,
                map: if source_maps { Some(printed.2) } else { None },
            }
        }),
{
}

/// Joining: nothing gives the empty text, one part gives that part, and
/// one more part adds the separator and the part.
pub proof fn law_join_puts_the_separator_between_parts(parts: Seq<Seq<char>>, part: Seq<char>, sep: Seq<char>)
    ensures
        join(Seq::empty(), sep) == Seq::<char>::empty(),
        join(seq![part], sep) == part,
        parts.len() > 0 ==> join(parts.push(part), sep) == join(parts, sep) + sep + part,
{
    assert(parts.push(part).drop_last() =~= parts);
}

} // verus!
