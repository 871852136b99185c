use vstd::prelude::*;
use oxc::allocator::Allocator;
use oxc::ast::ast::{Program, Statement};
use oxc::span::SourceType;

verus! {

#[verifier::external_type_specification]
#[verifier::external_body]
pub struct ExAllocator(Allocator);

#[verifier::external_type_specification]
#[verifier::external_body]
pub struct ExProgram<'a>(Program<'a>);

/// The module-level statements that matter to the import graph, as plain
/// values: the source string of each import and re-export, and `Other` for
/// every other statement.
#[derive(Debug, Clone, PartialEq, Eq)]
pub enum ModuleStatement {
    /// `import .. from 'source'`
    Import(String),
    /// `export { .. } from 'source'`
    ExportFrom(String),
    /// `export * from 'source'`
    ExportAll(String),
    /// Any other statement.
    Other,
}

/// The specifier a statement imports from, if any.
pub open spec fn specifier_of(s: ModuleStatement) -> Option<Seq<char>> {
    match s {
        ModuleStatement::Import(src) => Some(src@),
        ModuleStatement::ExportFrom(src) => Some(src@),
        ModuleStatement::ExportAll(src) => Some(src@),
        ModuleStatement::Other => None,
    }
}

/// The specifiers of the statements, in order.
pub open spec fn specifiers_of(stmts: Seq<ModuleStatement>) -> Seq<Seq<char>> {
    stmts.filter_map(|s: ModuleStatement| specifier_of(s))
}

/// What oxc's parser gives for a source text of a source type: the text
/// of each diagnostic (errors and warnings) in the parser's order, and for
/// each top-level statement of the program it builds, the source it imports
/// from (`specifier_of` of the statement).
pub uninterp spec fn oxc_parse(source: Seq<char>, source_type: SourceType) -> (Seq<Seq<char>>, Seq<Option<Seq<char>>>);

/// Calls `Allocator::default`: a fresh arena for one program's AST.
#[verifier::external_body]
pub(crate) fn new_allocator() -> (a: Allocator) {
    Allocator::default()
}

/// Calls `Parser::new(..).parse()` and hands back the program, the text of
/// each diagnostic, and the top-level statements read into plain values
/// (import declarations, named re-exports and star re-exports with their
/// source strings; `Other` for the rest). Diagnostics and statements are a
/// function of the source and the source type, named `oxc_parse`; the
/// program itself is opaque.
#[verifier::external_body]
pub(crate) fn parse_program<'a>(allocator: &'a Allocator, source: &'a str, source_type: SourceType) -> (parsed: (Program<'a>, Vec<String>, Vec<ModuleStatement>))
    ensures
        parsed.1.deep_view() == oxc_parse(source@, source_type).0,
        parsed.2@.map_values(|s: ModuleStatement| specifier_of(s)) == oxc_parse(source@, source_type).1,
{
    let ret = oxc::parser::Parser::new(allocator, source, source_type).parse();
    let messages = ret.diagnostics.iter().map(|d| d.to_string()).collect();
    let mut stmts = Vec::new();
    for stmt in ret.program.body.iter() {
        stmts.push(match stmt {
            Statement::ImportDeclaration(d) => ModuleStatement::Import(d.source.value.as_str().to_owned()),
            Statement::ExportFromDeclaration(d) => ModuleStatement::ExportFrom(d.source.value.as_str().to_owned()),
            Statement::ExportAllDeclaration(d) => ModuleStatement::ExportAll(d.source.value.as_str().to_owned()),
            _ => ModuleStatement::Other,
        });
    }
    (ret.program, messages, stmts)
}

} // verus!
