use vstd::prelude::*;
use crate::errors::SpxError;
use crate::text::string_from_chars;

verus! {

/// The command line: one subcommand.
#[derive(Debug, Clone)]
pub struct Cli {
    pub command: Command,
}

/// The subcommands.
#[derive(Debug, Clone)]
pub enum Command {
    /// Run a TypeScript or JavaScript file, forwarding `args` to the script.
    Run { file: String, args: Vec<String> },
    /// Watch a file and re-run on changes (not available yet).
    Watch { file: String, args: Vec<String> },
    /// Start an interactive REPL (not available yet).
    Repl,
}

/// `prefix` followed by `: coming soon`.
pub open spec fn coming_soon_text(prefix: Seq<char>) -> Seq<char> {
    prefix + seq![':', ' ', 'c', 'o', 'm', 'i', 'n', 'g', ' ', 's', 'o', 'o', 'n']
}

impl Command {
    /// What to tell the user instead of running, for the subcommands that
    /// are not available yet: `spx watch: coming soon`, `spx repl: coming soon`.
    pub fn notice(&self) -> (r: Option<String>)
        ensures
            match self {
                Command::Run { .. } => r is None,
                Command::Watch { .. } => r matches Some(t) && t@ == coming_soon_text(seq!['s', 'p', 'x', ' ', 'w', 'a', 't', 'c', 'h']),
                Command::Repl => r matches Some(t) && t@ == coming_soon_text(seq!['s', 'p', 'x', ' ', 'r', 'e', 'p', 'l']),
            },
    {
        match self {
            Command::Run { .. } => None,
            Command::Watch { .. } => {
                let t = string_from_chars(&['s', 'p', 'x', ' ', 'w', 'a', 't', 'c', 'h', ':', ' ', 'c', 'o', 'm', 'i', 'n', 'g', ' ', 's', 'o', 'o', 'n']);
                assert(t@ =~= coming_soon_text(seq!['s', 'p', 'x', ' ', 'w', 'a', 't', 'c', 'h']));
                Some(t)
            },
            Command::Repl => {
                let t = string_from_chars(&['s', 'p', 'x', ' ', 'r', 'e', 'p', 'l', ':', ' ', 'c', 'o', 'm', 'i', 'n', 'g', ' ', 's', 'o', 'o', 'n']);
                assert(t@ =~= coming_soon_text(seq!['s', 'p', 'x', ' ', 'r', 'e', 'p', 'l']));
                Some(t)
            },
        }
    }
}

/// The file names of the loader shims inside the loader directory: the ESM
/// loader hook and the CommonJS register hook.
pub open spec fn loader_file_names() -> (Seq<char>, Seq<char>) {
    (
        seq!['e', 's', 'm', '-', 'l', 'o', 'a', 'd', 'e', 'r', '.', 'm', 'j', 's'],
        seq!['c', 'j', 's', '-', 'r', 'e', 'g', 'i', 's', 't', 'e', 'r', '.', 'c', 'j', 's'],
    )
}

/// `esm-loader.mjs` and `cjs-register.cjs`, the loader shims' file names.
pub fn loader_files() -> (names: (String, String))
    ensures
        names.0@ == loader_file_names().0,
        names.1@ == loader_file_names().1,
{
    let esm = string_from_chars(&['e', 's', 'm', '-', 'l', 'o', 'a', 'd', 'e', 'r', '.', 'm', 'j', 's']);
    let cjs = string_from_chars(&['c', 'j', 's', '-', 'r', 'e', 'g', 'i', 's', 't', 'e', 'r', '.', 'c', 'j', 's']);
    assert(esm@ =~= loader_file_names().0);
    assert(cjs@ =~= loader_file_names().1);
    (esm, cjs)
}

/// The arguments Node.js is started with: the ESM loader hook, the
/// CommonJS register hook, the entry file, then the script's own arguments.
pub open spec fn node_arg_texts(esm_loader: Seq<char>, cjs_register: Seq<char>, entry: Seq<char>, args: Seq<Seq<char>>) -> Seq<Seq<char>> {
    seq![
        seq!['-', '-', 'i', 'm', 'p', 'o', 'r', 't'],
        esm_loader,
        seq!['-', '-', 'r', 'e', 'q', 'u', 'i', 'r', 'e'],
        cjs_register,
        entry,
    ] + args
}

/// `--import <esm_loader> --require <cjs_register> <entry> <args..>`.
pub fn node_args(esm_loader: &str, cjs_register: &str, entry: &str, args: &Vec<String>) -> (argv: Vec<String>)
    ensures
        argv.deep_view() == node_arg_texts(esm_loader@, cjs_register@, entry@, args.deep_view()),
{
    let mut argv: Vec<String> = Vec::new();
    argv.push(string_from_chars(&['-', '-', 'i', 'm', 'p', 'o', 'r', 't']));
    argv.push(esm_loader.to_owned());
    argv.push(string_from_chars(&['-', '-', 'r', 'e', 'q', 'u', 'i', 'r', 'e']));
    argv.push(cjs_register.to_owned());
    argv.push(entry.to_owned());
    let ghost head = argv.deep_view();
    let n = args.len();
    let mut i: usize = 0;
    while i < n
        invariant
            n == args@.len(),
            i <= n,
            head.len() == 5,
            argv.deep_view() == head + args.deep_view().take(i as int),
        decreases n - i,
    {
        let ghost before = argv.deep_view();
        argv.push(args[i].clone());
        assert(argv.deep_view() =~= before.push(args@[i as int]@));
        assert(args.deep_view().take(i + 1) =~= args.deep_view().take(i as int).push(args@[i as int]@));
        assert(argv.deep_view() =~= head + args.deep_view().take(i + 1));
        i = i + 1;
    }
    assert(args.deep_view().take(n as int) =~= args.deep_view());
    assert(argv.deep_view() =~= node_arg_texts(esm_loader@, cjs_register@, entry@, args.deep_view()));
    argv
}

/// Node.js gets the two loader hooks before the entry file, and the
/// script's own arguments after it, all of them, unchanged and in order.
pub proof fn law_node_args_forward_the_script_args(esm_loader: Seq<char>, cjs_register: Seq<char>, entry: Seq<char>, args: Seq<Seq<char>>)
    ensures
        ({
            let argv = node_arg_texts(esm_loader, cjs_register, entry, args);
            &&& argv.len() == args.len() + 5
            &&& argv[1] == esm_loader
            &&& argv[3] == cjs_register
            &&& argv[4] == entry
            &&& argv.subrange(5, argv.len() as int) == args
        }),
{
    let argv = node_arg_texts(esm_loader, cjs_register, entry, args);
    assert(argv.subrange(5, argv.len() as int) =~= args);
}

/// Whether an I/O error's kind, as `std::io::Error::kind` gives it, is
/// `ErrorKind::NotFound`.
pub uninterp spec fn io_error_is_not_found(e: std::io::Error) -> bool;

/// Calls `std::io::Error::kind` and compares it with `ErrorKind::NotFound`;
/// the answer is a function of the error, named `io_error_is_not_found`.
#[verifier::external_body]
fn is_not_found(e: &std::io::Error) -> (b: bool)
    ensures
        b == io_error_is_not_found(*e),
{
    e.kind() == std::io::ErrorKind::NotFound
}

/// The error for a failure to start Node.js: `NodeNotFound` when the
/// executable is missing, else the I/O error itself.
pub fn spawn_error(e: std::io::Error) -> (r: SpxError)
    ensures
        r == if io_error_is_not_found(e) {
            SpxError::NodeNotFound
        } else {
            SpxError::Io(e)
        },
{
    if is_not_found(&e) {
        SpxError::NodeNotFound
    } else {
        SpxError::Io(e)
    }
}

/// The process exit code for a finished script: its own, or 1 where it
/// has none (it was ended by a signal).
pub fn exit_code(code: Option<i32>) -> (c: i32)
    ensures
        c == match code {
            Some(c) => c,
            None => 1,
        },
{
    match code {
        Some(c) => c,
        None => 1,
    }
}

/// Where the loader shims are looked for.
#[derive(Debug, Clone, PartialEq, Eq)]
pub enum LoaderDir {
    /// The directory named by `SPX_LOADER_DIR`.
    FromEnv(String),
    /// `loader` next to the running executable.
    BesideBinary,
    /// `../loader` relative to the running executable's directory.
    AboveBinary,
    /// `loader` relative to the working directory.
    Fallback,
}

/// Where the loader shims are: the `SPX_LOADER_DIR` setting if there is
/// one; else `loader` beside the executable if it exists; else `../loader`
/// from there if it exists; else `loader`. `beside_exists` and
/// `above_exists` are false where the executable's directory is unknown.
pub fn choose_loader_dir(from_env: Option<String>, beside_exists: bool, above_exists: bool) -> (d: LoaderDir)
    ensures
        match from_env {
            Some(dir) => d == LoaderDir::FromEnv(dir),
            None => d == if beside_exists {
                LoaderDir::BesideBinary
            } else if above_exists {
                LoaderDir::AboveBinary
            } else {
                LoaderDir::Fallback
            },
        },
{
    match from_env {
        Some(dir) => LoaderDir::FromEnv(dir),
        None => {
            if beside_exists {
                LoaderDir::BesideBinary
            } else if above_exists {
                LoaderDir::AboveBinary
            } else {
                LoaderDir::Fallback
            }
        },
    }
}

} // verus!
