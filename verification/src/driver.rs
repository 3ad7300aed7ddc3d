use vstd::prelude::*;

use crate::text::{
    directory_part, file_part, find_first, find_last_slash, first_index_of, nat_text, remove_ign,
    trim_text, trimmed, u64_to_text, without_ign,
};
use crate::token::Span;

verus! {

/// The back ends the compiler can target.
#[derive(Debug, Clone, Copy, PartialEq, Eq, Structural)]
pub enum Backend {
    Lua,
    C,
    Bytecode,
    LLVM,
}

/// The stages whose output can be printed for debugging.
#[derive(Debug, Clone, Copy, PartialEq, Eq, Structural)]
pub enum DebugPrint {
    Lexer,
    Ast,
    Ir,
}

/// `build <file_path>`.
#[derive(Debug)]
pub struct BuildCommand {
    pub file_path: String,
}

/// The subcommands of the command line.
#[derive(Debug)]
pub enum SubCommand {
    Build(BuildCommand),
}

/// The parsed command line.
#[derive(Debug)]
pub struct Cli {
    pub subcommand: SubCommand,
    pub backend: Backend,
    pub debug: Vec<DebugPrint>,
}

/// The code generated for one source file.
pub struct CodeResult {
    pub code: String,
    pub file_name: String,
}

impl CodeResult {
    pub fn new(code: String, file_name: String) -> (res: Self)
        ensures
            res.code == code,
            res.file_name == file_name,
    {
        CodeResult { code, file_name }
    }
}

/// A diagnostic: where it was raised, its code, its hint and its span.
#[derive(Debug)]
pub struct Diagnostic {
    pub module_name: Option<String>,
    pub code: String,
    pub hint: Option<String>,
    pub span: Span,
}

/// The diagnostics gathered while compiling.
#[derive(Debug)]
pub struct DiagnosticList {
    pub diagnostics: Vec<Diagnostic>,
}

/// The compiler driver's state.
pub struct App {
    pub args: Cli,
    pub file_path: String,
    pub build: bool,
    pub relp: bool,
    pub source: String,
}

/// Whether a diagnostic can be displayed: it names its module and has a
/// hint, and, outside the prompt, its span does not end before it starts.
pub open spec fn displayable(d: Diagnostic, relp: bool) -> bool {
    &&& d.module_name is Some
    &&& d.hint is Some
    &&& !relp ==> d.span.start <= d.span.end
}

/// The lines that display a diagnostic.
pub open spec fn diagnostic_lines_of(d: Diagnostic, relp: bool) -> Seq<Seq<char>> {
    let head = seq!["- "@ + d.module_name->Some_0@, d.code@ + ": "@ + d.hint->Some_0@];
    if relp {
        head
    } else {
        head + seq![
            nat_text(d.span.line as nat) + " | "@ + d.span.literal@,
            "Column: "@ + nat_text((d.span.end - d.span.start) as nat),
        ]
    }
}

/// The lines that display the diagnostics `ds`, in order.
pub open spec fn diagnostics_lines_of(ds: Seq<Diagnostic>, relp: bool) -> Seq<Seq<char>>
    decreases ds.len(),
{
    if ds.len() == 0 {
        Seq::empty()
    } else {
        diagnostics_lines_of(ds.drop_last(), relp) + diagnostic_lines_of(ds.last(), relp)
    }
}

/// The lines for two lists of diagnostics, one after the other, are the
/// lines for the first followed by the lines for the second: each
/// diagnostic's lines depend on it alone.
pub proof fn law_diagnostic_lines_concat(a: Seq<Diagnostic>, b: Seq<Diagnostic>, relp: bool)
    ensures
        diagnostics_lines_of(a + b, relp) == diagnostics_lines_of(a, relp) + diagnostics_lines_of(b, relp),
    decreases b.len(),
{
    if b.len() == 0 {
        assert(a + b =~= a);
        assert(diagnostics_lines_of(a, relp) + Seq::<Seq<char>>::empty() =~= diagnostics_lines_of(a, relp));
    } else {
        let b1 = b.drop_last();
        law_diagnostic_lines_concat(a, b1, relp);
        assert((a + b).drop_last() =~= a + b1);
        assert((a + b).last() == b.last());
        assert(diagnostics_lines_of(a, relp) + diagnostics_lines_of(b1, relp) + diagnostic_lines_of(
            b.last(),
            relp,
        ) =~= diagnostics_lines_of(a, relp) + (diagnostics_lines_of(b1, relp) + diagnostic_lines_of(
            b.last(),
            relp,
        )));
    }
}

/// A single diagnostic is displayed by its own module, code, hint, line,
/// text and width; outside the prompt that is four lines, in it two.
pub proof fn law_single_diagnostic_lines(d: Diagnostic, relp: bool)
    ensures
        diagnostics_lines_of(seq![d], relp) == diagnostic_lines_of(d, relp),
        diagnostic_lines_of(d, relp).len() == if relp {
            2nat
        } else {
            4nat
        },
        diagnostic_lines_of(d, relp)[0] == "- "@ + d.module_name->Some_0@,
        diagnostic_lines_of(d, relp)[1] == d.code@ + ": "@ + d.hint->Some_0@,
        !relp ==> diagnostic_lines_of(d, relp)[2] == nat_text(d.span.line as nat) + " | "@
            + d.span.literal@,
        !relp ==> diagnostic_lines_of(d, relp)[3] == "Column: "@ + nat_text(
            (d.span.end - d.span.start) as nat,
        ),
{
    assert(seq![d].drop_last() =~= Seq::<Diagnostic>::empty());
    assert(seq![d].last() == d);
    assert(diagnostics_lines_of(Seq::<Diagnostic>::empty(), relp) == Seq::<Seq<char>>::empty());
    assert(Seq::<Seq<char>>::empty() + diagnostic_lines_of(d, relp) =~= diagnostic_lines_of(d, relp));
}

/// The directory that the output for `path` goes to.
pub open spec fn output_directory(path: Seq<char>) -> Seq<char> {
    "build/"@ + directory_part(path)
}

/// The name of the output for `path`: its last segment without `.ign`.
pub open spec fn output_name(path: Seq<char>) -> Seq<char> {
    without_ign(file_part(path))
}

/// Where the Lua code for a source file is written.
pub struct LuaOutput {
    pub directory: String,
    pub file: String,
}

/// Where the C code for a source file is written, and its executable.
pub struct COutput {
    pub directory: String,
    pub source_file: String,
    pub executable: String,
}

/// The last `/`-separated segment of `path`.
pub fn last_segment(path: &str) -> (res: String)
    ensures
        res@ == file_part(path@),
{
    let len = path.unicode_len();
    match find_last_slash(path) {
        Some(k) => {
            proof {
                assert(k < len);
            }
            String::from_str(path.substring_char(k + 1, len))
        },
        None => {
            proof {
                assert(path@.skip(0) =~= path@);
            }
            String::from_str(path)
        },
    }
}

/// `build/` followed by what comes before the last `/` of `path`.
pub fn output_directory_of(path: &str) -> (res: String)
    ensures
        res@ == output_directory(path@),
{
    let mut directory = String::from_str("build/");
    match find_last_slash(path) {
        Some(k) => {
            directory.append(path.substring_char(0, k));
            proof {
                assert(path@.subrange(0, k as int) =~= path@.take(k as int));
            }
        },
        None => {
            proof {
                assert(directory@ + Seq::<char>::empty() =~= directory@);
            }
        },
    }
    directory
}

/// The directory and file that `create_lua_files` writes the code for
/// `file_name` to.
pub fn lua_output_paths(file_name: &str) -> (res: LuaOutput)
    ensures
        res.directory@ == output_directory(file_name@),
        res.file@ == output_directory(file_name@) + "/"@ + output_name(file_name@) + ".lua"@,
{
    let directory = output_directory_of(file_name);
    let segment = last_segment(file_name);
    let name = remove_ign(segment.as_str());
    let mut file = directory.clone();
    file.append("/");
    file.append(name.as_str());
    file.append(".lua");
    LuaOutput { directory, file }
}

/// The directory, C file and executable that `create_c_files` writes for
/// `file_name`.
pub fn c_output_paths(file_name: &str) -> (res: COutput)
    ensures
        res.directory@ == output_directory(file_name@),
        res.source_file@ == output_directory(file_name@) + "/"@ + output_name(file_name@) + ".c"@,
        res.executable@ == output_directory(file_name@) + "/"@ + output_name(file_name@),
{
    let directory = output_directory_of(file_name);
    let segment = last_segment(file_name);
    let name = remove_ign(segment.as_str());
    let mut executable = directory.clone();
    executable.append("/");
    executable.append(name.as_str());
    let mut source_file = executable.clone();
    source_file.append(".c");
    COutput { directory, source_file, executable }
}

/// What the interactive prompt does with a line it has read.
#[derive(Debug)]
pub enum PromptAction {
    /// The input has ended.
    EndOfInput,
    /// The line is empty: prompt again.
    Skip,
    /// `exit`: leave the compiler.
    Exit,
    /// `load <path>`: compile the file at the path.
    Load(String),
    /// Anything else: compile the line itself.
    Evaluate(String),
}

/// The path a `load` line names: what follows the first `load`, up to the
/// next `load` if there is one, without surrounding white space.
pub open spec fn load_path(line: Seq<char>) -> Seq<char> {
    let rest = line.skip(first_index_of(line, "load"@) + "load"@.len());
    let next = first_index_of(rest, "load"@);
    trimmed(
        if next < 0 {
            rest
        } else {
            rest.take(next)
        },
    )
}

/// What the prompt does with `line`, of which `bytes_read` bytes were read:
/// nothing read ends the input, a lone line break is skipped, `exit` leaves,
/// a line that mentions `load` loads, and any other line is compiled.
pub fn prompt_action(line: &str, bytes_read: usize) -> (res: PromptAction)
    ensures
        match res {
            PromptAction::EndOfInput => bytes_read == 0,
            PromptAction::Skip => bytes_read == 1,
            PromptAction::Exit => bytes_read > 1 && trimmed(line@) == "exit"@,
            PromptAction::Load(path) => {
                &&& bytes_read > 1
                &&& trimmed(line@) != "exit"@
                &&& first_index_of(line@, "load"@) >= 0
                &&& path@ == load_path(line@)
            },
            PromptAction::Evaluate(source) => {
                &&& bytes_read > 1
                &&& trimmed(line@) != "exit"@
                &&& first_index_of(line@, "load"@) < 0
                &&& source@ == line@
            },
        },
{
    if bytes_read == 0 {
        return PromptAction::EndOfInput;
    } else if bytes_read == 1 {
        return PromptAction::Skip;
    }
    let exit_word = String::from_str("exit");
    let whole = trim_text(line);
    if whole == exit_word {
        return PromptAction::Exit;
    }
    match find_first(line, "load") {
        Some(i) => {
            let len = line.unicode_len();
            let word = "load".unicode_len();
            let rest = line.substring_char(i + word, len);
            proof {
                assert(rest@ =~= line@.skip(first_index_of(line@, "load"@) + "load"@.len()));
            }
            let piece = match find_first(rest, "load") {
                Some(j) => {
                    let taken = rest.substring_char(0, j);
                    proof {
                        assert(taken@ =~= rest@.take(j as int));
                    }
                    taken
                },
                None => rest,
            };
            PromptAction::Load(trim_text(piece))
        },
        None => PromptAction::Evaluate(String::from_str(line)),
    }
}

impl App {
    pub fn new(args: Cli) -> (res: Self)
        ensures
            res.file_path == match args.subcommand {
                SubCommand::Build(b) => b.file_path,
            },
            res.build,
            !res.relp,
            res.source@ == Seq::<char>::empty(),
            res.args == args,
    {
        let file_path: String;
        let build: bool;
        match &args.subcommand {
            SubCommand::Build(b) => {
                file_path = b.file_path.clone();
                build = true;
            },
        }
        App { args, file_path, build, relp: false, source: String::new() }
    }

    /// The lines that `display_diagnostic` prints for `diagnostics`.
    pub fn diagnostic_lines(&self, diagnostics: &DiagnosticList) -> (res: Vec<String>)
        requires
            forall|i: int|
                0 <= i < diagnostics.diagnostics@.len() ==> displayable(
                    #[trigger] diagnostics.diagnostics@[i],
                    self.relp,
                ),
        ensures
            res@.map_values(|s: String| s@) == diagnostics_lines_of(diagnostics.diagnostics@, self.relp),
    {
        let ds = &diagnostics.diagnostics;
        let mut lines: Vec<String> = Vec::new();
        let mut i: usize = 0;
        while i < ds.len()
            invariant
                i <= ds.len(),
                forall|j: int| 0 <= j < ds@.len() ==> displayable(#[trigger] ds@[j], self.relp),
                lines@.map_values(|s: String| s@) == diagnostics_lines_of(ds@.take(i as int), self.relp),
            decreases ds.len() - i,
        {
            let d = &ds[i];
            assert(displayable(ds@[i as int], self.relp));
            let ghost before = lines@.map_values(|s: String| s@);
            let mut first = String::from_str("- ");
            match &d.module_name {
                Some(path) => first.append(path.as_str()),
                None => {},
            }
            lines.push(first);
            let mut second = d.code.clone();
            second.append(": ");
            match &d.hint {
                Some(hint) => second.append(hint.as_str()),
                None => {},
            }
            lines.push(second);
            if !self.relp {
                let mut third = u64_to_text(d.span.line as u64);
                third.append(" | ");
                third.append(d.span.literal.as_str());
                lines.push(third);
                let mut fourth = String::from_str("Column: ");
                let width = u64_to_text((d.span.end - d.span.start) as u64);
                fourth.append(width.as_str());
                lines.push(fourth);
            }
            proof {
                assert(ds@.take(i + 1).drop_last() =~= ds@.take(i as int));
                assert(lines@.map_values(|s: String| s@) =~= before + diagnostic_lines_of(
                    ds@[i as int],
                    self.relp,
                ));
            }
            i = i + 1;
        }
        proof {
            assert(ds@.take(ds.len() as int) =~= ds@);
        }
        lines
    }
}

/// Every output is written under `build/`, in the directory that mirrors
/// the source file's own.
pub proof fn law_outputs_under_build(path: Seq<char>)
    ensures
        output_directory(path).take(6) == "build/"@,
        output_directory(path).skip(6) == directory_part(path),
{
    reveal_strlit("build/");
    assert(output_directory(path).take(6) =~= "build/"@);
    assert(output_directory(path).skip(6) =~= directory_part(path));
}

} // verus!
