//! The decisions of LaTeX compilation: which engine, which command line,
//! which auxiliary files to remove, and what a run's outcome means. Running
//! the commands and touching files is the caller's part.

use vstd::prelude::*;
use vstd::string::StringExecFns;

use crate::text::{push_string, strs};

verus! {

/// A LaTeX engine that can turn the `.tex` source into a PDF.
#[derive(Debug, Clone, Copy, PartialEq, Eq, Structural)]
pub enum LatexEngine {
    Tectonic,
    Xelatex,
    Latexmk,
}

/// The program that runs an engine.
pub open spec fn program_of(engine: LatexEngine) -> Seq<char> {
    match engine {
        LatexEngine::Tectonic => "tectonic"@,
        LatexEngine::Xelatex => "xelatex"@,
        LatexEngine::Latexmk => "latexmk"@,
    }
}

/// The engine's name in messages.
pub open spec fn display_name_of(engine: LatexEngine) -> Seq<char> {
    match engine {
        LatexEngine::Tectonic => "Tectonic"@,
        LatexEngine::Xelatex => "XeLaTeX"@,
        LatexEngine::Latexmk => "Latexmk"@,
    }
}

impl LatexEngine {
    /// The program that runs this engine.
    pub fn program(&self) -> (r: &'static str)
        ensures
            r@ == program_of(*self),
    {
        match self {
            LatexEngine::Tectonic => "tectonic",
            LatexEngine::Xelatex => "xelatex",
            LatexEngine::Latexmk => "latexmk",
        }
    }

    /// The engine's name in messages.
    pub fn display_name(&self) -> (r: &'static str)
        ensures
            r@ == display_name_of(*self),
    {
        match self {
            LatexEngine::Tectonic => "Tectonic",
            LatexEngine::Xelatex => "XeLaTeX",
            LatexEngine::Latexmk => "Latexmk",
        }
    }
}

/// The engines to try, in order of preference.
pub open spec fn preferred_engines() -> Seq<LatexEngine> {
    seq![LatexEngine::Tectonic, LatexEngine::Xelatex, LatexEngine::Latexmk]
}

/// The engines to try, in order of preference: Tectonic, XeLaTeX, latexmk.
pub fn engine_preference() -> (r: Vec<LatexEngine>)
    ensures
        r@ == preferred_engines(),
{
    let r = vec![LatexEngine::Tectonic, LatexEngine::Xelatex, LatexEngine::Latexmk];
    assert(r@ =~= preferred_engines());
    r
}

/// The first engine, in order of preference, that answered its probe;
/// latexmk where none did.
pub open spec fn chosen_engine(available: Seq<bool>) -> LatexEngine
    decreases available.len(),
{
    if available.len() == 0 || available.len() > preferred_engines().len() {
        LatexEngine::Latexmk
    } else if available[0] {
        preferred_engines()[0]
    } else if available.len() >= 2 && available[1] {
        preferred_engines()[1]
    } else if available.len() >= 3 && available[2] {
        preferred_engines()[2]
    } else {
        LatexEngine::Latexmk
    }
}

/// Drives LaTeX compilation with one engine; shell escape stays off.
pub struct LatexCompiler {
    engine: LatexEngine,
    shell_escape: bool,
}

/// Why a compilation did not produce a PDF.
#[derive(Debug, Clone)]
pub enum CompileError {
    /// The engine exited unsuccessfully, with this error output.
    Failed { engine: LatexEngine, stderr: String },
    /// The engine reported success but no PDF stands at this path.
    MissingPdf { pdf_path: String },
}

impl CompileError {
    /// The text of the message for this error.
    pub open spec fn spec_message(self) -> Seq<char> {
        match self {
            CompileError::Failed { engine, stderr } => display_name_of(engine)
                + " compilation failed: "@ + stderr@,
            CompileError::MissingPdf { pdf_path } =>
                "LaTeX compiler reported success but PDF was not produced at "@ + pdf_path@,
        }
    }

    /// The message for this error.
    pub fn message(&self) -> (r: String)
        ensures
            r@ == self.spec_message(),
    {
        match self {
            CompileError::Failed { engine, stderr } => {
                let mut m = String::from_str(engine.display_name());
                m.append(" compilation failed: ");
                m.append(stderr.as_str());
                m
            },
            CompileError::MissingPdf { pdf_path } => {
                let mut m = String::from_str(
                    "LaTeX compiler reported success but PDF was not produced at ",
                );
                m.append(pdf_path.as_str());
                m
            },
        }
    }
}

/// The command-line arguments of a run, for the engine and shell-escape
/// setting given.
pub open spec fn compile_args_of(
    engine: LatexEngine,
    shell_escape: bool,
    tex_path: Seq<char>,
    output_dir: Seq<char>,
) -> Seq<Seq<char>> {
    let escape = if shell_escape {
        seq!["-shell-escape"@]
    } else {
        seq![]
    };
    match engine {
        LatexEngine::Tectonic => seq!["--outdir"@, output_dir, tex_path],
        LatexEngine::Xelatex => seq!["-output-directory"@, output_dir, "-interaction=nonstopmode"@]
            + escape + seq![tex_path],
        LatexEngine::Latexmk => seq!["-pdf"@, "-interaction=nonstopmode"@] + escape + seq![
            "-output-directory"@,
            output_dir,
            tex_path,
        ],
    }
}

/// The extensions of the auxiliary files a run leaves behind.
pub open spec fn aux_extensions() -> Seq<Seq<char>> {
    seq!["aux"@, "log"@, "fls"@, "fdb_latexmk"@, "out"@]
}

/// The auxiliary files of a run on `base`.tex: `base`, a dot, an extension.
pub fn aux_file_names(base: &str) -> (r: Vec<String>)
    ensures
        strs(r@) == aux_extensions().map_values(|ext: Seq<char>| base@ + "."@ + ext),
{
    let exts = vec!["aux", "log", "fls", "fdb_latexmk", "out"];
    assert(exts@.map_values(|e: &str| e@) =~= aux_extensions());
    let mut r: Vec<String> = Vec::new();
    let mut i: usize = 0;
    while i < exts.len()
        invariant
            i <= exts.len(),
            exts@.map_values(|e: &str| e@) == aux_extensions(),
            strs(r@) == aux_extensions().take(i as int).map_values(
                |ext: Seq<char>| base@ + "."@ + ext,
            ),
        decreases exts.len() - i,
    {
        assert(exts@.map_values(|e: &str| e@)[i as int] == exts@[i as int]@);
        let mut name = String::from_str(base);
        name.append(".");
        name.append(exts[i]);
        push_string(&mut r, name);
        assert(strs(r@) =~= aux_extensions().take(i + 1).map_values(
            |ext: Seq<char>| base@ + "."@ + ext,
        ));
        i = i + 1;
    }
    assert(aux_extensions().take(exts.len() as int) =~= aux_extensions());
    r
}

impl LatexCompiler {
    /// The engine this compiler runs.
    pub closed spec fn spec_engine(&self) -> LatexEngine {
        self.engine
    }

    /// Whether this compiler passes `-shell-escape`.
    pub closed spec fn spec_shell_escape(&self) -> bool {
        self.shell_escape
    }

    /// A compiler for `engine`, with shell escape off.
    pub fn new(engine: LatexEngine) -> (r: Self)
        ensures
            r.spec_engine() == engine,
            !r.spec_shell_escape(),
    {
        Self { engine, shell_escape: false }
    }

    /// The compiler for the first engine, in order of preference, whose probe
    /// succeeded (`available[i]` answers for the `i`-th preferred engine, for
    /// as many as were probed); latexmk where none did.
    pub fn from_probes(available: &Vec<bool>) -> (r: Self)
        ensures
            r.spec_engine() == chosen_engine(available@),
            !r.spec_shell_escape(),
    {
        let prefs = engine_preference();
        if available.len() == 0 || available.len() > prefs.len() {
            return Self::new(LatexEngine::Latexmk);
        }
        let mut i: usize = 0;
        while i < available.len()
            invariant
                prefs@ == preferred_engines(),
                0 < available.len() <= 3,
                i <= available.len(),
                forall|k: int| 0 <= k < i ==> !available@[k],
            decreases available.len() - i,
        {
            if available[i] {
                return Self::new(prefs[i]);
            }
            i = i + 1;
        }
        Self::new(LatexEngine::Latexmk)
    }

    /// The engine this compiler runs.
    pub fn engine(&self) -> (r: LatexEngine)
        ensures
            r == self.spec_engine(),
    {
        self.engine
    }

    /// Whether this compiler passes `-shell-escape`.
    pub fn shell_escape(&self) -> (r: bool)
        ensures
            r == self.spec_shell_escape(),
    {
        self.shell_escape
    }

    /// The program to run: `tectonic`, `xelatex` or `latexmk`.
    pub fn program(&self) -> (r: &'static str)
        ensures
            r@ == program_of(self.spec_engine()),
    {
        self.engine.program()
    }

    /// The arguments of the run that compiles `tex_path` into `output_dir`.
    pub fn compile_args(&self, tex_path: &str, output_dir: &str) -> (r: Vec<String>)
        ensures
            strs(r@) == compile_args_of(
                self.spec_engine(),
                self.spec_shell_escape(),
                tex_path@,
                output_dir@,
            ),
    {
        let mut r: Vec<String> = Vec::new();
        match self.engine {
            LatexEngine::Tectonic => {
                push_string(&mut r, String::from_str("--outdir"));
                push_string(&mut r, String::from_str(output_dir));
                push_string(&mut r, String::from_str(tex_path));
            },
            LatexEngine::Xelatex => {
                push_string(&mut r, String::from_str("-output-directory"));
                push_string(&mut r, String::from_str(output_dir));
                push_string(&mut r, String::from_str("-interaction=nonstopmode"));
                if self.shell_escape {
                    push_string(&mut r, String::from_str("-shell-escape"));
                }
                push_string(&mut r, String::from_str(tex_path));
            },
            LatexEngine::Latexmk => {
                push_string(&mut r, String::from_str("-pdf"));
                push_string(&mut r, String::from_str("-interaction=nonstopmode"));
                if self.shell_escape {
                    push_string(&mut r, String::from_str("-shell-escape"));
                }
                push_string(&mut r, String::from_str("-output-directory"));
                push_string(&mut r, String::from_str(output_dir));
                push_string(&mut r, String::from_str(tex_path));
            },
        }
        assert(strs(r@) =~= compile_args_of(
            self.spec_engine(),
            self.spec_shell_escape(),
            tex_path@,
            output_dir@,
        ));
        r
    }

    /// Whether a successful run is followed by removing the auxiliary files:
    /// it is, whichever engine ran.
    pub fn cleans_aux_files(&self) -> (r: bool)
        ensures
            r,
    {
        true
    }

    /// What a run's outcome means: an error where the engine failed (with its
    /// error output) or where no PDF was produced, else the PDF's path.
    pub fn compile_outcome(&self, succeeded: bool, stderr: &str, pdf_exists: bool, pdf_path: &str) -> (r:
        Result<String, CompileError>)
        ensures
            !succeeded ==> (r matches Err(CompileError::Failed { engine, stderr: e }) && engine
                == self.spec_engine() && e@ == stderr@),
            succeeded && !pdf_exists ==> (r matches Err(CompileError::MissingPdf { pdf_path: p })
                && p@ == pdf_path@),
            succeeded && pdf_exists ==> (r matches Ok(p) && p@ == pdf_path@),
    {
        if !succeeded {
            return Err(CompileError::Failed { engine: self.engine, stderr: String::from_str(stderr) });
        }
        if !pdf_exists {
            return Err(CompileError::MissingPdf { pdf_path: String::from_str(pdf_path) });
        }
        Ok(String::from_str(pdf_path))
    }
}

} // verus!

verus! {

/// With shell escape off, no run is given `-shell-escape` (unless a path
/// itself reads `-shell-escape`).
pub proof fn shell_escape_off_passes_no_flag(
    engine: LatexEngine,
    tex_path: Seq<char>,
    output_dir: Seq<char>,
)
    requires
        tex_path != "-shell-escape"@,
        output_dir != "-shell-escape"@,
    ensures
        !compile_args_of(engine, false, tex_path, output_dir).contains("-shell-escape"@),
{
    reveal_strlit("-shell-escape");
    reveal_strlit("--outdir");
    reveal_strlit("-output-directory");
    reveal_strlit("-interaction=nonstopmode");
    reveal_strlit("-pdf");
    let args = compile_args_of(engine, false, tex_path, output_dir);
    assert forall|i: int| 0 <= i < args.len() implies args[i] != "-shell-escape"@ by {
        if args[i] == "--outdir"@ || args[i] == "-output-directory"@ || args[i]
            == "-interaction=nonstopmode"@ || args[i] == "-pdf"@ {
            assert(args[i].len() != "-shell-escape"@.len() || args[i][1] != "-shell-escape"@[1]
                || args[i][2] != "-shell-escape"@[2]);
        }
    }
}

/// The engine chosen from the probes is the first available one in order of
/// preference (Tectonic, then XeLaTeX, then latexmk): where the `i`-th
/// preferred engine answered its probe and none before it did, it is the one
/// chosen. Where none answered, latexmk is the fallback.
pub proof fn first_available_engine_is_chosen(available: Seq<bool>, i: int)
    requires
        available.len() <= 3,
        0 <= i < available.len(),
        available[i],
        forall|k: int| 0 <= k < i ==> !available[k],
    ensures
        chosen_engine(available) == preferred_engines()[i],
        i == 0 ==> chosen_engine(available) == LatexEngine::Tectonic,
        i == 1 ==> chosen_engine(available) == LatexEngine::Xelatex,
        i == 2 ==> chosen_engine(available) == LatexEngine::Latexmk,
{
}

/// Where no probed engine answered, latexmk is chosen.
pub proof fn latexmk_is_the_fallback(available: Seq<bool>)
    requires
        forall|k: int| 0 <= k < available.len() ==> !available[k],
    ensures
        chosen_engine(available) == LatexEngine::Latexmk,
{
}

/// Every run compiles the given source and writes into the given directory:
/// the last argument is the source's path, and the output directory comes
/// right after its flag (`--outdir` for Tectonic, `-output-directory`
/// otherwise). With shell escape on, XeLaTeX and latexmk are given
/// `-shell-escape`.
pub proof fn runs_compile_the_source_into_the_directory(
    engine: LatexEngine,
    shell_escape: bool,
    tex_path: Seq<char>,
    output_dir: Seq<char>,
)
    ensures
        ({
            let args = compile_args_of(engine, shell_escape, tex_path, output_dir);
            &&& args.len() > 0
            &&& args.last() == tex_path
            &&& exists|k: int|
                0 <= k < args.len() - 1 && #[trigger] args[k] == (if engine == LatexEngine::Tectonic {
                    "--outdir"@
                } else {
                    "-output-directory"@
                }) && args[k + 1] == output_dir
            &&& shell_escape && engine != LatexEngine::Tectonic ==> args.contains("-shell-escape"@)
        }),
{
    let args = compile_args_of(engine, shell_escape, tex_path, output_dir);
    match engine {
        LatexEngine::Tectonic => {
            assert(args[0] == "--outdir"@ && args[1] == output_dir);
        },
        LatexEngine::Xelatex => {
            assert(args[0] == "-output-directory"@ && args[1] == output_dir);
            if shell_escape {
                assert(args[3] == "-shell-escape"@);
            }
        },
        LatexEngine::Latexmk => {
            let e = if shell_escape { 1int } else { 0int };
            assert(args[2 + e] == "-output-directory"@ && args[3 + e] == output_dir);
            if shell_escape {
                assert(args[2] == "-shell-escape"@);
            }
        },
    }
}

} // verus!
