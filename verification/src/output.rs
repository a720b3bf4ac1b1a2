//! Which outputs a build produces for each requested format.

use vstd::prelude::*;
use vstd::string::StringExecFns;

use crate::text::{lowercase, same_text, to_lowercase};

verus! {

/// One output of a build.
#[derive(Debug, Clone, Copy, PartialEq, Eq, Structural)]
pub enum OutputStep {
    /// Render the LaTeX template and write it to `resume.tex`.
    Latex,
    /// Render the HTML template of the theme and write it to `resume.html`.
    Html,
    /// Render the LaTeX template and compile it to a PDF.
    Pdf,
    /// Render the ATS text template and write it to `resume.txt`.
    Text,
    /// Render the ATS text template and write it to `resume-ats.txt`.
    AtsText,
}

/// The file an output step writes, where it writes one of its own.
pub open spec fn step_file(step: OutputStep) -> Option<Seq<char>> {
    match step {
        OutputStep::Latex => Some("resume.tex"@),
        OutputStep::Html => Some("resume.html"@),
        OutputStep::Pdf => None,
        OutputStep::Text => Some("resume.txt"@),
        OutputStep::AtsText => Some("resume-ats.txt"@),
    }
}

impl OutputStep {
    /// The file this step writes (the PDF step writes through the compiler).
    pub fn file_name(&self) -> (r: Option<&'static str>)
        ensures
            match step_file(*self) {
                Some(f) => r matches Some(n) && n@ == f,
                None => r is None,
            },
    {
        match self {
            OutputStep::Latex => Some("resume.tex"),
            OutputStep::Html => Some("resume.html"),
            OutputStep::Pdf => None,
            OutputStep::Text => Some("resume.txt"),
            OutputStep::AtsText => Some("resume-ats.txt"),
        }
    }
}

/// A format that no build produces.
#[derive(Debug)]
pub struct UnsupportedFormat {
    pub format: String,
}

impl UnsupportedFormat {
    /// `Unsupported format: ` and the format as requested.
    pub fn message(&self) -> (r: String)
        ensures
            r@ == "Unsupported format: "@ + self.format@,
    {
        let mut m = String::from_str("Unsupported format: ");
        m.append(self.format.as_str());
        m
    }
}

/// The outputs of each format, told apart in lowercase: `latex`, `html`,
/// `pdf` and `text` give one each; `all` gives LaTeX, HTML, PDF and the ATS
/// text, in that order.
pub open spec fn format_steps(lower: Seq<char>) -> Option<Seq<OutputStep>> {
    if lower == "latex"@ {
        Some(seq![OutputStep::Latex])
    } else if lower == "html"@ {
        Some(seq![OutputStep::Html])
    } else if lower == "pdf"@ {
        Some(seq![OutputStep::Pdf])
    } else if lower == "text"@ {
        Some(seq![OutputStep::Text])
    } else if lower == "all"@ {
        Some(seq![OutputStep::Latex, OutputStep::Html, OutputStep::Pdf, OutputStep::AtsText])
    } else {
        None
    }
}

/// The outputs a build produces for `format`, whatever its case.
pub fn output_steps(format: &str) -> (r: Result<Vec<OutputStep>, UnsupportedFormat>)
    ensures
        match format_steps(lowercase(format@)) {
            Some(steps) => r matches Ok(v) && v@ == steps,
            None => r matches Err(e) && e.format@ == format@,
        },
{
    let lower = to_lowercase(format);
    let l = lower.as_str();
    if same_text(l, "latex") {
        let v = vec![OutputStep::Latex];
        assert(v@ =~= seq![OutputStep::Latex]);
        Ok(v)
    } else if same_text(l, "html") {
        let v = vec![OutputStep::Html];
        assert(v@ =~= seq![OutputStep::Html]);
        Ok(v)
    } else if same_text(l, "pdf") {
        let v = vec![OutputStep::Pdf];
        assert(v@ =~= seq![OutputStep::Pdf]);
        Ok(v)
    } else if same_text(l, "text") {
        let v = vec![OutputStep::Text];
        assert(v@ =~= seq![OutputStep::Text]);
        Ok(v)
    } else if same_text(l, "all") {
        let v = vec![OutputStep::Latex, OutputStep::Html, OutputStep::Pdf, OutputStep::AtsText];
        assert(v@ =~= seq![OutputStep::Latex, OutputStep::Html, OutputStep::Pdf, OutputStep::AtsText]);
        Ok(v)
    } else {
        Err(UnsupportedFormat { format: String::from_str(format) })
    }
}

} // verus!
