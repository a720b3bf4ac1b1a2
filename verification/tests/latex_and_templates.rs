use jsonresume_builder::output::{output_steps, OutputStep};
use jsonresume_builder::templates::engine::{escape_latex_str, html_template_for_theme};
use jsonresume_builder::utils::latex::{
    aux_file_names, engine_preference, CompileError, LatexCompiler, LatexEngine,
};

#[test]
fn escaping_mixed_text() {
    assert_eq!(
        escape_latex_str("50% of $5 & #1_{x}~^\\"),
        "50\\% of \\$5 \\& \\#1\\_\\{x\\}\\textasciitilde{}\\textasciicircum{}\\textbackslash\\{\\}"
    );
}

#[test]
fn escaped_text_has_no_raw_tilde_caret_or_trailing_backslash() {
    for input in ["~~^^", "a\\", "x&y%z$w#v_u", "é\\~"] {
        let out = escape_latex_str(input);
        assert!(!out.contains('~') && !out.contains('^'), "{:?}", out);
        assert!(!out.ends_with('\\'), "{:?}", out);
        let chars: Vec<char> = out.chars().collect();
        for (i, c) in chars.iter().enumerate() {
            if ['&', '%', '$', '#', '_'].contains(c) {
                assert!(i > 0 && chars[i - 1] == '\\', "{:?}", out);
            }
        }
    }
}

#[test]
fn text_without_specials_is_unchanged() {
    for input in ["", "plain text, no specials!", "naïve café ünïcode", "a-b.c/d:e;f<g>h?i[j]k`l|m"] {
        assert_eq!(escape_latex_str(input), input);
    }
}

#[test]
fn every_theme_has_its_template() {
    assert_eq!(html_template_for_theme("modern").unwrap(), "html/modern.html.j2");
    assert_eq!(
        html_template_for_theme("clean-minimal").unwrap(),
        "html/themes/clean-minimal.html.j2"
    );
    assert_eq!(
        html_template_for_theme("modern-professional").unwrap(),
        "html/themes/modern-professional.html.j2"
    );
    assert_eq!(
        html_template_for_theme("tech-timeline").unwrap(),
        "html/themes/tech-timeline.html.j2"
    );
}

#[test]
fn unknown_theme_is_refused() {
    let e = html_template_for_theme("Modern").unwrap_err();
    assert_eq!(e.message(), "Unknown theme: Modern");
}

#[test]
fn new_compiler_has_shell_escape_off() {
    for engine in [LatexEngine::Tectonic, LatexEngine::Xelatex, LatexEngine::Latexmk] {
        let c = LatexCompiler::new(engine);
        assert!(!c.shell_escape());
        assert_eq!(c.engine(), engine);
        let args = c.compile_args("out/resume.tex", "out");
        assert!(!args.iter().any(|a| a == "-shell-escape"));
    }
}

#[test]
fn command_lines_per_engine() {
    let t = LatexCompiler::new(LatexEngine::Tectonic);
    assert_eq!(t.program(), "tectonic");
    assert_eq!(t.compile_args("o/resume.tex", "o"), vec!["--outdir", "o", "o/resume.tex"]);
    let x = LatexCompiler::new(LatexEngine::Xelatex);
    assert_eq!(x.program(), "xelatex");
    assert_eq!(
        x.compile_args("o/resume.tex", "o"),
        vec!["-output-directory", "o", "-interaction=nonstopmode", "o/resume.tex"]
    );
    let l = LatexCompiler::new(LatexEngine::Latexmk);
    assert_eq!(l.program(), "latexmk");
    assert_eq!(
        l.compile_args("o/resume.tex", "o"),
        vec!["-pdf", "-interaction=nonstopmode", "-output-directory", "o", "o/resume.tex"]
    );
}

#[test]
fn every_engine_cleans_up() {
    assert!(LatexCompiler::new(LatexEngine::Tectonic).cleans_aux_files());
    assert!(LatexCompiler::new(LatexEngine::Xelatex).cleans_aux_files());
    assert!(LatexCompiler::new(LatexEngine::Latexmk).cleans_aux_files());
    assert_eq!(
        aux_file_names("resume"),
        vec!["resume.aux", "resume.log", "resume.fls", "resume.fdb_latexmk", "resume.out"]
    );
}

#[test]
fn engine_choice_follows_probes() {
    assert_eq!(
        engine_preference(),
        vec![LatexEngine::Tectonic, LatexEngine::Xelatex, LatexEngine::Latexmk]
    );
    assert_eq!(LatexCompiler::from_probes(&vec![true]).engine(), LatexEngine::Tectonic);
    assert_eq!(LatexCompiler::from_probes(&vec![false, true]).engine(), LatexEngine::Xelatex);
    assert_eq!(
        LatexCompiler::from_probes(&vec![false, false, true]).engine(),
        LatexEngine::Latexmk
    );
    assert_eq!(
        LatexCompiler::from_probes(&vec![false, false, false]).engine(),
        LatexEngine::Latexmk
    );
    assert_eq!(LatexCompiler::from_probes(&vec![]).engine(), LatexEngine::Latexmk);
    assert!(!LatexCompiler::from_probes(&vec![true]).shell_escape());
}

#[test]
fn compile_outcomes() {
    let x = LatexCompiler::new(LatexEngine::Xelatex);
    let failed = x.compile_outcome(false, "boom", true, "o/resume.pdf").unwrap_err();
    assert_eq!(failed.message(), "XeLaTeX compilation failed: boom");
    assert!(matches!(failed, CompileError::Failed { engine: LatexEngine::Xelatex, .. }));
    let missing = x.compile_outcome(true, "", false, "o/resume.pdf").unwrap_err();
    assert_eq!(
        missing.message(),
        "LaTeX compiler reported success but PDF was not produced at o/resume.pdf"
    );
    assert_eq!(x.compile_outcome(true, "", true, "o/resume.pdf").unwrap(), "o/resume.pdf");
    let t = LatexCompiler::new(LatexEngine::Tectonic);
    assert_eq!(
        t.compile_outcome(false, "e", false, "p").unwrap_err().message(),
        "Tectonic compilation failed: e"
    );
    let l = LatexCompiler::new(LatexEngine::Latexmk);
    assert_eq!(
        l.compile_outcome(false, "e", false, "p").unwrap_err().message(),
        "Latexmk compilation failed: e"
    );
}

#[test]
fn output_steps_per_format() {
    assert_eq!(output_steps("latex").unwrap(), vec![OutputStep::Latex]);
    assert_eq!(output_steps("HTML").unwrap(), vec![OutputStep::Html]);
    assert_eq!(output_steps("Pdf").unwrap(), vec![OutputStep::Pdf]);
    assert_eq!(output_steps("text").unwrap(), vec![OutputStep::Text]);
    assert_eq!(
        output_steps("ALL").unwrap(),
        vec![OutputStep::Latex, OutputStep::Html, OutputStep::Pdf, OutputStep::AtsText]
    );
    let e = output_steps("docx").unwrap_err();
    assert_eq!(e.message(), "Unsupported format: docx");
    assert_eq!(OutputStep::AtsText.file_name(), Some("resume-ats.txt"));
    assert_eq!(OutputStep::Text.file_name(), Some("resume.txt"));
    assert_eq!(OutputStep::Pdf.file_name(), None);
}
