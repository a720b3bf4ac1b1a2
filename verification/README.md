# jsonresume_builder

A JSON Resume builder whose core is verified with Verus: the resume model,
the validation rules (schema, content quality, ATS checks), keyword
extraction and ranking, LaTeX escaping, the choice of templates, and the
decisions around LaTeX compilation each carry a contract that Verus proves.

## Layout

- `src/` — the verified library.
  - `models/resume.rs` — the JSON Resume types, the required-field check and
    keyword extraction.
  - `keywords.rs` — ranking keywords by how often they occur.
  - `validation/resume_validator.rs` — the validator; `validation/rules.rs`
    states what each report holds; `validation/patterns.rs` holds the regular
    expressions and the calls into the `regex` crate.
  - `templates/engine.rs` — LaTeX escaping and the template for each output.
  - `utils/latex.rs` — engine choice, command lines, auxiliary files and the
    meaning of a compiler run.
  - `text.rs` — character-level helpers on strings.
- `app/` — the command-line program: argument parsing, reading and writing
  files, JSON (de)serialisation, Tera rendering and running LaTeX.
- `tests/` — tests of the library.

The outside calls that the library makes (the `regex` crate, and a few std
functions whose results depend on Unicode tables) are behind small trusted
wrappers in `validation/patterns.rs` and `text.rs`; every other function is
verified.
