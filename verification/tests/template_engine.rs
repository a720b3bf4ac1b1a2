use jsonresume_builder::templates::engine::escape_latex_str;

#[test]
fn plain_ascii_unchanged() {
    let input = "Hello World 123 abc XYZ";
    assert_eq!(escape_latex_str(input), input);
}

#[test]
fn each_special_char_is_escaped() {
    let cases: &[(&str, &str)] = &[
        // \ is replaced by \textbackslash{}, then { and } in that
        // replacement are themselves escaped → \textbackslash\{\}
        ("\\", "\\textbackslash\\{\\}"),
        ("&", "\\&"),
        ("%", "\\%"),
        ("$", "\\$"),
        ("#", "\\#"),
        ("_", "\\_"),
        ("{", "\\{"),
        ("}", "\\}"),
        // ~ and ^ are replaced AFTER { and }, so their {} are not re-escaped
        ("~", "\\textasciitilde{}"),
        ("^", "\\textasciicircum{}"),
    ];
    for (input, expected) in cases {
        assert_eq!(
            &escape_latex_str(input),
            expected,
            "Failed for char: {:?}",
            input
        );
    }
}
