use forge_fmt::text::{count_newlines_between, join_items, lex_le_str, make_spaces, sort_strings, trim_end_str};
use forge_fmt::{
    ContractDefinition, ContractPart, ContractTy, DocComment, EnumDefinition, Formatter,
    FormatterConfig, FunctionDefinition, FunctionTy, ImportRename, Loc, SourceUnit, SourceUnitPart,
    VariableDefinition,
};

fn config(line_length: usize, bracket_spacing: bool) -> FormatterConfig {
    FormatterConfig { line_length, tab_width: 4, bracket_spacing }
}

fn span(src: &str, text: &str) -> Loc {
    let start = src.find(text).unwrap();
    Loc { start, end: start + text.len() }
}

fn run(src: &str, parts: Vec<SourceUnitPart>, config: FormatterConfig) -> String {
    forge_fmt::format(src.to_string(), &SourceUnit { parts }, config).unwrap()
}

fn enum_def(name: &str, values: &[&str]) -> EnumDefinition {
    EnumDefinition {
        loc: Loc { start: 0, end: 0 },
        name: name.to_string(),
        values: values.iter().map(|v| v.to_string()).collect(),
    }
}

fn renames(names: &[(&str, Option<&str>)]) -> Vec<ImportRename> {
    names
        .iter()
        .map(|(n, a)| ImportRename { name: n.to_string(), alias: a.map(|a| a.to_string()) })
        .collect()
}

fn contract(src: &str, name: &str, bases: &[&str], parts: Vec<ContractPart>) -> ContractDefinition {
    ContractDefinition {
        loc: Loc { start: 0, end: src.len() },
        doc: vec![],
        ty: ContractTy::Contract,
        name: name.to_string(),
        base: bases.iter().map(|b| span(src, b)).collect(),
        parts,
    }
}

#[test]
fn default_config_values() {
    let c = FormatterConfig::default();
    assert_eq!(c.line_length, 80);
    assert_eq!(c.tab_width, 4);
    assert!(!c.bracket_spacing);
}

#[test]
fn pragma_solidity_range_is_normalized_or_kept() {
    let value = ">=0.8.0 <0.9.0";
    let out = run("", vec![SourceUnitPart::Pragma {
        loc: Loc { start: 0, end: 0 },
        name: "solidity".to_string(),
        value: value.to_string(),
    }], FormatterConfig::default());
    let expected_value = match semver::VersionReq::parse(value) {
        Ok(r) => r.to_string(),
        Err(_) => value.to_string(),
    };
    assert_eq!(out, format!("pragma solidity{};\n", expected_value));
}

#[test]
fn pragma_solidity_space_separated_range_is_kept_verbatim() {
    let out = run("", vec![SourceUnitPart::Pragma {
        loc: Loc { start: 0, end: 0 },
        name: "solidity".to_string(),
        value: ">=0.8.0 <0.9.0".to_string(),
    }], FormatterConfig::default());
    assert_eq!(out, "pragma solidity>=0.8.0 <0.9.0;\n");
}

#[test]
fn pragma_solidity_bare_version_gets_canonical_form() {
    let out = run("", vec![SourceUnitPart::Pragma {
        loc: Loc { start: 0, end: 0 },
        name: "solidity".to_string(),
        value: "0.8.0".to_string(),
    }], FormatterConfig::default());
    assert_eq!(out, "pragma solidity^0.8.0;\n");
}

#[test]
fn pragma_solidity_comma_range() {
    let out = run("", vec![SourceUnitPart::Pragma {
        loc: Loc { start: 0, end: 0 },
        name: "solidity".to_string(),
        value: ">=0.8.0,<0.9.0".to_string(),
    }], FormatterConfig::default());
    assert_eq!(out, "pragma solidity>=0.8.0, <0.9.0;\n");
}

#[test]
fn pragma_unparseable_range_is_kept() {
    let out = run("", vec![SourceUnitPart::Pragma {
        loc: Loc { start: 0, end: 0 },
        name: "solidity".to_string(),
        value: "not a version".to_string(),
    }], FormatterConfig::default());
    assert_eq!(out, "pragma soliditynot a version;\n");
}

#[test]
fn pragma_other_name_is_verbatim() {
    let out = run("", vec![SourceUnitPart::Pragma {
        loc: Loc { start: 0, end: 0 },
        name: "experimental".to_string(),
        value: "0.8.0".to_string(),
    }], FormatterConfig::default());
    assert_eq!(out, "pragma experimental0.8.0;\n");
}

#[test]
fn import_renames_sorted_on_one_line() {
    let out = run("", vec![SourceUnitPart::ImportRenames {
        loc: Loc { start: 0, end: 0 },
        imports: renames(&[("B", None), ("A", None)]),
        from: "x.sol".to_string(),
    }], FormatterConfig::default());
    assert_eq!(out, "import {A, B} from \"x.sol\";\n");
}

#[test]
fn import_renames_with_alias_and_bracket_spacing() {
    let out = run("", vec![SourceUnitPart::ImportRenames {
        loc: Loc { start: 0, end: 0 },
        imports: renames(&[("c", Some("d")), ("a", None)]),
        from: "y.sol".to_string(),
    }], config(80, true));
    assert_eq!(out, "import { a, c as d } from \"y.sol\";\n");
}

#[test]
fn import_renames_exploded_when_too_wide() {
    let out = run("", vec![SourceUnitPart::ImportRenames {
        loc: Loc { start: 0, end: 0 },
        imports: renames(&[("Gamma", None), ("Alpha", None), ("Beta", None)]),
        from: "z.sol".to_string(),
    }], config(20, false));
    assert_eq!(out, "import {\n    Alpha,\n    Beta,\n    Gamma\n} from \"z.sol\";\n");
}

#[test]
fn import_list_order_does_not_matter() {
    let one = run("", vec![SourceUnitPart::ImportRenames {
        loc: Loc { start: 0, end: 0 },
        imports: renames(&[("z", None), ("m", Some("n")), ("a", None)]),
        from: "p.sol".to_string(),
    }], FormatterConfig::default());
    let other = run("", vec![SourceUnitPart::ImportRenames {
        loc: Loc { start: 0, end: 0 },
        imports: renames(&[("a", None), ("z", None), ("m", Some("n"))]),
        from: "p.sol".to_string(),
    }], FormatterConfig::default());
    assert_eq!(one, other);
    assert_eq!(one, "import {a, m as n, z} from \"p.sol\";\n");
}

#[test]
fn empty_import_list_uses_empty_brackets() {
    let spaced = run("", vec![SourceUnitPart::ImportRenames {
        loc: Loc { start: 0, end: 0 },
        imports: vec![],
        from: "x".to_string(),
    }], config(80, true));
    assert_eq!(spaced, "import { } from \"x\";\n");
    let tight = run("", vec![SourceUnitPart::ImportRenames {
        loc: Loc { start: 0, end: 0 },
        imports: vec![],
        from: "x".to_string(),
    }], config(80, false));
    assert_eq!(tight, "import {} from \"x\";\n");
}

#[test]
fn import_plain_and_global() {
    let out = run("", vec![
        SourceUnitPart::ImportPlain { loc: Loc { start: 0, end: 0 }, path: "a.sol".to_string() },
        SourceUnitPart::ImportGlobal {
            loc: Loc { start: 0, end: 0 },
            path: "b.sol".to_string(),
            alias: "B".to_string(),
        },
    ], FormatterConfig::default());
    assert_eq!(out, "import \"a.sol\";\nimport \"b.sol\" as B;\n");
}

#[test]
fn contract_with_six_long_bases_explodes() {
    let names = [
        "FirstVeryLongBaseName",
        "SecondVeryLongBaseName",
        "ThirdVeryLongBaseName",
        "FourthVeryLongBaseName",
        "FifthVeryLongBaseName",
        "SixthVeryLongBaseName",
    ];
    let src = format!("contract Foo is {} {{}}", names.join(", "));
    let c = contract(&src, "Foo", &names, vec![]);
    let out = run(&src, vec![SourceUnitPart::Contract(c)], FormatterConfig::default());
    let mut expected = String::from("contract Foo is\n");
    for (i, n) in names.iter().enumerate() {
        expected.push_str("    ");
        expected.push_str(n);
        if i != names.len() - 1 {
            expected.push(',');
        }
        expected.push('\n');
    }
    expected.push_str("{}\n");
    assert_eq!(out, expected);
}

#[test]
fn contract_with_short_bases_stays_on_one_line() {
    let src = "contract Foo is A, B {}";
    let c = contract(src, "Foo", &["A", "B"], vec![]);
    let out = run(src, vec![SourceUnitPart::Contract(c)], FormatterConfig::default());
    assert_eq!(out, "contract Foo is A, B {}\n");
}

#[test]
fn empty_enum_with_bracket_spacing() {
    let out = run("", vec![SourceUnitPart::Enum(enum_def("E", &[]))], config(80, true));
    assert_eq!(out, "enum E { }\n");
}

#[test]
fn empty_enum_without_bracket_spacing() {
    let out = run("", vec![SourceUnitPart::Enum(enum_def("E", &[]))], config(80, false));
    assert_eq!(out, "enum E {}\n");
}

#[test]
fn empty_contract_follows_bracket_spacing() {
    let src = "contract C {}";
    let spaced = run(src, vec![SourceUnitPart::Contract(contract(src, "C", &[], vec![]))], config(80, true));
    assert_eq!(spaced, "contract C { }\n");
    let tight = run(src, vec![SourceUnitPart::Contract(contract(src, "C", &[], vec![]))], config(80, false));
    assert_eq!(tight, "contract C {}\n");
}

#[test]
fn enum_values_one_per_line() {
    let out = run("", vec![SourceUnitPart::Enum(enum_def("Color", &["Red", "Green", "Blue"]))], FormatterConfig::default());
    assert_eq!(out, "enum Color {\n    Red,\n    Green,\n    Blue\n}\n");
}

fn two_vars(gap: &str) -> String {
    let src = format!("contract C {{\n    uint a;{}    uint b;\n}}", gap);
    let a = span(&src, "uint a");
    let b = span(&src, "uint b");
    let c = contract(&src, "C", &[], vec![
        ContractPart::Variable(VariableDefinition { loc: a }),
        ContractPart::Variable(VariableDefinition { loc: b }),
    ]);
    run(&src, vec![SourceUnitPart::Contract(c)], FormatterConfig::default())
}

#[test]
fn members_without_blank_line_stay_together() {
    assert_eq!(two_vars("\n"), "contract C {\n    uint a;\n    uint b;\n}\n");
}

#[test]
fn line_breaks_after_the_closing_semicolon_count() {
    assert_eq!(two_vars("\n\n"), "contract C {\n    uint a;\n\n    uint b;\n}\n");
    assert_eq!(two_vars("\n\n\n\n\n"), "contract C {\n    uint a;\n\n    uint b;\n}\n");
}

fn two_enums(gap: &str) -> String {
    let src = format!("contract C {{\n    enum A {{}}{}    enum B {{}}\n}}", gap);
    let a_start = src.find("enum A").unwrap();
    let b_start = src.find("enum B").unwrap();
    let a = EnumDefinition {
        loc: Loc { start: a_start, end: a_start + "enum A {}".len() },
        name: "A".to_string(),
        values: vec![],
    };
    let b = EnumDefinition {
        loc: Loc { start: b_start, end: b_start + "enum B {}".len() },
        name: "B".to_string(),
        values: vec![],
    };
    let c = contract(&src, "C", &[], vec![ContractPart::Enum(a), ContractPart::Enum(b)]);
    run(&src, vec![SourceUnitPart::Contract(c)], FormatterConfig::default())
}

#[test]
fn one_blank_line_between_members_is_dropped() {
    assert_eq!(two_enums("\n"), "contract C {\n    enum A {}\n    enum B {}\n}\n");
    assert_eq!(two_enums("\n\n"), "contract C {\n    enum A {}\n    enum B {}\n}\n");
}

#[test]
fn two_blank_lines_between_members_become_one() {
    assert_eq!(two_enums("\n\n\n"), "contract C {\n    enum A {}\n\n    enum B {}\n}\n");
    assert_eq!(two_enums("\n\n\n\n\n"), "contract C {\n    enum A {}\n\n    enum B {}\n}\n");
}

#[test]
fn functions_with_docs_body_and_constructor() {
    let src = "contract C {\n    constructor()   {}\n    function f() public;\n    function g() { x(); }\n}";
    let ctor = FunctionDefinition {
        loc: span(src, "constructor()   "),
        doc: vec![DocComment { tag: "notice".to_string(), value: "builds it".to_string() }],
        ty: FunctionTy::Constructor,
        body: Some(span(src, "{}")),
    };
    let f = FunctionDefinition {
        loc: span(src, "function f() public"),
        doc: vec![],
        ty: FunctionTy::Function,
        body: None,
    };
    let g = FunctionDefinition {
        loc: span(src, "function g()"),
        doc: vec![],
        ty: FunctionTy::Function,
        body: Some(span(src, "{ x(); }")),
    };
    let c = contract(src, "C", &[], vec![
        ContractPart::Function(ctor),
        ContractPart::Function(f),
        ContractPart::Function(g),
    ]);
    let out = run(src, vec![SourceUnitPart::Contract(c)], FormatterConfig::default());
    assert_eq!(
        out,
        "contract C {\n    /// @notice builds it\n    constructor() {}\n    function f() public;\n    function g() { x(); }\n}\n"
    );
}

#[test]
fn constructor_span_ending_in_line_break_is_indented_once() {
    let src = "contract C {\n    constructor()\n{}\n}";
    let start = src.find("constructor").unwrap();
    let ctor = FunctionDefinition {
        loc: Loc { start, end: start + "constructor()\n".len() },
        doc: vec![],
        ty: FunctionTy::Constructor,
        body: Some(span(src, "{}")),
    };
    let c = contract(src, "C", &[], vec![ContractPart::Function(ctor)]);
    let out = run(src, vec![SourceUnitPart::Contract(c)], FormatterConfig::default());
    assert_eq!(out, "contract C {\n    constructor() {}\n}\n");
}

#[test]
fn top_level_blank_lines() {
    let src = "uint x;";
    let out = run(src, vec![
        SourceUnitPart::Pragma {
            loc: Loc { start: 0, end: 0 },
            name: "abicoder".to_string(),
            value: " v2".to_string(),
        },
        SourceUnitPart::ImportPlain { loc: Loc { start: 0, end: 0 }, path: "a.sol".to_string() },
        SourceUnitPart::ImportPlain { loc: Loc { start: 0, end: 0 }, path: "b.sol".to_string() },
        SourceUnitPart::Enum(enum_def("E", &[])),
        SourceUnitPart::Variable(VariableDefinition { loc: span(src, "uint x") }),
    ], FormatterConfig::default());
    assert_eq!(
        out,
        "pragma abicoder v2;\n\nimport \"a.sol\";\nimport \"b.sol\";\n\nenum E {}\n\nuint x;\n"
    );
}

#[test]
fn span_outside_source_is_refused() {
    let unit = SourceUnit {
        parts: vec![SourceUnitPart::Variable(VariableDefinition { loc: Loc { start: 2, end: 9 } })],
    };
    assert!(forge_fmt::format("abc".to_string(), &unit, FormatterConfig::default()).is_none());
    let reversed = SourceUnit {
        parts: vec![SourceUnitPart::Variable(VariableDefinition { loc: Loc { start: 2, end: 1 } })],
    };
    assert!(forge_fmt::format("abc".to_string(), &reversed, FormatterConfig::default()).is_none());
}

#[test]
fn writer_indents_pending_lines() {
    let mut f = Formatter::new(String::new(), FormatterConfig::default());
    f.indent(2);
    f.write_str("a\n\nb");
    assert_eq!(f.output(), "        a\n\n        b");
    f.write_str(" c\n");
    f.dedent(5);
    assert_eq!(f.level(), 0);
    f.write_str("d");
    assert_eq!(f.output(), "        a\n\n        b c\nd");
    assert_eq!(f.len_indented_with_current("xyz"), 4);
}

#[test]
fn writer_width_counts_pending_indentation() {
    let mut f = Formatter::new(String::new(), config(12, false));
    f.indent(1);
    assert_eq!(f.len_indented_with_current("ab"), 6);
    let items = vec!["abc".to_string(), "def".to_string()];
    assert!(!f.is_separated_multiline(&items, ", "));
    f.write_str("12345");
    assert!(f.is_separated_multiline(&items, ", "));
}

#[test]
fn writer_separated_multiline() {
    let mut f = Formatter::new(String::new(), FormatterConfig::default());
    let items = vec!["a".to_string(), "b".to_string()];
    f.write_separated(&items, ", ", true);
    assert_eq!(f.output(), "a,\nb");
}

#[test]
fn capture_leaves_state_untouched() {
    let src = "hello world";
    let mut f = Formatter::new(src.to_string(), FormatterConfig::default());
    f.indent(1);
    let s = f.visit_to_string(Loc { start: 6, end: 11 });
    assert_eq!(s, "    world");
    assert_eq!(f.output(), "");
    assert_eq!(f.len_indented_with_current("ab"), 2);
    f.write_str("x");
    assert_eq!(f.output(), "x");
    let t = f.visit_to_string(Loc { start: 0, end: 5 });
    assert_eq!(t, "hello");
    assert_eq!(f.len_indented_with_current("ab"), 3);
}

#[test]
fn capture_ending_in_line_break_leaves_an_empty_line() {
    let src = "ab\n";
    let mut f = Formatter::new(src.to_string(), FormatterConfig::default());
    f.write_str("xyz");
    let t = f.visit_to_string(Loc { start: 0, end: 3 });
    assert_eq!(t, "ab\n");
    assert_eq!(f.output(), "xyz");
    assert_eq!(f.len_indented_with_current("q"), 1);
}

#[test]
fn brackets_follow_config() {
    let mut f = Formatter::new(String::new(), config(80, true));
    f.write_opening_bracket();
    f.write_closing_bracket();
    f.write_empty_brackets();
    assert_eq!(f.output(), "{  }{ }");
}

#[test]
fn text_helpers() {
    assert_eq!(make_spaces(3), "   ");
    assert_eq!(join_items(&vec!["a".to_string(), "b".to_string(), "c".to_string()], ", "), "a, b, c");
    assert_eq!(trim_end_str("ab \t\n"), "ab");
    assert_eq!(trim_end_str("ab\u{3000}"), "ab");
    assert!(lex_le_str("ab", "abc"));
    assert!(!lex_le_str("b", "abc"));
    assert!(lex_le_str("B", "a"));
    assert_eq!(count_newlines_between("a\n\nb\n", 1, 4), 2);
    assert_eq!(count_newlines_between("a\n\nb\n", 4, 1), 0);
    let sorted = sort_strings(&vec!["b".to_string(), "a as z".to_string(), "C".to_string(), "a".to_string()]);
    assert_eq!(sorted, vec!["C", "a", "a as z", "b"]);
}
