use ponyfmt::formatter::{format_tree, FormatOptions, Mode};
use ponyfmt::state::FormatterState;
use ponyfmt::text;
use ponyfmt::tree::{classify, NodeKind, SyntaxNode};

fn chars(s: &str) -> Vec<char> {
    s.chars().collect()
}

fn leaf(kind: NodeKind, text: &str) -> SyntaxNode {
    SyntaxNode { kind, text: chars(text), children: Vec::new() }
}

fn node(kind: NodeKind, text: &str, children: Vec<SyntaxNode>) -> SyntaxNode {
    SyntaxNode { kind, text: chars(text), children }
}

fn opts() -> FormatOptions {
    FormatOptions { indent_width: 2, mode: Mode::Stdout }
}

#[test]
fn argument_list_collapses_to_one_line() {
    // An argument list split across lines, with stray spaces and an
    // empty piece, renders comma-space separated on one line.
    let args_text = "(\n  a,\n  b ,c\n)";
    let call = node(
        NodeKind::CallExpression,
        &format!("f{}", args_text),
        vec![leaf(NodeKind::Identifier, "f"), leaf(NodeKind::Arguments, args_text)],
    );
    let out = format_tree(&call, &opts());
    assert_eq!(out, "f(a, b, c)\n");
}

#[test]
fn argument_list_drops_empty_arguments() {
    let call = node(
        NodeKind::CallExpression,
        "f(a,,  ,b)",
        vec![leaf(NodeKind::Identifier, "f"), leaf(NodeKind::Arguments, "(a,,  ,b)")],
    );
    let out = format_tree(&call, &opts());
    assert_eq!(out, "f(a, b)\n");
}

#[test]
fn error_region_with_open_conditional_indents_body() {
    // A malformed region that opens a conditional but never closes it:
    // the body is indented and nothing is fabricated.
    let err = leaf(NodeKind::Error, "if cond then\nbody");
    let out = format_tree(&err, &opts());
    assert_eq!(out, "if cond then\n  body\n");
}

#[test]
fn error_region_with_bare_end_dedents() {
    let root = node(
        NodeKind::Other,
        "",
        vec![leaf(NodeKind::Error, "if cond then\n"), leaf(NodeKind::Error, "end")],
    );
    let out = format_tree(&root, &opts());
    assert_eq!(out, "if cond then\nend\n");
}

#[test]
fn error_region_verbatim_fallback() {
    let err = leaf(NodeKind::Error, "@#! not pony at all");
    let out = format_tree(&err, &opts());
    assert_eq!(out, "@#! not pony at all\n");
}

#[test]
fn unknown_kinds_format_totally() {
    // Totality: any tree shape formats without failure, unrecognised
    // kinds falling back to their children.
    let weird = node(
        NodeKind::Other,
        "",
        vec![
            node(
                NodeKind::Other,
                "",
                vec![leaf(NodeKind::StringLit, "\"deep\""), leaf(NodeKind::Other, "ignored")],
            ),
            leaf(NodeKind::Identifier, "skipped_token"),
        ],
    );
    let out = format_tree(&weird, &opts());
    assert_eq!(out, "\"deep\"\n");
}

#[test]
fn empty_tree_formats_to_one_newline() {
    let out = format_tree(&leaf(NodeKind::SourceFile, ""), &opts());
    assert_eq!(out, "\n");
}

#[test]
fn format_tree_is_deterministic_per_tree() {
    let err = leaf(NodeKind::Error, "if cond then\nbody");
    let a = format_tree(&err, &opts());
    let b = format_tree(&err, &opts());
    assert_eq!(a, b);
}

#[test]
fn indent_width_is_respected() {
    let err = leaf(NodeKind::Error, "if cond then\nbody");
    let wide = FormatOptions { indent_width: 4, mode: Mode::Check };
    let out = format_tree(&err, &wide);
    assert_eq!(out, "if cond then\n    body\n");
}

#[test]
fn classify_maps_grammar_names() {
    assert_eq!(classify(&chars("actor_definition")), NodeKind::ActorDefinition);
    assert_eq!(classify(&chars("class_definition")), NodeKind::ClassDefinition);
    assert_eq!(classify(&chars("ERROR")), NodeKind::Error);
    assert_eq!(classify(&chars("then")), NodeKind::ThenKw);
    assert_eq!(classify(&chars("string")), NodeKind::StringLit);
    assert_eq!(classify(&chars("member_expression")), NodeKind::MemberExpression);
    assert_eq!(classify(&chars("no_such_kind")), NodeKind::Other);
    assert_eq!(classify(&chars("")), NodeKind::Other);
}

#[test]
fn trim_removes_unicode_whitespace() {
    assert_eq!(text::trim(&chars("  a b \n")), chars("a b"));
    assert_eq!(text::trim(&chars("\u{00A0}\u{2003}x\u{3000}")), chars("x"));
    assert_eq!(text::trim(&chars(" \t\r\n ")), Vec::<char>::new());
    assert_eq!(text::trim(&chars("")), Vec::<char>::new());
}

#[test]
fn strip_end_runs_strips_repeated_suffix() {
    assert_eq!(text::strip_end_runs(&chars("xendend")), chars("x"));
    assert_eq!(text::strip_end_runs(&chars("end")), Vec::<char>::new());
    assert_eq!(text::strip_end_runs(&chars("bend")), chars("b"));
    assert_eq!(text::strip_end_runs(&chars("nothing")), chars("nothing"));
}

#[test]
fn find_pattern_finds_first_occurrence() {
    assert_eq!(text::find_pattern(&chars("abcabc"), &chars("ca")), Some(2));
    assert_eq!(text::find_pattern(&chars("abc"), &chars("zz")), None);
    assert_eq!(text::find_pattern(&chars("abc"), &chars("")), Some(0));
}

#[test]
fn short_line_counts_utf8_bytes() {
    // 49 one-byte characters are short; 50 are not.
    let s49: Vec<char> = std::iter::repeat('a').take(49).collect();
    let s50: Vec<char> = std::iter::repeat('a').take(50).collect();
    assert!(text::short_line(&s49));
    assert!(!text::short_line(&s50));
    // 17 three-byte characters make 51 bytes.
    let wide: Vec<char> = std::iter::repeat('\u{3042}').take(17).collect();
    assert!(!text::short_line(&wide));
}

#[test]
fn eq_str_compares_characters() {
    assert!(text::eq_str(&chars("members"), "members"));
    assert!(!text::eq_str(&chars("member"), "members"));
    assert!(!text::eq_str(&chars("memberz"), "members"));
}

#[test]
fn method_short_body_stays_on_arrow_line() {
    let method = node(
        NodeKind::Method,
        "fun name(): String => \"x\"",
        vec![
            leaf(NodeKind::FunKw, "fun"),
            leaf(NodeKind::Identifier, "name"),
            leaf(NodeKind::Parameters, "()"),
            leaf(NodeKind::Colon, ":"),
            leaf(NodeKind::BaseType, "String"),
            leaf(NodeKind::Arrow, "=>"),
            leaf(NodeKind::Block, "\"x\""),
        ],
    );
    let out = format_tree(&method, &opts());
    assert_eq!(out, "fun name(): String => \"x\"\n");
}

#[test]
fn method_long_body_goes_on_indented_line() {
    let body = "env.out.print(\"a long line that is definitely more than fifty bytes\")";
    let method = node(
        NodeKind::Method,
        "",
        vec![
            leaf(NodeKind::FunKw, "fun"),
            leaf(NodeKind::Identifier, "name"),
            leaf(NodeKind::Arrow, "=>"),
            node(
                NodeKind::Block,
                body,
                vec![node(
                    NodeKind::CallExpression,
                    body,
                    vec![
                        leaf(NodeKind::MemberExpression, "env.out.print"),
                        leaf(
                            NodeKind::Arguments,
                            "(\"a long line that is definitely more than fifty bytes\")",
                        ),
                    ],
                )],
            ),
        ],
    );
    let out = format_tree(&method, &opts());
    assert_eq!(
        out,
        "fun name =>\n  env.out.print(\"a long line that is definitely more than fifty bytes\")\n"
    );
}

#[test]
fn use_statement_takes_first_string_child() {
    let use_stmt = node(
        NodeKind::UseStatement,
        "use \"collections\"",
        vec![leaf(NodeKind::Other, "use"), leaf(NodeKind::StringLit, "\"collections\"")],
    );
    let out = format_tree(&use_stmt, &opts());
    assert_eq!(out, "use \"collections\"\n");
}

#[test]
fn trait_members_are_indented() {
    let tr = node(
        NodeKind::TraitDefinition,
        "",
        vec![
            leaf(NodeKind::TraitKw, "trait"),
            leaf(NodeKind::Identifier, "Animal"),
            node(
                NodeKind::Members,
                "",
                vec![node(
                    NodeKind::Method,
                    "",
                    vec![
                        leaf(NodeKind::FunKw, "fun"),
                        leaf(NodeKind::Identifier, "speak"),
                        leaf(NodeKind::Arrow, "=>"),
                        leaf(NodeKind::Block, "None"),
                    ],
                )],
            ),
        ],
    );
    let out = format_tree(&tr, &opts());
    assert_eq!(out, "trait Animal\n  fun speak => None\n");
}

#[test]
fn type_alias_renders_on_one_line() {
    let alias = node(
        NodeKind::TypeAlias,
        "type Color is (Red | Blue)",
        vec![
            leaf(NodeKind::Identifier, "Color"),
            leaf(NodeKind::IsKw, "is"),
            leaf(NodeKind::UnionType, "(Red | Blue)"),
        ],
    );
    let out = format_tree(&alias, &opts());
    assert_eq!(out, "type Color is (Red | Blue)\n");
}

#[test]
fn field_renders_with_spaced_annotations() {
    let field = node(
        NodeKind::Field,
        "let x:U32",
        vec![
            leaf(NodeKind::LetKw, "let"),
            leaf(NodeKind::Identifier, "x"),
            leaf(NodeKind::Colon, ":"),
            leaf(NodeKind::BaseType, "U32"),
        ],
    );
    let out = format_tree(&field, &opts());
    assert_eq!(out, "let x: U32\n");
}

#[test]
fn blank_line_inserted_by_adjacency_table() {
    let root = node(
        NodeKind::SourceFile,
        "",
        vec![
            node(
                NodeKind::PrimitiveDefinition,
                "primitive Red",
                vec![leaf(NodeKind::PrimitiveKw, "primitive"), leaf(NodeKind::Identifier, "Red")],
            ),
            node(
                NodeKind::ClassDefinition,
                "class Painter",
                vec![leaf(NodeKind::ClassKw, "class"), leaf(NodeKind::Identifier, "Painter")],
            ),
        ],
    );
    let out = format_tree(&root, &opts());
    assert_eq!(out, "primitive Red\n\nclass Painter\n");
}

#[test]
fn consecutive_use_statements_get_no_blank_line() {
    let use_node = |name: &str| {
        node(
            NodeKind::UseStatement,
            "",
            vec![leaf(NodeKind::StringLit, name)],
        )
    };
    let root = node(
        NodeKind::SourceFile,
        "",
        vec![use_node("\"collections\""), use_node("\"time\"")],
    );
    let out = format_tree(&root, &opts());
    assert_eq!(out, "use \"collections\"\nuse \"time\"\n");
}

#[test]
fn simple_assignment_run_collapses_to_one_line() {
    let block = node(
        NodeKind::Block,
        "",
        vec![
            leaf(NodeKind::AssignmentExpression, "x = 1"),
            leaf(NodeKind::Semicolon, ";"),
            leaf(NodeKind::AssignmentExpression, "y = 2"),
        ],
    );
    let out = format_tree(&block, &opts());
    assert_eq!(out, "x = 1; y = 2\n");
}

#[test]
fn assignment_with_simple_value_block() {
    let asgn = node(
        NodeKind::AssignmentExpression,
        "let x = 42",
        vec![
            leaf(NodeKind::VariableDeclaration, "let x"),
            leaf(NodeKind::EqSign, "="),
            node(NodeKind::Block, "42", vec![leaf(NodeKind::Number, "42")]),
        ],
    );
    let out = format_tree(&asgn, &opts());
    assert_eq!(out, "let x = 42\n");
}

#[test]
fn structured_conditional_layout() {
    let cond = node(
        NodeKind::IfStatement,
        "",
        vec![
            node(
                NodeKind::IfBlock,
                "",
                vec![leaf(NodeKind::IfKw, "if"), leaf(NodeKind::Block, "true")],
            ),
            node(
                NodeKind::ThenBlock,
                "",
                vec![
                    leaf(NodeKind::ThenKw, "then"),
                    node(
                        NodeKind::Block,
                        "",
                        vec![node(
                            NodeKind::CallExpression,
                            "",
                            vec![
                                leaf(NodeKind::MemberExpression, "env.out.print"),
                                leaf(NodeKind::Arguments, "(\"yes\")"),
                            ],
                        )],
                    ),
                ],
            ),
            leaf(NodeKind::EndKw, "end"),
        ],
    );
    let out = format_tree(&cond, &opts());
    assert_eq!(out, "if true then\n  env.out.print(\"yes\")\nend\n");
}

#[test]
fn formatter_state_tracks_lines_and_indent() {
    let mut st = FormatterState::new();
    let o = opts();
    st.write_str("a");
    st.write_blank_line();
    st.increase_indent();
    st.write_indent(&o);
    st.write_str("b");
    st.decrease_indent();
    let text: String = st.output.iter().collect();
    assert_eq!(text, "a\n\n  b");
    assert_eq!(st.indent_level, 0);
}

#[test]
fn output_mode_does_not_change_the_text() {
    let err = leaf(NodeKind::Error, "if cond then\nbody");
    let stdout = FormatOptions { indent_width: 2, mode: Mode::Stdout };
    let write = FormatOptions { indent_width: 2, mode: Mode::Write };
    let check = FormatOptions { indent_width: 2, mode: Mode::Check };
    let a = format_tree(&err, &stdout);
    let b = format_tree(&err, &write);
    let c = format_tree(&err, &check);
    assert_eq!(a, b);
    assert_eq!(b, c);
}

#[test]
fn no_blank_line_between_primitive_and_line_comment() {
    let root = node(
        NodeKind::SourceFile,
        "",
        vec![
            node(
                NodeKind::PrimitiveDefinition,
                "primitive Red",
                vec![leaf(NodeKind::PrimitiveKw, "primitive"), leaf(NodeKind::Identifier, "Red")],
            ),
            leaf(NodeKind::LineComment, "// colors"),
        ],
    );
    let out = format_tree(&root, &opts());
    assert_eq!(out, "primitive Red\n// colors\n");
}

#[test]
fn no_blank_line_between_trait_and_line_comment() {
    let root = node(
        NodeKind::SourceFile,
        "",
        vec![
            node(
                NodeKind::TraitDefinition,
                "",
                vec![
                    leaf(NodeKind::TraitKw, "trait"),
                    leaf(NodeKind::Identifier, "Animal"),
                    node(
                        NodeKind::Members,
                        "",
                        vec![node(
                            NodeKind::Method,
                            "",
                            vec![
                                leaf(NodeKind::FunKw, "fun"),
                                leaf(NodeKind::Identifier, "speak"),
                                leaf(NodeKind::Arrow, "=>"),
                                leaf(NodeKind::Block, "None"),
                            ],
                        )],
                    ),
                ],
            ),
            leaf(NodeKind::LineComment, "// animals"),
        ],
    );
    let out = format_tree(&root, &opts());
    assert_eq!(out, "trait Animal\n  fun speak => None\n// animals\n");
}

#[test]
fn blank_line_between_class_and_line_comment() {
    let root = node(
        NodeKind::SourceFile,
        "",
        vec![
            node(
                NodeKind::ClassDefinition,
                "class Painter",
                vec![leaf(NodeKind::ClassKw, "class"), leaf(NodeKind::Identifier, "Painter")],
            ),
            leaf(NodeKind::LineComment, "// note"),
        ],
    );
    let out = format_tree(&root, &opts());
    assert_eq!(out, "class Painter\n\n// note\n");
}
