use pest::Input;
use tsqlust::ast::{
    ColumnNameList, CreateTableStatement, Expression, Identifier, Keyword, Literal, Node, Position,
    SelectStatement, Token, TopStatement,
};
use tsqlust::diagnostics::{Context, Diagnostic, DiagnosticType};
use tsqlust::grammar::Rule;
use tsqlust::parser::{Rdp, StringInput};
use tsqlust::repl::{command_for_line, evaluate_repl_input, repl_input_is_buildable, ReplCommand, ReplOutput};
use tsqlust::visitor::Visitor;
use tsqlust::visitors::{same_line_diagnostics_for_tsql, SameLineTopStmtParens};
use tsqlust::{get_diagnostics_for_tsql, parse_tsql_select, select_is_buildable, tsql_is_buildable};

fn ident(line: usize, col: usize, v: &str) -> Node<Identifier> {
    Node { pos: Position { line, col }, tnode: Identifier { value: v.to_string() } }
}

#[test]
fn position_default_is_line_1_col_1() {
    assert_eq!(Position::default(), Position { line: 1, col: 1 });
}

#[test]
fn position_from_and_to_pair_round_trip() {
    let p = Position::from((7, 3));
    assert_eq!(p, Position { line: 7, col: 3 });
    assert_eq!(p.to_pair(), (7, 3));
    assert_eq!(Position::from(p.to_pair()), p);
}

#[test]
fn context_returns_diagnostics_in_order() {
    let mut ctx = Context::new();
    assert!(Context::new().get_diagnostics().is_empty());
    ctx.add_diagnostic(Diagnostic { code: "A".into(), pos: Position { line: 1, col: 2 }, message: "first".into() });
    ctx.add_diagnostic(Diagnostic { code: "B".into(), pos: Position { line: 3, col: 4 }, message: "second".into() });
    let diags = ctx.get_diagnostics();
    assert_eq!(diags.len(), 2);
    assert_eq!(diags[0].code, "A");
    assert_eq!(diags[0].message, "first");
    assert_eq!(diags[1].code, "B");
    assert_eq!(diags[1].pos, Position { line: 3, col: 4 });
}

#[test]
fn diagnostic_types_differ() {
    assert_ne!(DiagnosticType::Warning, DiagnosticType::Error);
}

#[test]
fn readme_select_top_5_tree() {
    let node = parse_tsql_select("SELECT TOP (5) Id,FirstName,   LastName   ,* FROM MyTable").unwrap();
    let expected = Node {
        pos: Position { line: 1, col: 1 },
        tnode: SelectStatement {
            top_statement: Some(Node {
                pos: Position { line: 1, col: 8 },
                tnode: TopStatement {
                    top_keyword: Node { pos: Position { line: 1, col: 8 }, tnode: Keyword::Top },
                    expr: Node {
                        pos: Position { line: 1, col: 13 },
                        tnode: Expression::Literal { lit: Literal::Int(5) },
                    },
                    paren_open: Some(Node { pos: Position { line: 1, col: 12 }, tnode: Token::ParenOpen }),
                    paren_close: Some(Node { pos: Position { line: 1, col: 14 }, tnode: Token::ParenClose }),
                },
            }),
            column_name_list: Node {
                pos: Position { line: 1, col: 16 },
                tnode: ColumnNameList {
                    identifiers: vec![
                        ident(1, 16, "Id"),
                        ident(1, 19, "FirstName"),
                        ident(1, 32, "LastName"),
                        ident(1, 44, "*"),
                    ],
                },
            },
            table_identifier: ident(1, 51, "MyTable"),
        },
    };
    assert_eq!(node, expected);
}

#[test]
fn readme_repl_prints_select_tree() {
    match evaluate_repl_input("SELECT TOP (5) Id,FirstName,   LastName   ,* FROM MyTable") {
        ReplOutput::Select(n) => {
            assert_eq!(n.tnode.table_identifier, ident(1, 51, "MyTable"));
            assert_eq!(n.tnode.column_name_list.tnode.identifiers.len(), 4);
        }
        _ => panic!("expected a SELECT tree"),
    }
}

#[test]
fn repl_other_rules_and_top() {
    assert!(matches!(evaluate_repl_input("MyTable"), ReplOutput::Other(Rule::identifier)));
    assert!(matches!(evaluate_repl_input("_"), ReplOutput::Other(Rule::identifier)));
    assert!(matches!(evaluate_repl_input("42"), ReplOutput::Other(Rule::expr)));
    assert!(matches!(evaluate_repl_input("true"), ReplOutput::Other(Rule::literal)));
    assert!(matches!(evaluate_repl_input("CREATE TABLE t"), ReplOutput::Other(Rule::stmt_create_table)));
    assert!(matches!(evaluate_repl_input("("), ReplOutput::Nothing));
    match evaluate_repl_input("TOP 3") {
        ReplOutput::Top(Some(n)) => {
            assert!(n.tnode.is_legacy());
            assert_eq!(n.tnode.expr.tnode, Expression::Literal { lit: Literal::Int(3) });
        }
        _ => panic!("expected a TOP tree"),
    }
    match evaluate_repl_input("TOP (3)") {
        ReplOutput::Top(Some(n)) => assert!(!n.tnode.is_legacy()),
        _ => panic!("expected a TOP tree"),
    }
}

#[test]
fn parse_tsql_select_error() {
    assert_eq!(parse_tsql_select("DELETE FROM t").unwrap_err(), "Failed to parse SELECT statement.");
    assert_eq!(parse_tsql_select(" SELECT * FROM t").unwrap_err(), "Failed to parse SELECT statement.");
    // A SELECT statement may be followed by anything.
    assert!(parse_tsql_select("SELECT * FROM t ;;").is_ok());
}

#[test]
fn keywords_ignore_case() {
    let n = parse_tsql_select("select ToP (1) a FrOm t").unwrap();
    assert!(n.tnode.top_statement.is_some());
    assert_eq!(n.tnode.table_identifier, ident(1, 23, "t"));
}

#[test]
fn get_diagnostics_error_trailing_text() {
    let mut vis = SameLineTopStmtParens {};
    let err = get_diagnostics_for_tsql("SELECT * FROM t x", &mut vis).unwrap_err();
    assert_eq!(err.0, "[]");
    assert_eq!(err.1, "([eoi, kw_where], 16)");
}

#[test]
fn get_diagnostics_error_empty_input() {
    let mut vis = SameLineTopStmtParens {};
    let err = get_diagnostics_for_tsql("", &mut vis).unwrap_err();
    assert_eq!(err, ("[]".to_string(), "([kw_select], 0)".to_string()));
}

#[test]
fn get_diagnostics_error_missing_table() {
    let mut vis = SameLineTopStmtParens {};
    let err = get_diagnostics_for_tsql("SELECT a, b FROM", &mut vis).unwrap_err();
    assert_eq!(err.1, "([identifier], 16)");
}

struct CountingVisitor {
    selects: usize,
    tops: usize,
    lists: usize,
}

impl Visitor for CountingVisitor {
    fn visit_select_statement(&mut self, ctx: &mut Context, node: &Node<SelectStatement>) {
        self.selects += 1;
        ctx.add_diagnostic(Diagnostic { code: "S".into(), pos: node.pos, message: String::new() });
    }
    fn visit_top_statement(&mut self, ctx: &mut Context, node: &Node<TopStatement>) {
        self.tops += 1;
        ctx.add_diagnostic(Diagnostic { code: "T".into(), pos: node.pos, message: String::new() });
    }
    fn visit_column_name_list(&mut self, ctx: &mut Context, node: &Node<ColumnNameList>) {
        self.lists += 1;
        ctx.add_diagnostic(Diagnostic { code: "C".into(), pos: node.pos, message: String::new() });
    }
}

#[test]
fn get_diagnostics_visits_in_order() {
    let mut vis = CountingVisitor { selects: 0, tops: 0, lists: 0 };
    let diags = get_diagnostics_for_tsql("SELECT TOP 2 a FROM t  \n", &mut vis).unwrap();
    let codes: Vec<&str> = diags.iter().map(|d| d.code.as_str()).collect();
    assert_eq!(codes, vec!["S", "T", "C"]);
    assert_eq!(diags[2].pos, Position { line: 1, col: 14 });
    let mut vis = CountingVisitor { selects: 0, tops: 0, lists: 0 };
    let diags = get_diagnostics_for_tsql("SELECT a FROM t WHERE 1 = 2", &mut vis).unwrap();
    assert_eq!(diags.len(), 2);
    assert_eq!(vis.tops, 0);
}

#[test]
fn same_line_parens_reports_split_top() {
    let diags = same_line_diagnostics_for_tsql("SELECT TOP (10\n) * FROM t").unwrap();
    assert_eq!(diags.len(), 1);
    assert_eq!(diags[0].code, "PH0004");
    assert_eq!(diags[0].pos, Position { line: 2, col: 1 });
    assert_eq!(diags[0].message, "Closing paren must be on the same line as the opening paren");

    let mut vis = SameLineTopStmtParens {};
    let diags = get_diagnostics_for_tsql("SELECT TOP (10\n) * FROM t", &mut vis).unwrap();
    assert_eq!(diags.len(), 1);
}

#[test]
fn same_line_parens_quiet_cases() {
    assert!(same_line_diagnostics_for_tsql("SELECT TOP (10) * FROM t").unwrap().is_empty());
    assert!(same_line_diagnostics_for_tsql("SELECT TOP\n10 * FROM t").unwrap().is_empty());
    assert!(same_line_diagnostics_for_tsql("SELECT * FROM t").unwrap().is_empty());
    assert!(same_line_diagnostics_for_tsql("SELECT").is_err());
}

#[test]
fn buildable_checks() {
    assert!(tsql_is_buildable("SELECT TOP (10) * FROM t"));
    assert!(!tsql_is_buildable("SELECT TOP (10) PERCENT * FROM t"));
    assert!(!tsql_is_buildable("SELECT TOP 10 PERCENT * FROM t"));
    assert!(!tsql_is_buildable("SELECT TOP (10) WITH  TIES * FROM t"));
    assert!(!tsql_is_buildable("SELECT TOP 2147483648 * FROM t"));
    assert!(tsql_is_buildable("SELECT TOP 2147483647 * FROM t"));
    // Not a tsql query at all: nothing to build.
    assert!(tsql_is_buildable("SELECT TOP 10 PERCENT * FROM t junk"));
    assert!(!select_is_buildable("SELECT TOP 10 PERCENT * FROM t junk"));
    assert!(select_is_buildable("nothing here"));
    assert!(!repl_input_is_buildable("TOP (99999999999)"));
    assert!(repl_input_is_buildable("TOP (9)"));
}

#[test]
fn largest_top_value() {
    let n = parse_tsql_select("SELECT TOP 2147483647 * FROM t").unwrap();
    let top = n.tnode.top_statement.unwrap();
    assert_eq!(top.tnode.expr.tnode, Expression::Literal { lit: Literal::Int(2147483647) });
}

#[test]
fn line_breaks_and_wide_characters() {
    // "\r\n" ends one line; a lone "\r" ends a line too.
    let n = parse_tsql_select("SELECT\r\n a\r,b FROM t").unwrap();
    let ids = n.tnode.column_name_list.tnode.identifiers;
    assert_eq!(ids, vec![ident(2, 2, "a"), ident(3, 2, "b")]);
    // Columns count characters, not bytes: the tab is one column.
    let n = parse_tsql_select("SELECT\t*\tFROM\tt").unwrap();
    assert_eq!(n.tnode.table_identifier, ident(1, 15, "t"));
}

#[test]
fn where_clause_is_accepted_but_not_kept() {
    let n = parse_tsql_select("SELECT a FROM t WHERE 1 != 2").unwrap();
    assert_eq!(n.tnode.table_identifier, ident(1, 15, "t"));
    let mut p = Rdp::new(StringInput::new("SELECT a FROM t WHERE 1 <= 2"));
    // `<` is taken as the operator, so the WHERE clause does not match and
    // the query does not end after the table name; the furthest failure is
    // the missing integer right after `<`.
    assert!(!p.tsql());
    assert_eq!(p.expected().1, 25);
}

#[test]
fn expected_lists_rules_once_in_order() {
    let mut p = Rdp::new(StringInput::new("SELECT TOP"));
    assert!(!p.tsql());
    let (rules, pos) = p.expected();
    assert_eq!(pos, 10);
    // Sorted by rule, each once.
    assert_eq!(rules, vec![Rule::kw_from, Rule::tok_comma, Rule::tok_paren_open, Rule::lit_integer]);
    assert_eq!(p.expected_text(), "([kw_from, tok_comma, tok_paren_open, lit_integer], 10)");
}

#[test]
fn create_table_tree() {
    let mut p = Rdp::new(StringInput::new("create  table Users"));
    assert!(p.stmt_create_table());
    let n: Node<CreateTableStatement> = p.parse_stmt_create_table();
    assert_eq!(n.pos, Position { line: 1, col: 1 });
    assert_eq!(n.tnode.table_identifier, ident(1, 15, "Users"));
}

#[test]
fn parse_stmt_top_without_match_is_none() {
    let mut p = Rdp::new(StringInput::new("SELECT * FROM t"));
    assert!(p.stmt_select());
    assert!(p.parse_stmt_top().is_none());
    let s = p.parse_stmt_select();
    assert!(s.tnode.top_statement.is_none());
    assert_eq!(p.first_rule(), Some(Rule::stmt_select));
}

#[test]
fn accepted_query_parses_to_the_visited_tree() {
    let q = "SELECT TOP (3) a, b FROM t WHERE 1 = 1";
    let mut vis = CountingVisitor { selects: 0, tops: 0, lists: 0 };
    let diags = get_diagnostics_for_tsql(q, &mut vis).unwrap();
    let tree = parse_tsql_select(q).unwrap();
    assert_eq!(diags[0].pos, tree.pos);
    assert_eq!(diags[1].pos, tree.tnode.top_statement.as_ref().unwrap().pos);
    assert_eq!(diags[2].pos, tree.tnode.column_name_list.pos);
}

#[test]
fn letter_case_changes_nothing_but_identifiers() {
    let mut vis = SameLineTopStmtParens {};
    let upper = get_diagnostics_for_tsql("SELECT * FROM t x", &mut vis).unwrap_err();
    let lower = get_diagnostics_for_tsql("select * from T X", &mut vis).unwrap_err();
    assert_eq!(upper, lower);
    let a = parse_tsql_select("SELECT TOP 7 Col FROM Tab").unwrap();
    let b = parse_tsql_select("sElEcT tOp 7 cOL fRoM tAB").unwrap();
    assert_eq!(a.pos, b.pos);
    assert_eq!(a.tnode.top_statement, b.tnode.top_statement);
    assert_eq!(b.tnode.table_identifier, ident(1, 23, "tAB"));
    assert_eq!(b.tnode.column_name_list.tnode.identifiers, vec![ident(1, 14, "cOL")]);
    assert!(!tsql_is_buildable("select top 1 percent * from t"));
    assert!(!tsql_is_buildable("SELECT TOP 1 PERCENT * FROM t"));
}

#[test]
fn column_names_come_in_written_order() {
    let n = parse_tsql_select("SELECT c,\n b ,\r\n*, a FROM t").unwrap();
    let ids = n.tnode.column_name_list.tnode.identifiers;
    assert_eq!(ids, vec![ident(1, 8, "c"), ident(2, 2, "b"), ident(3, 1, "*"), ident(3, 4, "a")]);
    assert_eq!(n.tnode.column_name_list.pos, ids[0].pos);
}

#[test]
fn top_parts_come_in_written_order() {
    let n = parse_tsql_select("SELECT TOP\n(\n12\n) * FROM t").unwrap();
    let top = n.tnode.top_statement.unwrap();
    assert_eq!(top.pos, Position { line: 1, col: 8 });
    assert_eq!(top.tnode.top_keyword.pos, top.pos);
    assert_eq!(top.tnode.paren_open.as_ref().unwrap().pos, Position { line: 2, col: 1 });
    assert_eq!(top.tnode.expr.pos, Position { line: 3, col: 1 });
    assert_eq!(top.tnode.paren_close.as_ref().unwrap().pos, Position { line: 4, col: 1 });
    let n = parse_tsql_select("SELECT TOP 12 * FROM t").unwrap();
    let top = n.tnode.top_statement.unwrap();
    assert!(top.tnode.is_legacy());
    assert!(top.tnode.paren_open.is_none() && top.tnode.paren_close.is_none());
    assert_eq!(top.tnode.expr.pos, Position { line: 1, col: 12 });
}

#[test]
fn expected_rules_listed_once() {
    // `stmt_top` and `stmt_top_legacy` both fail at the missing integer.
    let mut vis = SameLineTopStmtParens {};
    let err = get_diagnostics_for_tsql("SELECT TOP (", &mut vis).unwrap_err();
    assert_eq!(err.1, "([lit_integer], 12)");
}

#[test]
fn same_line_never_reports_legacy_top() {
    assert!(same_line_diagnostics_for_tsql("SELECT TOP\n\n5\n* FROM t").unwrap().is_empty());
    let d = same_line_diagnostics_for_tsql("SELECT TOP (\n5\n\n) * FROM t").unwrap();
    assert_eq!(d.len(), 1);
    assert_eq!(d[0].pos, Position { line: 4, col: 1 });
}

#[test]
fn line_col_agrees_with_pest() {
    let texts = ["a\rb\nc\r\nd\u{55e8}", "SELECT\r\n\r\n\ta ,\u{e9}\n\n", "\n\r\r\n\n x", ""];
    for text in texts.iter() {
        let bytes: Vec<u8> = text.as_bytes().to_vec();
        let theirs = pest::StringInput::new(text);
        for p in 0..bytes.len() {
            if text.is_char_boundary(p) {
                assert_eq!(tsqlust::text::line_col_exec(&bytes, p), theirs.line_col(p), "{:?} at {}", text, p);
            }
        }
    }
}

#[test]
fn refusals_name_expected_rules_within_the_query() {
    let refused = ["", "   ", "SELECT", "SELECT TOP", "SELECT * FROM", "SELECT * FROM t WHERE", "x", "SELECT a b FROM t"];
    for q in refused.iter() {
        let mut p = Rdp::new(StringInput::new(q));
        assert!(!p.tsql(), "{:?}", q);
        let (rules, pos) = p.expected();
        assert!(!rules.is_empty(), "{:?}", q);
        assert!(pos <= q.len(), "{:?}", q);
    }
    let mut p = Rdp::new(StringInput::new("SELECT * FROM t WHERE"));
    assert!(!p.tsql());
    assert_eq!(p.expected_text(), "([lit_integer], 21)");
}

struct NoTopVisitor {}

impl Visitor for NoTopVisitor {
    fn visit_select_statement(&mut self, _: &mut Context, _: &Node<SelectStatement>) {}

    fn visit_column_name_list(&mut self, _: &mut Context, _: &Node<ColumnNameList>) {}

    fn visit_top_statement(&mut self, ctx: &mut Context, node: &Node<TopStatement>) {
        ctx.add_diagnostic(Diagnostic {
            code: "EX0001".into(),
            pos: node.pos,
            message: "TOP statements are forbidden!".into(),
        });
    }
}

struct MustHaveTop {}

impl Visitor for MustHaveTop {
    fn visit_top_statement(&mut self, _: &mut Context, _: &Node<TopStatement>) {}

    fn visit_column_name_list(&mut self, _: &mut Context, _: &Node<ColumnNameList>) {}

    fn visit_select_statement(&mut self, ctx: &mut Context, node: &Node<SelectStatement>) {
        if node.tnode.top_statement.is_none() {
            ctx.add_diagnostic(Diagnostic {
                code: "must-have-top".into(),
                pos: node.pos,
                message: "TOP statements are required, you don't want to pull down everything!".into(),
            });
        }
    }
}

#[test]
fn doc_visitor_forbids_top() {
    let mut vis = NoTopVisitor {};
    let d = get_diagnostics_for_tsql("SELECT TOP (10) * FROM MyTable", &mut vis).unwrap();
    assert_eq!(
        d,
        vec![Diagnostic {
            code: "EX0001".into(),
            pos: Position { line: 1, col: 8 },
            message: "TOP statements are forbidden!".into(),
        }]
    );
    assert!(get_diagnostics_for_tsql("SELECT * FROM MyTable", &mut vis).unwrap().is_empty());
}

#[test]
fn must_have_top_through_get_diagnostics() {
    let mut vis = MustHaveTop {};
    let d = get_diagnostics_for_tsql("SELECT * FROM MyTable", &mut vis).unwrap();
    assert_eq!(d.len(), 1);
    assert_eq!(d[0].code, "must-have-top");
    assert_eq!(d[0].pos, Position { line: 1, col: 1 });
}

#[test]
fn refused_query_runs_no_visitor_method() {
    let mut vis = CountingVisitor { selects: 0, tops: 0, lists: 0 };
    assert!(get_diagnostics_for_tsql("SELECT * FROM MyTable extra", &mut vis).is_err());
    assert_eq!((vis.selects, vis.tops, vis.lists), (0, 0, 0));
    let mut vis = SameLineTopStmtParens {};
    let d = get_diagnostics_for_tsql("SELECT TOP (10\n) * FROM MyTable", &mut vis).unwrap();
    assert_eq!(
        d,
        vec![Diagnostic {
            code: "PH0004".into(),
            pos: Position { line: 2, col: 1 },
            message: "Closing paren must be on the same line as the opening paren".into(),
        }]
    );
}

#[test]
fn repl_commands() {
    for l in ["help", "?", "/h", "/?"].iter() {
        assert_eq!(command_for_line(l), ReplCommand::Help);
    }
    for l in ["q", "quit", "exit"].iter() {
        assert_eq!(command_for_line(l), ReplCommand::Quit);
    }
    assert_eq!(command_for_line(""), ReplCommand::Skip);
    assert_eq!(command_for_line("Quit"), ReplCommand::Show);
    assert_eq!(command_for_line("SELECT * FROM t"), ReplCommand::Show);
}

#[test]
fn single_rule_methods() {
    let mut p = Rdp::new(StringInput::new("+"));
    assert!(!p.tok_minus());
    assert!(p.tok_plus());
    assert_eq!(p.queue(), vec![(Rule::tok_plus, 0)]);
    let mut p = Rdp::new(StringInput::new("Not"));
    assert!(!p.kw_and());
    assert!(!p.kw_or());
    assert!(p.kw_not());
    let mut p = Rdp::new(StringInput::new("with\n ties"));
    assert!(p.kw_with_ties());
    let mut p = Rdp::new(StringInput::new("Create Table"));
    assert!(p.kw_create_table());
    let mut p = Rdp::new(StringInput::new("WHERE 1 = 2"));
    assert!(p.clause_where());
    let mut p = Rdp::new(StringInput::new("3 > 2"));
    assert!(p.pred_cmp());
    let mut p = Rdp::new(StringInput::new("!="));
    assert!(p.op_cmp());
    let mut p = Rdp::new(StringInput::new("x"));
    assert!(!p.op_cmp());
    assert_eq!(p.expected_text(), "([op_cmp_gt_eq, op_cmp_lt_eq, op_cmp_neq_bang, tok_angle_close, tok_angle_open, tok_eq], 0)");
}

#[test]
fn parse_identifier_expression_literal() {
    let mut p = Rdp::new(StringInput::new("Users"));
    assert!(p.identifier());
    assert_eq!(p.parse_identifier(), ident(1, 1, "Users"));
    let mut p = Rdp::new(StringInput::new("42"));
    assert!(p.expr());
    let e = p.parse_expression();
    assert_eq!(e.tnode, Expression::Literal { lit: Literal::Int(42) });
    let mut p = Rdp::new(StringInput::new("17"));
    assert!(p.lit_integer());
    assert_eq!(p.parse_literal(), Literal::Int(17));
    let mut p = Rdp::new(StringInput::new("false"));
    assert!(p.lit_bool());
    assert_eq!(p.parse_literal(), Literal::Bool(false));
    let mut p = Rdp::new(StringInput::new("true"));
    assert!(p.literal());
    assert_eq!(p.queue(), vec![(Rule::literal, 0)]);
}

#[test]
fn keyword_case_leaves_the_tree_as_it_is() {
    assert_eq!(
        parse_tsql_select("SELECT TOP (10) * FROM MyTable").unwrap(),
        parse_tsql_select("select top (10) * from MyTable").unwrap()
    );
    assert_eq!(
        parse_tsql_select("SELECT TOP 3 a, B FROM t WHERE 1 = 1").unwrap(),
        parse_tsql_select("sElEcT tOp 3 a, B fRoM t wHeRe 1 = 1").unwrap()
    );
}
