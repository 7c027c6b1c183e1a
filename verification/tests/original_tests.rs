use tsqlust::ast::{ColumnNameList, Expression, Identifier, Literal, Node, Position, TopStatement, SelectStatement};
use tsqlust::diagnostics::{Context, Diagnostic};
use tsqlust::parser::{Rdp, StringInput};
use tsqlust::visitor::Visitor;

#[test]
fn column_name_list_star() {
    let mut parser = Rdp::new(StringInput::new("*"));
    assert!(parser.column_name_list());

    let found = parser.parse_column_name_list().tnode.identifiers;

    let expected = vec![Node {
        pos: Position { line: 1, col: 1 },
        tnode: Identifier { value: "*".into() },
    }];

    assert_eq!(found, expected);
}

#[test]
fn column_name_list_identifiers() {
    let mut parser = Rdp::new(StringInput::new(
        r#"Id,SomeColumn
        ,ColumnA,  ColumnB
        ,  Foo  ,Qux"#,
    ));
    assert!(parser.column_name_list());

    let found = parser.parse_column_name_list().tnode.identifiers;

    let expected = vec![
        Node { pos: Position { line: 1, col: 1 }, tnode: Identifier { value: "Id".into() } },
        Node { pos: Position { line: 1, col: 4 }, tnode: Identifier { value: "SomeColumn".into() } },
        Node { pos: Position { line: 2, col: 10 }, tnode: Identifier { value: "ColumnA".into() } },
        Node { pos: Position { line: 2, col: 20 }, tnode: Identifier { value: "ColumnB".into() } },
        Node { pos: Position { line: 3, col: 12 }, tnode: Identifier { value: "Foo".into() } },
        Node { pos: Position { line: 3, col: 18 }, tnode: Identifier { value: "Qux".into() } },
    ];

    assert_eq!(expected, found);
}

#[test]
fn lib_select_top_10_star_from_mytable() {
    let mut parser = Rdp::new(StringInput::new("SELECT TOP (10) * FROM MyTable"));
    assert!(parser.tsql());

    let stmt_select = parser.parse_stmt_select();
    assert_eq!(stmt_select.pos.to_pair(), (1, 1));

    let select_node = stmt_select.tnode;
    let top = select_node.top_statement.unwrap();
    assert_eq!(top.pos.to_pair(), (1, 8));

    let top_node = top.tnode;
    assert!(!top_node.is_legacy());

    let top_expr_node = top_node.expr.tnode;
    assert_eq!(top_expr_node, Expression::Literal { lit: Literal::Int(10) });

    let column_idents = select_node.column_name_list.tnode.identifiers;
    assert_eq!(
        column_idents,
        vec![Node { pos: Position { line: 1, col: 17 }, tnode: Identifier { value: "*".into() } }]
    );
}

#[test]
fn lib_select_top_legacy_10_star_from_mytable() {
    let mut parser = Rdp::new(StringInput::new("SELECT TOP 10 * FROM MyTable"));
    assert!(parser.tsql());

    let stmt_select = parser.parse_stmt_select().tnode;
    assert!(stmt_select.top_statement.is_some());
}

#[test]
fn top_972() {
    let mut parser = Rdp::new(StringInput::new("TOP (972)"));
    assert!(parser.stmt_top());

    let stmt_top = parser.parse_stmt_top().unwrap().tnode;
    assert!(!stmt_top.is_legacy());

    assert_eq!(stmt_top.expr.tnode, Expression::Literal { lit: Literal::Int(972) });
}

#[test]
fn main_select_top_10_star_from_mytable() {
    let mut parser = Rdp::new(StringInput::new("SELECT TOP (10) * FROM MyTable"));
    assert!(parser.tsql());

    let select = parser.parse_stmt_select();
    assert_eq!(select.pos.to_pair(), (1, 1));

    let select_value = select.tnode;
    assert!(select_value.top_statement.is_some());

    let top = select_value.top_statement.unwrap();
    assert_eq!(top.pos.to_pair(), (1, 8));

    let top_value = top.tnode;
    assert!(!top_value.is_legacy());

    let top_expr_value = top_value.expr.tnode;
    assert_eq!(top_expr_value, Expression::Literal { lit: Literal::Int(10) });
}

#[test]
fn main_select_top_legacy_10_star_from_mytable() {
    let mut parser = Rdp::new(StringInput::new("SELECT TOP 10 * FROM MyTable"));
    assert!(parser.tsql());

    let stmt_select = parser.parse_stmt_select().tnode;
    assert!(stmt_select.top_statement.is_some());
}

struct TestVisitor {}

impl Visitor for TestVisitor {
    fn visit_select_statement(&mut self, _: &mut Context, _: &Node<SelectStatement>) {}

    fn visit_column_name_list(&mut self, _: &mut Context, _: &Node<ColumnNameList>) {}

    fn visit_top_statement(&mut self, ctx: &mut Context, node: &Node<TopStatement>) {
        let stmt = &node.tnode;
        let expr_node = &stmt.expr;

        if stmt.is_legacy() {
            ctx.add_diagnostic(Diagnostic {
                code: "EX0002".into(),
                pos: node.pos,
                message: "A legacy TOP statement is simply not allowed! Add parentheses.".into(),
            });
        }

        match expr_node.tnode {
            Expression::Literal { lit: Literal::Int(v) } => {
                if v <= 0 {
                    ctx.add_diagnostic(Diagnostic {
                        code: "EX0003".into(),
                        pos: expr_node.pos,
                        message: "A value <= 0 will yield an empty recordset".into(),
                    });
                }
            }
            _ => {}
        }
    }
}

#[test]
fn top_0_diagnostic_ex0003() {
    let mut parser = Rdp::new(StringInput::new("TOP (0)"));
    assert!(parser.stmt_top());

    let mut ctx = Context::new();
    let mut vis = TestVisitor {};
    let top_node = parser.parse_stmt_top().unwrap();
    vis.visit_top_statement(&mut ctx, &top_node);

    let diags = ctx.get_diagnostics();
    assert_eq!(diags.len(), 1);

    let diag_warn = &diags[0];
    assert_eq!(diag_warn.pos.to_pair(), (1, 6));
    assert_eq!(diag_warn.code, "EX0003");
}

#[test]
fn top_0_diagnostic_ex0002_and_ex0003() {
    let mut parser = Rdp::new(StringInput::new("TOP 0"));
    assert!(parser.stmt_top_legacy());

    let mut ctx = Context::new();
    let mut vis = TestVisitor {};
    let top_node = parser.parse_stmt_top().unwrap();
    vis.visit_top_statement(&mut ctx, &top_node);

    let diags = ctx.get_diagnostics();
    assert_eq!(diags.len(), 2);

    let diag_err = &diags[0];
    assert_eq!(diag_err.pos.to_pair(), (1, 1));
    assert_eq!(diag_err.code, "EX0002");

    let diag_warn = &diags[1];
    assert_eq!(diag_warn.pos.to_pair(), (1, 5));
    assert_eq!(diag_warn.code, "EX0003");
}

struct ExternalConsumer {}

impl Visitor for ExternalConsumer {
    fn visit_top_statement(&mut self, _: &mut Context, _: &Node<TopStatement>) {}

    fn visit_column_name_list(&mut self, _: &mut Context, _: &Node<ColumnNameList>) {}

    fn visit_select_statement(&mut self, ctx: &mut Context, node: &Node<SelectStatement>) {
        let select_statement = &node.tnode;
        if select_statement.top_statement.is_none() {
            ctx.add_diagnostic(Diagnostic {
                code: "must-have-top".into(),
                pos: node.pos,
                message: "TOP statements are required, you don't want to pull down everything!".into(),
            });
        }
    }
}

#[test]
fn external_test_0001() {
    let mut parser = Rdp::new(StringInput::new("SELECT * FROM MyTable"));
    assert!(parser.stmt_select());

    let mut ctx = Context::new();
    let mut vis = ExternalConsumer {};

    let node = parser.parse_stmt_select();
    vis.visit_select_statement(&mut ctx, &node);

    let diags = ctx.get_diagnostics();
    assert_eq!(diags.len(), 1);
}
