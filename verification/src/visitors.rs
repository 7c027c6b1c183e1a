//! Visitors that come with the library.
use vstd::prelude::*;
use crate::ast::{Node, NodeView, TopStatement, TopStatementView, SelectStatement, ColumnNameList};
use crate::diagnostics::{Context, Diagnostic, DiagnosticView};
use crate::visitor::Visitor;
use crate::diagnostics::diagnostics_view;
use crate::grammar::{m_tsql, t_tsql, no_fails};
use crate::expected::expected_text;
use crate::tree::{select_view, select_top_start, lemma_skip_ws_bounds, lemma_top_parts_in_order};
use crate::grammar::{m_stmt_select, m_top_choice};
use crate::{tsql_buildable, get_diagnostics_for_tsql};
use vstd::string::StringSliceAdditionalSpecFns;

verus! {

/// Reports a `TOP (...)` whose closing parenthesis is not on the line of
/// its opening parenthesis.
pub struct SameLineTopStmtParens {}

/// The diagnostic that `SameLineTopStmtParens` records for a TOP statement, if any.
pub open spec fn same_line_diagnostic(node: NodeView<TopStatementView>) -> Option<DiagnosticView> {
    let top = node.tnode;
    if !top.is_legacy() && top.paren_close->0.pos.line != top.paren_open->0.pos.line {
        Some(
            DiagnosticView {
                code: "PH0004"@,
                pos: top.paren_close->0.pos,
                message: "Closing paren must be on the same line as the opening paren"@,
            },
        )
    } else {
        None
    }
}

/// The diagnostics after `SameLineTopStmtParens` visited a TOP statement.
pub open spec fn after_same_line(ctx: Seq<DiagnosticView>, node: NodeView<TopStatementView>) -> Seq<DiagnosticView> {
    match same_line_diagnostic(node) {
        Some(d) => ctx.push(d),
        None => ctx,
    }
}

impl Visitor for SameLineTopStmtParens {
    open spec fn top_effect(
        &self,
        ctx: Seq<DiagnosticView>,
        node: NodeView<TopStatementView>,
    ) -> (Self, Seq<DiagnosticView>) {
        (*self, after_same_line(ctx, node))
    }

    /// Records nothing.
    fn visit_select_statement(&mut self, ctx: &mut Context, node: &Node<SelectStatement>) {
    }

    /// Records nothing.
    fn visit_column_name_list(&mut self, ctx: &mut Context, node: &Node<ColumnNameList>) {
    }

    fn visit_top_statement(&mut self, ctx: &mut Context, node: &Node<TopStatement>) {
        let top_statement = &node.tnode;
        if top_statement.is_legacy() {
            return;
        }
        let open_paren = match &top_statement.paren_open {
            Some(n) => n,
            None => return,
        };
        let close_paren = match &top_statement.paren_close {
            Some(n) => n,
            None => return,
        };
        if close_paren.pos.line != open_paren.pos.line {
            ctx.add_diagnostic(
                Diagnostic {
                    code: "PH0004".to_owned(),
                    pos: close_paren.pos,
                    message: "Closing paren must be on the same line as the opening paren".to_owned(),
                },
            );
        }
    }
}

/// The diagnostics that `SameLineTopStmtParens` records for the query whose bytes are `s`.
pub open spec fn same_line_result(s: Seq<u8>) -> Seq<DiagnosticView> {
    match select_view(s, 0).tnode.top_statement {
        Some(top) => after_same_line(Seq::empty(), top),
        None => Seq::empty(),
    }
}

/// `get_diagnostics_for_tsql` with a `SameLineTopStmtParens` visitor: the
/// diagnostics for a query whose `TOP (...)` closes its parenthesis on
/// another line than it opens it.
pub fn same_line_diagnostics_for_tsql(tsql: &str) -> (r: Result<Vec<Diagnostic>, (String, String)>)
    requires
        tsql_buildable(tsql.spec_bytes()),
    ensures
        r is Err <==> m_tsql(tsql.spec_bytes(), 0) is None,
        r matches Err((q, e)) ==> q@ == "[]"@ && e@ == expected_text(
            t_tsql(tsql.spec_bytes(), 0, no_fails()),
        ),
        r matches Ok(d) ==> diagnostics_view(d@) == same_line_result(tsql.spec_bytes()),
{
    let mut vis = SameLineTopStmtParens {};
    get_diagnostics_for_tsql(tsql, &mut vis)
}

/// `SameLineTopStmtParens` reports at most one diagnostic per query, only for
/// a TOP statement written with parentheses whose closing parenthesis is on
/// another line than its opening one, at the closing parenthesis; in a query
/// that matches, that is a later line.
#[verifier::spinoff_prover]
pub proof fn lemma_same_line_reports(s: Seq<u8>)
    ensures
        same_line_result(s).len() <= 1,
        same_line_result(s).len() == 1 <==> (
            select_view(s, 0).tnode.top_statement matches Some(t) && !t.tnode.is_legacy()
            && t.tnode.paren_close->0.pos.line != t.tnode.paren_open->0.pos.line
        ),
        same_line_result(s).len() == 1 ==> {
            let t = select_view(s, 0).tnode.top_statement->0.tnode;
            &&& same_line_result(s)[0].code == "PH0004"@
            &&& same_line_result(s)[0].pos == t.paren_close->0.pos
        },
        m_stmt_select(s, 0) is Some && s.len() <= isize::MAX && same_line_result(s).len() == 1
            ==> {
            let t = select_view(s, 0).tnode.top_statement->0.tnode;
            t.paren_close->0.pos.line > t.paren_open->0.pos.line
        },
{
    if m_stmt_select(s, 0) is Some && s.len() <= isize::MAX {
        let a = select_top_start(s, 0);
        lemma_skip_ws_bounds(s, 6);
        if let Some((legacy, _)) = m_top_choice(s, a) {
            lemma_top_parts_in_order(s, a, legacy);
        }
    }
}

} // verus!
