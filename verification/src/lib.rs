//! A T-SQL lexer, parser and static-analysis framework.
//!
//! Parse a query into a tree (`parse_tsql_select`), or walk the tree of a
//! query with a `visitor::Visitor` that records diagnostics
//! (`get_diagnostics_for_tsql`).
use vstd::prelude::*;
use vstd::string::StringSliceAdditionalSpecFns;

pub mod ast;
pub mod diagnostics;
pub mod visitor;
pub mod visitors;
pub mod grammar;
pub mod expected;
pub mod recognize;
pub mod text;
pub mod tree;
pub mod parser;
pub mod repl;
pub mod letter_case;
pub mod failure_record;

use crate::ast::{Node, SelectStatement};
use crate::diagnostics::{Context, Diagnostic, diagnostics_view};
use crate::grammar::{m_tsql, t_tsql, m_stmt_select, no_fails};
use crate::expected::expected_text;
use crate::parser::{Rdp, StringInput};
use crate::tree::{select_view, select_buildable};
use crate::visitor::{Visitor, walk_select};

verus! {

/// The query's SELECT statement can be turned into a tree whenever the whole
/// query matches `tsql`.
pub open spec fn tsql_buildable(s: Seq<u8>) -> bool {
    m_tsql(s, 0) is Some ==> select_buildable(s, 0)
}

/// The SELECT statement at the start of the input can be turned into a tree
/// whenever there is one.
pub open spec fn select_start_buildable(s: Seq<u8>) -> bool {
    m_stmt_select(s, 0) is Some ==> select_buildable(s, 0)
}

/// Whether `get_diagnostics_for_tsql` can build the tree of `query_string`.
pub fn tsql_is_buildable(query_string: &str) -> (b: bool)
    ensures
        b == tsql_buildable(query_string.spec_bytes()),
{
    let mut parser = Rdp::new(StringInput::new(query_string));
    if !parser.tsql() {
        return true;
    }
    select_is_buildable(query_string)
}

/// Whether `parse_tsql_select` can build the tree of `tsql`.
pub fn select_is_buildable(tsql: &str) -> (b: bool)
    ensures
        b == select_start_buildable(tsql.spec_bytes()),
{
    let bytes = vstd::slice::slice_to_vec(tsql.as_bytes());
    crate::tree::select_buildable_exec(&bytes, 0)
}

/// Runs `vis` over the tree of the query: first on the SELECT statement,
/// then on its TOP statement (if it has one), then on its column name list.
/// Returns the diagnostics that `vis` recorded, in order; the tree is the one
/// `parse_tsql_select` gives.
///
/// When the query does not match `tsql`, returns `Err((queue, expected))`:
/// `queue` is `"[]"` (no rule matched) and `expected` is the printed form
/// `([rule, ...], position)` of the rules that failed at the furthest
/// position reached.
///
/// This is a helper function so that example code can be written.
/// You should not rely on it or expect it to exist in any following versions.
pub fn get_diagnostics_for_tsql<V: Visitor>(query_string: &str, vis: &mut V) -> (r: Result<
    Vec<Diagnostic>,
    (String, String),
>)
    requires
        tsql_buildable(query_string.spec_bytes()),
    ensures
        r is Err <==> m_tsql(query_string.spec_bytes(), 0) is None,
        r matches Err((q, e)) ==> q@ == "[]"@ && e@ == expected_text(
            t_tsql(query_string.spec_bytes(), 0, no_fails()),
        ),
        r is Err ==> *final(vis) == *old(vis),
        r matches Ok(d) ==> {
            let walked = walk_select(*old(vis), select_view(query_string.spec_bytes(), 0));
            &&& diagnostics_view(d@) == walked.1
            &&& *final(vis) == walked.0
        },
{
    let mut ctx = Context::new();
    let mut parser = Rdp::new(StringInput::new(query_string));

    if !parser.tsql() {
        let q = "[]".to_owned();
        let e = parser.expected_text();
        return Err((q, e));
    }
    let select_node = parser.parse_stmt_select();
    vis.visit_select_statement(&mut ctx, &select_node);

    let select_node_node = select_node.tnode;

    if let Some(top_node) = select_node_node.top_statement {
        vis.visit_top_statement(&mut ctx, &top_node);
    }
    let columns_node = select_node_node.column_name_list;
    vis.visit_column_name_list(&mut ctx, &columns_node);

    Ok(ctx.get_diagnostics())
}

/// Parses the SELECT statement at the start of `tsql` (anything may follow it).
///
/// This is a temporary function used by the WIP graphical interface.
/// You should not rely on it or expect it to exist in any following versions.
pub fn parse_tsql_select(tsql: &str) -> (r: Result<Node<SelectStatement>, String>)
    requires
        select_start_buildable(tsql.spec_bytes()),
    ensures
        r is Err <==> m_stmt_select(tsql.spec_bytes(), 0) is None,
        r matches Err(e) ==> e@ == "Failed to parse SELECT statement."@,
        r matches Ok(n) ==> n@ == select_view(tsql.spec_bytes(), 0),
{
    let mut parser = Rdp::new(StringInput::new(tsql));

    if !parser.stmt_select() {
        return Err("Failed to parse SELECT statement.".to_owned());
    }
    Ok(parser.parse_stmt_select())
}

/// A query that `get_diagnostics_for_tsql` accepts is one that
/// `parse_tsql_select` accepts too, and both build it: the tree that the
/// visitor walks is the tree that `parse_tsql_select` returns.
pub proof fn lemma_tsql_query_is_select(s: Seq<u8>)
    requires
        m_tsql(s, 0) is Some,
    ensures
        m_stmt_select(s, 0) is Some,
        tsql_buildable(s) <==> select_start_buildable(s),
{
}

} // verus!
