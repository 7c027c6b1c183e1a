//! The `Visitor` trait, which lets user code walk a tree.
//!
//! Each method of the trait has a spec function that says what a call does:
//! the visitor's new state and the diagnostics recorded afterwards, given
//! those recorded before. The spec functions say "nothing" unless a type
//! states otherwise.
//!
//! If you wanted to completely disallow `TOP` statements in your queries:
//!
//! ```rust
//! use tsqlust::ast::{ColumnNameList, Node, SelectStatement, TopStatement};
//! use tsqlust::visitor::Visitor;
//! use tsqlust::diagnostics::{Context, Diagnostic};
//!
//! struct MyVisitor { }
//!
//! impl Visitor for MyVisitor {
//!     fn visit_select_statement(&mut self, _: &mut Context, _: &Node<SelectStatement>) {}
//!
//!     fn visit_column_name_list(&mut self, _: &mut Context, _: &Node<ColumnNameList>) {}
//!
//!     fn visit_top_statement(&mut self,
//!                            ctx: &mut Context,
//!                            node: &Node<TopStatement>) {
//!         ctx.add_diagnostic(Diagnostic {
//!             code: "EX0001".into(),
//!             pos: node.pos,
//!             message: "TOP statements are forbidden!".into(),
//!         });
//!     }
//! }
//! ```
use vstd::prelude::*;
use crate::ast::{
    Node, NodeView, SelectStatement, SelectStatementView, TopStatement, TopStatementView,
    ColumnNameList,
};
use crate::diagnostics::{Context, DiagnosticView};

verus! {

/// The trait that allows walking an AST.
///
/// You can record diagnostic messages (warnings, errors)
/// via the [`Context`](../diagnostics/struct.Context.html)
/// struct's `add_diagnostic` function.
///
/// Each `visit_` method leaves the visitor and the recorded diagnostics as
/// its `_effect` spec function says. Unless a type says otherwise, the
/// effect is none: the visitor stays as it is and nothing is recorded.
pub trait Visitor: Sized {
    /// The visitor and the diagnostics after `visit_select_statement` on `node`,
    /// when `ctx` were recorded before.
    open spec fn select_effect(
        &self,
        ctx: Seq<DiagnosticView>,
        node: NodeView<SelectStatementView>,
    ) -> (Self, Seq<DiagnosticView>) {
        (*self, ctx)
    }

    /// The visitor and the diagnostics after `visit_top_statement` on `node`.
    open spec fn top_effect(
        &self,
        ctx: Seq<DiagnosticView>,
        node: NodeView<TopStatementView>,
    ) -> (Self, Seq<DiagnosticView>) {
        (*self, ctx)
    }

    /// The visitor and the diagnostics after `visit_column_name_list` on `node`.
    open spec fn column_list_effect(
        &self,
        ctx: Seq<DiagnosticView>,
        node: NodeView<Seq<NodeView<Seq<char>>>>,
    ) -> (Self, Seq<DiagnosticView>) {
        (*self, ctx)
    }

    fn visit_select_statement(&mut self, ctx: &mut Context, node: &Node<SelectStatement>)
        ensures
            (*final(self), final(ctx)@) == old(self).select_effect(old(ctx)@, node@),
    ;

    fn visit_top_statement(&mut self, ctx: &mut Context, node: &Node<TopStatement>)
        ensures
            (*final(self), final(ctx)@) == old(self).top_effect(old(ctx)@, node@),
    ;

    fn visit_column_name_list(&mut self, ctx: &mut Context, node: &Node<ColumnNameList>)
        ensures
            (*final(self), final(ctx)@) == old(self).column_list_effect(old(ctx)@, node@),
    ;
}

/// The visitor and the diagnostics after walking the SELECT statement `sel`
/// from no diagnostics: first the statement, then its TOP statement (if it
/// has one), then its column name list.
pub open spec fn walk_select<V: Visitor>(vis: V, sel: NodeView<SelectStatementView>) -> (V, Seq<DiagnosticView>) {
    let after_select = vis.select_effect(Seq::empty(), sel);
    let after_top = match sel.tnode.top_statement {
        Some(top) => after_select.0.top_effect(after_select.1, top),
        None => after_select,
    };
    after_top.0.column_list_effect(after_top.1, sel.tnode.column_name_list)
}

/// Walking a SELECT statement visits the statement itself first, from no
/// diagnostics; then its TOP statement, exactly when it has one; then its
/// whole column name list, every name of it.
pub proof fn lemma_walk_visits_whole_tree<V: Visitor>(vis: V, sel: NodeView<SelectStatementView>)
    ensures
        ({
            let (v1, c1) = vis.select_effect(Seq::empty(), sel);
            let (v2, c2) = match sel.tnode.top_statement {
                Some(top) => v1.top_effect(c1, top),
                None => (v1, c1),
            };
            walk_select(vis, sel) == v2.column_list_effect(c2, sel.tnode.column_name_list)
        }),
{
}

/// For a visitor whose statement and TOP visits record nothing and whose
/// column list visit records one diagnostic per name, walking a SELECT
/// statement records exactly as many diagnostics as it has column names.
pub proof fn lemma_walk_counts_every_column<V: Visitor>(vis: V, sel: NodeView<SelectStatementView>)
    requires
        forall|v: V, c: Seq<DiagnosticView>, n: NodeView<SelectStatementView>|
            (#[trigger] v.select_effect(c, n)).1 == c,
        forall|v: V, c: Seq<DiagnosticView>, n: NodeView<TopStatementView>|
            (#[trigger] v.top_effect(c, n)).1 == c,
        forall|v: V, c: Seq<DiagnosticView>, n: NodeView<Seq<NodeView<Seq<char>>>>|
            (#[trigger] v.column_list_effect(c, n)).1.len() == c.len() + n.tnode.len(),
    ensures
        walk_select(vis, sel).1.len() == sel.tnode.column_name_list.tnode.len(),
{
    let after_select = vis.select_effect(Seq::empty(), sel);
    assert(after_select.1 == Seq::<DiagnosticView>::empty());
    match sel.tnode.top_statement {
        Some(top) => {
            assert(after_select.0.top_effect(after_select.1, top).1 == after_select.1);
        },
        None => {},
    }
}

} // verus!
