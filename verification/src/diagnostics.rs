//! Diagnostics recorded while walking a tree.
use vstd::prelude::*;
use crate::ast::Position;

verus! {

/// Contains diagnostics recorded while walking an AST
/// with a struct that implements [`Visitor`](../visitor/trait.Visitor.html).
pub struct Context {
    diagnostics: Vec<Diagnostic>,
}

/// Information recorded while walking an AST.
///
/// This can be anything from a warning "You should use `TOP (10)` instead of `TOP 10`"
/// to an error "`SELECT *`s are prohibited!".
///
/// These messages are created by the consumer code *not* by this library.
#[derive(Debug, PartialEq)]
pub struct Diagnostic {
    pub code: String,
    pub pos: Position,
    pub message: String,
}

/// The mathematical value of a `Diagnostic`.
pub struct DiagnosticView {
    pub code: Seq<char>,
    pub pos: Position,
    pub message: Seq<char>,
}

impl View for Diagnostic {
    type V = DiagnosticView;

    open spec fn view(&self) -> DiagnosticView {
        DiagnosticView { code: self.code@, pos: self.pos, message: self.message@ }
    }
}

/// The views of a sequence of diagnostics.
pub open spec fn diagnostics_view(v: Seq<Diagnostic>) -> Seq<DiagnosticView> {
    Seq::new(v.len(), |i: int| v[i]@)
}

#[derive(Clone, Copy, Debug, PartialEq, Eq, Structural)]
pub enum DiagnosticType {
    Warning,
    Error,
}

impl View for Context {
    type V = Seq<DiagnosticView>;

    closed spec fn view(&self) -> Seq<DiagnosticView> {
        diagnostics_view(self.diagnostics@)
    }
}

impl Context {
    /// A context with no diagnostics.
    pub fn new() -> (r: Context)
        ensures
            r@ == Seq::<DiagnosticView>::empty(),
    {
        let r = Context { diagnostics: Vec::new() };
        assert(r@ =~= Seq::<DiagnosticView>::empty());
        r
    }

    /// The diagnostics recorded, in the order in which they were added.
    pub fn get_diagnostics(self) -> (r: Vec<Diagnostic>)
        ensures
            diagnostics_view(r@) == self@,
    {
        self.diagnostics
    }

    /// Records a diagnostic after those already recorded.
    pub fn add_diagnostic(&mut self, diag: Diagnostic)
        ensures
            final(self)@ == old(self)@.push(diag@),
    {
        self.diagnostics.push(diag);
        assert(diagnostics_view(self.diagnostics@) =~= diagnostics_view(old(self).diagnostics@).push(diag@));
    }
}

/// The diagnostics of a context that held `ctx` after `add_diagnostic` was
/// called with each of `ds` in turn (each call pushes its diagnostic).
pub open spec fn after_adds(ctx: Seq<DiagnosticView>, ds: Seq<DiagnosticView>) -> Seq<DiagnosticView>
    decreases ds.len(),
{
    if ds.len() == 0 {
        ctx
    } else {
        after_adds(ctx, ds.drop_last()).push(ds.last())
    }
}

/// After `Context::new` and `add_diagnostic` with each of `ds` in turn,
/// `get_diagnostics` gives back every one of them, in the order they were
/// added; more generally the added ones follow those already there.
pub proof fn lemma_adds_kept_in_order(ctx: Seq<DiagnosticView>, ds: Seq<DiagnosticView>)
    ensures
        after_adds(ctx, ds) == ctx + ds,
        after_adds(Seq::empty(), ds) == ds,
    decreases ds.len(),
{
    if ds.len() > 0 {
        lemma_adds_kept_in_order(ctx, ds.drop_last());
        assert(ctx + ds =~= (ctx + ds.drop_last()).push(ds.last()));
    }
    lemma_adds_kept_in_order_empty(ds);
}

proof fn lemma_adds_kept_in_order_empty(ds: Seq<DiagnosticView>)
    ensures
        after_adds(Seq::empty(), ds) == ds,
    decreases ds.len(),
{
    if ds.len() > 0 {
        lemma_adds_kept_in_order_empty(ds.drop_last());
        assert(ds =~= ds.drop_last().push(ds.last()));
    }
}

} // verus!
