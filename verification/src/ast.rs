//! The abstract syntax tree built from T-SQL source text.
//!
//! Every node carries the `Position` (line and column, both starting at 1)
//! of the first character of the source text it was built from.
use vstd::prelude::*;

verus! {

/// A line/column pair in the source text; both start at 1.
#[derive(Clone, Copy, Debug, PartialEq, Eq, Structural)]
pub struct Position {
    pub line: usize,
    pub col: usize,
}

impl Position {
    /// Creates a tuple containing `line, col`.
    pub fn to_pair(&self) -> (r: (usize, usize))
        ensures
            r == (self.line, self.col),
    {
        (self.line, self.col)
    }
}

/// The default is `{ line: 1, col: 1 }`.
impl Default for Position {
    fn default() -> (r: Position)
        ensures
            r == (Position { line: 1, col: 1 }),
    {
        Position { line: 1, col: 1 }
    }
}

impl From<(usize, usize)> for Position {
    fn from(pair: (usize, usize)) -> (r: Position) {
        Position { line: pair.0, col: pair.1 }
    }
}

impl vstd::std_specs::convert::FromSpecImpl<(usize, usize)> for Position {
    open spec fn obeys_from_spec() -> bool {
        true
    }

    open spec fn from_spec(pair: (usize, usize)) -> Position {
        Position { line: pair.0, col: pair.1 }
    }
}

/// `Position::to_pair` undoes `Position::from`, and the other way round.
pub proof fn lemma_position_pair_roundtrip(pair: (usize, usize), p: Position)
    ensures
        <Position as vstd::std_specs::convert::FromSpec<(usize, usize)>>::from_spec(pair).line == pair.0,
        <Position as vstd::std_specs::convert::FromSpec<(usize, usize)>>::from_spec(pair).col == pair.1,
        <Position as vstd::std_specs::convert::FromSpec<(usize, usize)>>::from_spec((p.line, p.col)) == p,
{
}

/// A value of the tree together with the position where its text starts.
#[derive(Debug, PartialEq)]
pub struct Node<TNode> {
    /// Position in the AST
    ///
    /// This is useful for error reporting.
    pub pos: Position,
    /// The actual node in the tree.
    ///
    /// For example: `SelectStatement`, `CreateTableStatement`, etc.
    pub tnode: TNode,
}

/// The mathematical value of a `Node`.
pub struct NodeView<V> {
    pub pos: Position,
    pub tnode: V,
}

impl<T: View> View for Node<T> {
    type V = NodeView<T::V>;

    open spec fn view(&self) -> NodeView<T::V> {
        NodeView { pos: self.pos, tnode: self.tnode@ }
    }
}

/// The view of an optional node.
pub open spec fn opt_view<T: View>(o: Option<Node<T>>) -> Option<NodeView<T::V>> {
    match o {
        Some(n) => Some(n@),
        None => None,
    }
}

/// A [`SELECT`](https://msdn.microsoft.com/en-us/library/ms189499.aspx) statement
#[derive(Debug, PartialEq)]
pub struct SelectStatement {
    pub top_statement: Option<Node<TopStatement>>,
    pub column_name_list: Node<ColumnNameList>,
    pub table_identifier: Node<Identifier>,
}

pub struct SelectStatementView {
    pub top_statement: Option<NodeView<TopStatementView>>,
    pub column_name_list: NodeView<Seq<NodeView<Seq<char>>>>,
    pub table_identifier: NodeView<Seq<char>>,
}

impl View for SelectStatement {
    type V = SelectStatementView;

    open spec fn view(&self) -> SelectStatementView {
        SelectStatementView {
            top_statement: opt_view(self.top_statement),
            column_name_list: self.column_name_list@,
            table_identifier: self.table_identifier@,
        }
    }
}

/// Represents a literal value (not a variable) found in the query source.
///
/// A floating-point literal is held by its IEEE-754 bit pattern.
#[derive(Debug, PartialEq)]
pub enum Literal {
    Bool(bool),
    Int(i32),
    Float(u32),
    Str(String),
}

pub enum LiteralView {
    Bool(bool),
    Int(i32),
    Float(u32),
    Str(Seq<char>),
}

impl View for Literal {
    type V = LiteralView;

    open spec fn view(&self) -> LiteralView {
        match self {
            Literal::Bool(b) => LiteralView::Bool(*b),
            Literal::Int(i) => LiteralView::Int(*i),
            Literal::Float(f) => LiteralView::Float(*f),
            Literal::Str(s) => LiteralView::Str(s@),
        }
    }
}

/// A table or column name
#[derive(Debug, PartialEq)]
pub struct Identifier {
    pub value: String,
}

impl View for Identifier {
    type V = Seq<char>;

    open spec fn view(&self) -> Seq<char> {
        self.value@
    }
}

#[derive(Debug, PartialEq)]
pub enum Expression {
    Literal { lit: Literal },
}

pub enum ExpressionView {
    Literal { lit: LiteralView },
}

impl View for Expression {
    type V = ExpressionView;

    open spec fn view(&self) -> ExpressionView {
        match self {
            Expression::Literal { lit } => ExpressionView::Literal { lit: lit@ },
        }
    }
}

#[derive(Clone, Copy, Debug, PartialEq, Eq, Structural)]
pub enum Keyword {
    Top,
}

impl View for Keyword {
    type V = Keyword;

    open spec fn view(&self) -> Keyword {
        *self
    }
}

#[derive(Clone, Copy, Debug, PartialEq, Eq, Structural)]
pub enum Token {
    ParenOpen,
    ParenClose,
}

impl View for Token {
    type V = Token;

    open spec fn view(&self) -> Token {
        *self
    }
}

/// A [`TOP`](https://msdn.microsoft.com/en-us/library/ms189463.aspx) statement
#[derive(Debug, PartialEq)]
pub struct TopStatement {
    pub top_keyword: Node<Keyword>,
    pub expr: Node<Expression>,
    pub paren_open: Option<Node<Token>>,
    pub paren_close: Option<Node<Token>>,
}

pub struct TopStatementView {
    pub top_keyword: NodeView<Keyword>,
    pub expr: NodeView<ExpressionView>,
    pub paren_open: Option<NodeView<Token>>,
    pub paren_close: Option<NodeView<Token>>,
}

impl View for TopStatement {
    type V = TopStatementView;

    open spec fn view(&self) -> TopStatementView {
        TopStatementView {
            top_keyword: self.top_keyword@,
            expr: self.expr@,
            paren_open: opt_view(self.paren_open),
            paren_close: opt_view(self.paren_close),
        }
    }
}

impl TopStatementView {
    /// A `TOP` statement is legacy when it lacks one of its parentheses.
    pub open spec fn is_legacy(self) -> bool {
        self.paren_close is None || self.paren_open is None
    }
}

impl TopStatement {
    /// Indicates whether or not this is a legacy statement.
    ///
    /// Statements without parentheses are legacy.
    ///
    /// Legacy: `TOP 10`
    ///
    /// Non-legacy: `TOP (10)`
    pub fn is_legacy(&self) -> (r: bool)
        ensures
            r == self@.is_legacy(),
    {
        self.paren_close.is_none() || self.paren_open.is_none()
    }
}

#[derive(Debug, PartialEq)]
pub struct ColumnNameList {
    pub identifiers: Vec<Node<Identifier>>,
}

impl View for ColumnNameList {
    type V = Seq<NodeView<Seq<char>>>;

    open spec fn view(&self) -> Seq<NodeView<Seq<char>>> {
        Seq::new(self.identifiers@.len(), |i: int| self.identifiers@[i]@)
    }
}

#[derive(Debug, PartialEq)]
pub struct CreateTableStatement {
    pub table_identifier: Node<Identifier>,
}

impl View for CreateTableStatement {
    type V = NodeView<Seq<char>>;

    open spec fn view(&self) -> NodeView<Seq<char>> {
        self.table_identifier@
    }
}

} // verus!
