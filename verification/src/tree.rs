//! The tree that a match of a rule stands for, stated over the source bytes,
//! and the functions that build it.
use vstd::prelude::*;
use crate::ast::{
    Position, Node, NodeView, Identifier, ColumnNameList, Expression, ExpressionView, Literal,
    LiteralView, Keyword, Token, TopStatement, TopStatementView, SelectStatement,
    SelectStatementView, CreateTableStatement,
};
use crate::grammar::{
    Kw, kw_bytes, skip_ws, is_digit, digits_end, ident_end, is_ws, ascii_lower, m_expr, m_tok,
    m_kw, m_identifier, m_item, m_column_name_list, m_lit_bool, m_stmt_top, m_stmt_top_legacy, m_top_choice, m_with_ties, m_lit_integer,
    select_columns_start, m_stmt_select, m_create_table, m_stmt_create_table, opt_end,
};
use crate::recognize::{
    Tracker, skip_ws_exec, tok, kw, kw2, identifier, lit_integer, column_name_list,
    top_choice,
};
use crate::text::{
    line_col, line_col_exec, ascii_chars, ascii_string, digits_value, all_digits,
    digits_value_exec, digits_fit_i32, push_char, lemma_line_col_bounds, decimal, digit_char,
    lemma_line_col_monotone, lemma_line_col_step,
};

verus! {

/// The position of byte `p` of `s`.
pub open spec fn pos_at(s: Seq<u8>, p: int) -> Position {
    Position { line: line_col(s.take(p)).0 as usize, col: line_col(s.take(p)).1 as usize }
}

/// The identifier that starts at `p`.
pub open spec fn ident_view(s: Seq<u8>, p: int) -> NodeView<Seq<char>> {
    NodeView { pos: pos_at(s, p), tnode: ascii_chars(s.subrange(p, m_identifier(s, p)->0)) }
}

/// The column name (`*` or an identifier) that starts at `p`.
pub open spec fn item_view(s: Seq<u8>, p: int) -> NodeView<Seq<char>> {
    if m_tok(s, p, 42u8) is Some {
        NodeView { pos: pos_at(s, p), tnode: seq!['*'] }
    } else {
        ident_view(s, p)
    }
}

/// The column names after the one that ended at `cur`.
pub open spec fn items_rest_view(s: Seq<u8>, cur: int) -> Seq<NodeView<Seq<char>>>
    decreases s.len() - cur,
{
    match m_tok(s, skip_ws(s, cur), 44u8) {
        None => Seq::empty(),
        Some(c) => {
            let b = skip_ws(s, c);
            match m_item(s, b) {
                None => Seq::empty(),
                Some(e) => if cur < e <= s.len() {
                    seq![item_view(s, b)] + items_rest_view(s, e)
                } else {
                    Seq::empty()
                },
            }
        },
    }
}

/// The column name list that starts at `p`.
pub open spec fn column_list_view(s: Seq<u8>, p: int) -> NodeView<Seq<NodeView<Seq<char>>>> {
    NodeView {
        pos: pos_at(s, p),
        tnode: seq![item_view(s, p)] + items_rest_view(s, m_item(s, p)->0),
    }
}

/// The digits of the integer literal that starts at `p`.
pub open spec fn int_digits(s: Seq<u8>, p: int) -> Seq<u8> {
    s.subrange(p, digits_end(s, p))
}

/// The integer literal that starts at `p` fits in an `i32`.
pub open spec fn int_fits(s: Seq<u8>, p: int) -> bool {
    digits_value(int_digits(s, p)) <= i32::MAX
}

/// The expression made of the integer literal that starts at `p`.
pub open spec fn int_expr_view(s: Seq<u8>, p: int) -> NodeView<ExpressionView> {
    NodeView {
        pos: pos_at(s, p),
        tnode: ExpressionView::Literal {
            lit: LiteralView::Int(digits_value(int_digits(s, p)) as i32),
        },
    }
}

/// Where the integer of a TOP clause that starts at `p` begins.
pub open spec fn top_int_start(s: Seq<u8>, p: int, legacy: bool) -> int {
    let q1 = skip_ws(s, p + kw_bytes(Kw::Top).len());
    if legacy {
        q1
    } else {
        skip_ws(s, q1 + 1)
    }
}

/// Where the closing parenthesis of a `stmt_top` that starts at `p` stands.
pub open spec fn top_close_start(s: Seq<u8>, p: int) -> int {
    skip_ws(s, digits_end(s, top_int_start(s, p, false)))
}

/// The TOP clause that starts at `p`, in its legacy form or not.
pub open spec fn top_view(s: Seq<u8>, p: int, legacy: bool) -> NodeView<TopStatementView> {
    let q1 = skip_ws(s, p + kw_bytes(Kw::Top).len());
    NodeView {
        pos: pos_at(s, p),
        tnode: TopStatementView {
            top_keyword: NodeView { pos: pos_at(s, p), tnode: Keyword::Top },
            expr: int_expr_view(s, top_int_start(s, p, legacy)),
            paren_open: if legacy {
                None
            } else {
                Some(NodeView { pos: pos_at(s, q1), tnode: Token::ParenOpen })
            },
            paren_close: if legacy {
                None
            } else {
                Some(NodeView { pos: pos_at(s, top_close_start(s, p)), tnode: Token::ParenClose })
            },
        },
    }
}

/// A TOP clause that starts at `p` carries `PERCENT` or `WITH TIES`.
pub open spec fn top_has_modifier(s: Seq<u8>, p: int, legacy: bool) -> bool {
    if legacy {
        m_kw(s, skip_ws(s, digits_end(s, top_int_start(s, p, true))), Kw::Percent) is Some
    } else {
        let e4 = top_close_start(s, p) + 1;
        let e5 = opt_end(e4, m_kw(s, skip_ws(s, e4), Kw::Percent));
        m_kw(s, skip_ws(s, e4), Kw::Percent) is Some || m_with_ties(s, skip_ws(s, e5)) is Some
    }
}

/// Where the TOP clause of a SELECT that starts at `p` begins (if it has one).
pub open spec fn select_top_start(s: Seq<u8>, p: int) -> int {
    skip_ws(s, p + kw_bytes(Kw::Select).len())
}

/// Where the table name of a SELECT that starts at `p` begins.
pub open spec fn select_table_start(s: Seq<u8>, p: int) -> int {
    let e3 = m_column_name_list(s, select_columns_start(s, p))->0;
    let q3 = skip_ws(s, e3);
    skip_ws(s, q3 + kw_bytes(Kw::From).len())
}

/// The SELECT statement that starts at `p`.
pub open spec fn select_view(s: Seq<u8>, p: int) -> NodeView<SelectStatementView> {
    NodeView {
        pos: pos_at(s, p),
        tnode: SelectStatementView {
            top_statement: match m_top_choice(s, select_top_start(s, p)) {
                Some((legacy, _)) => Some(top_view(s, select_top_start(s, p), legacy)),
                None => None,
            },
            column_name_list: column_list_view(s, select_columns_start(s, p)),
            table_identifier: ident_view(s, select_table_start(s, p)),
        },
    }
}

/// The SELECT statement that starts at `p` can be turned into a tree: its
/// TOP clause, if any, carries neither `PERCENT` nor `WITH TIES`, and its
/// integer fits in an `i32`.
pub open spec fn select_buildable(s: Seq<u8>, p: int) -> bool {
    match m_top_choice(s, select_top_start(s, p)) {
        Some((legacy, _)) => {
            &&& !top_has_modifier(s, select_top_start(s, p), legacy)
            &&& int_fits(s, top_int_start(s, select_top_start(s, p), legacy))
        },
        None => true,
    }
}

/// The CREATE TABLE statement that starts at `p`: the table name.
pub open spec fn create_table_view(s: Seq<u8>, p: int) -> NodeView<Seq<char>> {
    ident_view(s, skip_ws(s, m_create_table(s, p)->0))
}

// ---------------------------------------------------------------- builders

pub(crate) proof fn lemma_digits_end_all_digits(s: Seq<u8>, p: int)
    requires
        0 <= p <= s.len(),
    ensures
        p <= digits_end(s, p) <= s.len(),
        all_digits(s.subrange(p, digits_end(s, p))),
    decreases s.len() - p,
{
    if p < s.len() && is_digit(s[p]) {
        lemma_digits_end_all_digits(s, p + 1);
        let e = digits_end(s, p);
        assert forall|i: int| 0 <= i < e - p implies is_digit(#[trigger] s.subrange(p, e)[i]) by {
            if i > 0 {
                assert(s.subrange(p, e)[i] == s.subrange(p + 1, e)[i - 1]);
            }
        }
    }
}

pub fn pos_at_exec(s: &Vec<u8>, p: usize) -> (r: Position)
    requires
        p < s@.len(),
    ensures
        r == pos_at(s@, p as int),
{
    let (line, col) = line_col_exec(s, p);
    Position { line, col }
}

/// Builds the identifier that starts at `p`.
pub fn build_identifier(s: &Vec<u8>, p: usize) -> (r: Node<Identifier>)
    requires
        p <= s@.len(),
        m_identifier(s@, p as int) is Some,
    ensures
        r@ == ident_view(s@, p as int),
{
    let mut scratch = Tracker::new();
    let e = identifier(s, p, &mut scratch).unwrap();
    Node { pos: pos_at_exec(s, p), tnode: Identifier { value: ascii_string(s, p, e) } }
}

fn build_item(s: &Vec<u8>, p: usize) -> (r: Node<Identifier>)
    requires
        p <= s@.len(),
        m_item(s@, p as int) is Some,
    ensures
        r@ == item_view(s@, p as int),
{
    if p < s.len() && s[p] == 42u8 {
        let mut v = String::new();
        push_char(&mut v, '*');
        assert(v@ =~= seq!['*']);
        Node { pos: pos_at_exec(s, p), tnode: Identifier { value: v } }
    } else {
        build_identifier(s, p)
    }
}

/// Builds the column name list that starts at `p`.
pub fn build_column_list(s: &Vec<u8>, p: usize) -> (r: Node<ColumnNameList>)
    requires
        p <= s@.len(),
        m_column_name_list(s@, p as int) is Some,
    ensures
        r@ == column_list_view(s@, p as int),
{
    let mut scratch = Tracker::new();
    let first = build_item(s, p);
    let mut nodes: Vec<Node<Identifier>> = Vec::new();
    nodes.push(first);
    let ghost full = column_list_view(s@, p as int).tnode;
    let mut cur = crate::recognize::item_end(s, p);
    assert(Seq::new(nodes@.len(), |i: int| nodes@[i]@) =~= seq![item_view(s@, p as int)]);
    loop
        invariant
            p < cur <= s@.len(),
            full == column_list_view(s@, p as int).tnode,
            Seq::new(nodes@.len(), |i: int| nodes@[i]@) + items_rest_view(s@, cur as int) =~= full,
        ensures
            Seq::new(nodes@.len(), |i: int| nodes@[i]@) =~= full,
        decreases s@.len() - cur,
    {
        let ghost before = Seq::new(nodes@.len(), |i: int| nodes@[i]@);
        let a = skip_ws_exec(s, cur);
        let c = match tok(s, a, 44u8, crate::grammar::Rule::tok_comma, &mut scratch) {
            None => {
                assert(items_rest_view(s@, cur as int) =~= Seq::<NodeView<Seq<char>>>::empty());
                break;
            },
            Some(c) => c,
        };
        let b = skip_ws_exec(s, c);
        match crate::recognize::item_plain(s, b) {
            None => {
                assert(items_rest_view(s@, cur as int) =~= Seq::<NodeView<Seq<char>>>::empty());
                break;
            },
            Some(e) => {
                let n = build_item(s, b);
                nodes.push(n);
                assert(Seq::new(nodes@.len(), |i: int| nodes@[i]@) =~= before.push(item_view(s@, b as int)));
                assert(items_rest_view(s@, cur as int) =~= seq![item_view(s@, b as int)] + items_rest_view(s@, e as int));
                cur = e;
            },
        }
    }
    Node { pos: pos_at_exec(s, p), tnode: ColumnNameList { identifiers: nodes } }
}

/// Builds the expression of the integer literal that starts at `p`.
pub fn build_int_expr(s: &Vec<u8>, p: usize) -> (r: Node<Expression>)
    requires
        p <= s@.len(),
        m_lit_integer(s@, p as int) is Some,
        int_fits(s@, p as int),
    ensures
        r@ == int_expr_view(s@, p as int),
{
    let mut scratch = Tracker::new();
    let e = lit_integer(s, p, &mut scratch).unwrap();
    proof {
        lemma_digits_end_all_digits(s@, p as int);
    }
    let v = digits_value_exec(s, p, e);
    Node { pos: pos_at_exec(s, p), tnode: Expression::Literal { lit: Literal::Int(v) } }
}

/// The text of the boolean literal that starts at `p`.
pub open spec fn bool_text(s: Seq<u8>, p: int) -> Seq<u8> {
    s.subrange(p, m_lit_bool(s, p)->0)
}

/// The boolean literal that starts at `p` is written `true` or `false`.
pub open spec fn bool_parses(s: Seq<u8>, p: int) -> bool {
    bool_text(s, p) == seq![116u8, 114u8, 117u8, 101u8] || bool_text(s, p) == seq![
        102u8,
        97u8,
        108u8,
        115u8,
        101u8,
    ]
}

/// The literal that starts at `p`: a boolean (`true` exactly when it is
/// written `true`) or an integer.
pub open spec fn literal_view(s: Seq<u8>, p: int, is_bool: bool) -> LiteralView {
    if is_bool {
        LiteralView::Bool(bool_text(s, p) == seq![116u8, 114u8, 117u8, 101u8])
    } else {
        LiteralView::Int(digits_value(int_digits(s, p)) as i32)
    }
}

/// Builds the literal that starts at `p`.
pub fn build_literal(s: &Vec<u8>, p: usize, is_bool: bool) -> (r: Literal)
    requires
        p <= s@.len(),
        is_bool ==> m_lit_bool(s@, p as int) is Some && bool_parses(s@, p as int),
        !is_bool ==> m_lit_integer(s@, p as int) is Some && int_fits(s@, p as int),
    ensures
        r@ == literal_view(s@, p as int, is_bool),
{
    if is_bool {
        let ghost t = bool_text(s@, p as int);
        assert(t[0] == s@[p as int]);
        Literal::Bool(s[p] == 116u8)
    } else {
        let n = build_int_expr(s, p);
        match n.tnode {
            Expression::Literal { lit } => lit,
        }
    }
}

/// Builds the TOP clause that starts at `p`.
pub fn build_top(s: &Vec<u8>, p: usize, legacy: bool) -> (r: Node<TopStatement>)
    requires
        p <= s@.len(),
        legacy ==> m_stmt_top_legacy(s@, p as int) is Some,
        !legacy ==> m_stmt_top(s@, p as int) is Some,
        int_fits(s@, top_int_start(s@, p as int, legacy)),
    ensures
        r@ == top_view(s@, p as int, legacy),
{
    let mut scratch = Tracker::new();
    let e1 = kw(s, p, Kw::Top, crate::grammar::Rule::kw_top, &mut scratch).unwrap();
    let q1 = skip_ws_exec(s, e1);
    let kw_node = Node { pos: pos_at_exec(s, p), tnode: Keyword::Top };
    if legacy {
        let ex = build_int_expr(s, q1);
        Node {
            pos: pos_at_exec(s, p),
            tnode: TopStatement { top_keyword: kw_node, expr: ex, paren_open: None, paren_close: None },
        }
    } else {
        let e2 = tok(s, q1, 40u8, crate::grammar::Rule::tok_paren_open, &mut scratch).unwrap();
        let q2 = skip_ws_exec(s, e2);
        let ex = build_int_expr(s, q2);
        let e3 = lit_integer(s, q2, &mut scratch).unwrap();
        let q3 = skip_ws_exec(s, e3);
        let open = Node { pos: pos_at_exec(s, q1), tnode: Token::ParenOpen };
        let close = Node { pos: pos_at_exec(s, q3), tnode: Token::ParenClose };
        Node {
            pos: pos_at_exec(s, p),
            tnode: TopStatement {
                top_keyword: kw_node,
                expr: ex,
                paren_open: Some(open),
                paren_close: Some(close),
            },
        }
    }
}

/// Builds the SELECT statement that starts at `p`.
pub fn build_select(s: &Vec<u8>, p: usize) -> (r: Node<SelectStatement>)
    requires
        p <= s@.len(),
        m_stmt_select(s@, p as int) is Some,
        select_buildable(s@, p as int),
    ensures
        r@ == select_view(s@, p as int),
{
    let mut scratch = Tracker::new();
    let e1 = kw(s, p, Kw::Select, crate::grammar::Rule::kw_select, &mut scratch).unwrap();
    let q1 = skip_ws_exec(s, e1);
    let (top, e2) = match top_choice(s, q1, &mut scratch) {
        Some((legacy, e)) => (Some(build_top(s, q1, legacy)), e),
        None => (None, e1),
    };
    let q2 = skip_ws_exec(s, e2);
    let columns = build_column_list(s, q2);
    let e3 = column_name_list(s, q2, &mut scratch).unwrap();
    let q3 = skip_ws_exec(s, e3);
    let e4 = kw(s, q3, Kw::From, crate::grammar::Rule::kw_from, &mut scratch).unwrap();
    let q4 = skip_ws_exec(s, e4);
    let table = build_identifier(s, q4);
    Node {
        pos: pos_at_exec(s, p),
        tnode: SelectStatement { top_statement: top, column_name_list: columns, table_identifier: table },
    }
}

/// Whether the integer of the TOP statement that starts at `p` fits in an `i32`.
pub fn top_int_fits_exec(s: &Vec<u8>, p: usize, legacy: bool) -> (b: bool)
    requires
        p <= s@.len(),
        legacy ==> m_stmt_top_legacy(s@, p as int) is Some,
        !legacy ==> m_stmt_top(s@, p as int) is Some,
    ensures
        b == int_fits(s@, top_int_start(s@, p as int, legacy)),
{
    let mut scratch = Tracker::new();
    let t1 = kw(s, p, Kw::Top, crate::grammar::Rule::kw_top, &mut scratch).unwrap();
    let k = skip_ws_exec(s, t1);
    let start = if legacy {
        k
    } else {
        let o = tok(s, k, 40u8, crate::grammar::Rule::tok_paren_open, &mut scratch).unwrap();
        skip_ws_exec(s, o)
    };
    let end = lit_integer(s, start, &mut scratch).unwrap();
    proof {
        lemma_digits_end_all_digits(s@, start as int);
    }
    digits_fit_i32(s, start, end)
}

/// Whether the SELECT statement that starts at `p`, if there is one, can be
/// turned into a tree.
pub fn select_buildable_exec(s: &Vec<u8>, p: usize) -> (b: bool)
    requires
        p <= s@.len(),
    ensures
        b == (m_stmt_select(s@, p as int) is Some ==> select_buildable(s@, p as int)),
{
    let mut scratch = Tracker::new();
    if crate::recognize::stmt_select(s, p, &mut scratch).is_none() {
        return true;
    }
    let e1 = kw(s, p, Kw::Select, crate::grammar::Rule::kw_select, &mut scratch).unwrap();
    let q1 = skip_ws_exec(s, e1);
    let legacy = match top_choice(s, q1, &mut scratch) {
        None => return true,
        Some((legacy, _)) => legacy,
    };
    let t1 = kw(s, q1, Kw::Top, crate::grammar::Rule::kw_top, &mut scratch).unwrap();
    let k = skip_ws_exec(s, t1);
    let start = if legacy {
        k
    } else {
        let o = tok(s, k, 40u8, crate::grammar::Rule::tok_paren_open, &mut scratch).unwrap();
        skip_ws_exec(s, o)
    };
    let end = lit_integer(s, start, &mut scratch).unwrap();
    proof {
        lemma_digits_end_all_digits(s@, start as int);
    }
    let fits = digits_fit_i32(s, start, end);
    let after = skip_ws_exec(s, end);
    let modifier = if legacy {
        kw(s, after, Kw::Percent, crate::grammar::Rule::kw_percent, &mut scratch).is_some()
    } else {
        let e4 = tok(s, after, 41u8, crate::grammar::Rule::tok_paren_close, &mut scratch).unwrap();
        let q4 = skip_ws_exec(s, e4);
        match kw(s, q4, Kw::Percent, crate::grammar::Rule::kw_percent, &mut scratch) {
            Some(_) => true,
            None => {
                let q5 = skip_ws_exec(s, e4);
                kw2(s, q5, Kw::With, Kw::Ties, crate::grammar::Rule::kw_with_ties, &mut scratch).is_some()
            },
        }
    };
    fits && !modifier
}

/// Builds the CREATE TABLE statement that starts at `p`.
pub fn build_create_table(s: &Vec<u8>, p: usize) -> (r: Node<CreateTableStatement>)
    requires
        p <= s@.len(),
        m_stmt_create_table(s@, p as int) is Some,
    ensures
        r@ == (NodeView { pos: pos_at(s@, p as int), tnode: create_table_view(s@, p as int) }),
{
    let mut scratch = Tracker::new();
    let e1 = kw2(s, p, Kw::Create, Kw::Table, crate::grammar::Rule::kw_create_table, &mut scratch).unwrap();
    let q1 = skip_ws_exec(s, e1);
    let ident = build_identifier(s, q1);
    Node { pos: pos_at_exec(s, p), tnode: CreateTableStatement { table_identifier: ident } }
}


// ---------------------------------------------------------------- laws

/// Every position in the tree has a line and a column of at least 1.
pub proof fn lemma_positions_start_at_one(s: Seq<u8>, p: int)
    requires
        0 <= p <= s.len(),
        s.len() <= isize::MAX,
    ensures
        pos_at(s, p).line >= 1,
        pos_at(s, p).col >= 1,
{
    lemma_line_col_bounds(s.take(p));
}

/// A TOP statement written `TOP n` is legacy; one written `TOP (n)` is not,
/// and it has both of its parentheses.
pub proof fn lemma_top_legacy_form(s: Seq<u8>, p: int, legacy: bool)
    ensures
        top_view(s, p, legacy).tnode.is_legacy() == legacy,
        top_view(s, p, legacy).tnode.paren_open is Some <==> !legacy,
        top_view(s, p, legacy).tnode.paren_close is Some <==> !legacy,
{
}

/// The TOP statement of a SELECT is legacy exactly when `stmt_top` does not
/// match after `SELECT` and `stmt_top_legacy` does.
pub proof fn lemma_select_top_legacy(s: Seq<u8>, p: int)
    ensures
        select_view(s, p).tnode.top_statement matches Some(t) ==> (t.tnode.is_legacy() <==> (
            m_stmt_top(s, select_top_start(s, p)) is None
        )),
        select_view(s, p).tnode.top_statement is Some <==> (
            m_stmt_top(s, select_top_start(s, p)) is Some
            || m_stmt_top_legacy(s, select_top_start(s, p)) is Some
        ),
{
}

/// Position `a` comes before position `b`.
pub open spec fn pos_lt(a: Position, b: Position) -> bool {
    a.line < b.line || (a.line == b.line && a.col < b.col)
}

/// Position `a` does not come after position `b`.
pub open spec fn pos_le(a: Position, b: Position) -> bool {
    a.line < b.line || (a.line == b.line && a.col <= b.col)
}

pub(crate) proof fn lemma_skip_ws_bounds(s: Seq<u8>, p: int)
    requires
        0 <= p <= s.len(),
    ensures
        p <= skip_ws(s, p) <= s.len(),
    decreases s.len() - p,
{
    if p < s.len() && is_ws(s[p]) {
        lemma_skip_ws_bounds(s, p + 1);
    }
}

pub(crate) proof fn lemma_ident_end_bounds(s: Seq<u8>, p: int)
    requires
        0 <= p <= s.len(),
    ensures
        p <= ident_end(s, p) <= s.len(),
    decreases s.len() - p,
{
    if p < s.len() && crate::grammar::is_ident_char(s[p]) {
        lemma_ident_end_bounds(s, p + 1);
    }
}

/// Positions of later bytes do not come before those of earlier ones, and
/// the byte after an ASCII character other than a line feed comes strictly later.
proof fn lemma_pos_at_order(s: Seq<u8>, p: int, q: int)
    requires
        0 <= p <= q <= s.len(),
        s.len() <= isize::MAX,
    ensures
        pos_le(pos_at(s, p), pos_at(s, q)),
        p < q && s[p] < 128u8 && s[p] != 10u8 ==> pos_lt(pos_at(s, p), pos_at(s, q)),
{
    lemma_line_col_bounds(s.take(p));
    lemma_line_col_bounds(s.take(q));
    lemma_line_col_monotone(s, p, q);
    if p < q && s[p] < 128u8 && s[p] != 10u8 {
        lemma_line_col_step(s, p);
        lemma_line_col_monotone(s, p + 1, q);
        lemma_line_col_bounds(s.take(p + 1));
    }
}

proof fn lemma_items_rest_order(s: Seq<u8>, cur: int)
    requires
        0 <= cur <= s.len(),
        s.len() <= isize::MAX,
    ensures
        forall|k: int|
            0 <= k < items_rest_view(s, cur).len() ==> pos_le(
                pos_at(s, cur),
                #[trigger] items_rest_view(s, cur)[k].pos,
            ),
        forall|i: int, j: int|
            0 <= i < j < items_rest_view(s, cur).len() ==> pos_lt(
                #[trigger] items_rest_view(s, cur)[i].pos,
                #[trigger] items_rest_view(s, cur)[j].pos,
            ),
    decreases s.len() - cur,
{
    let a = skip_ws(s, cur);
    lemma_skip_ws_bounds(s, cur);
    match m_tok(s, a, 44u8) {
        None => {},
        Some(c) => {
            let b = skip_ws(s, c);
            lemma_skip_ws_bounds(s, c);
            match m_item(s, b) {
                None => {},
                Some(e) => {
                    if cur < e <= s.len() {
                        lemma_items_rest_order(s, e);
                        if m_tok(s, b, 42u8) is None {
                            lemma_ident_end_bounds(s, b + 1);
                        }
                        lemma_pos_at_order(s, cur, b);
                        lemma_pos_at_order(s, b, e);
                        let rest = items_rest_view(s, e);
                        let all = items_rest_view(s, cur);
                        assert(all == seq![item_view(s, b)] + rest);
                        assert(item_view(s, b).pos == pos_at(s, b));
                        assert forall|k: int| 0 <= k < all.len() implies pos_le(
                            pos_at(s, cur),
                            #[trigger] all[k].pos,
                        ) by {
                            if k > 0 {
                                assert(all[k] == rest[k - 1]);
                                lemma_pos_at_order(s, cur, e);
                            }
                        }
                        assert forall|i: int, j: int| 0 <= i < j < all.len() implies pos_lt(
                            #[trigger] all[i].pos,
                            #[trigger] all[j].pos,
                        ) by {
                            assert(all[j] == rest[j - 1]);
                            if i > 0 {
                                assert(all[i] == rest[i - 1]);
                            } else {
                                assert(pos_le(pos_at(s, e), rest[j - 1].pos));
                            }
                        }
                    }
                },
            }
        },
    }
}

/// The column names of a list come in the order in which they are written:
/// each one's position comes after the previous one's, and the first one
/// stands where the list starts.
pub proof fn lemma_column_names_in_order(s: Seq<u8>, p: int)
    requires
        0 <= p <= s.len(),
        s.len() <= isize::MAX,
        m_column_name_list(s, p) is Some,
    ensures
        column_list_view(s, p).tnode[0].pos == column_list_view(s, p).pos,
        forall|i: int, j: int|
            0 <= i < j < column_list_view(s, p).tnode.len() ==> pos_lt(
                #[trigger] column_list_view(s, p).tnode[i].pos,
                #[trigger] column_list_view(s, p).tnode[j].pos,
            ),
{
    let e = m_item(s, p)->0;
    if m_tok(s, p, 42u8) is None {
        lemma_ident_end_bounds(s, p + 1);
    }
    lemma_items_rest_order(s, e);
    lemma_pos_at_order(s, p, e);
    let rest = items_rest_view(s, e);
    let all = column_list_view(s, p).tnode;
    assert(all == seq![item_view(s, p)] + rest);
    assert forall|i: int, j: int| 0 <= i < j < all.len() implies pos_lt(
        #[trigger] all[i].pos,
        #[trigger] all[j].pos,
    ) by {
        assert(all[j] == rest[j - 1]);
        if i > 0 {
            assert(all[i] == rest[i - 1]);
        } else {
            assert(pos_le(pos_at(s, e), rest[j - 1].pos));
        }
    }
}

/// The parts of a TOP statement come in the order in which they are written:
/// the keyword (where the statement starts), then the opening parenthesis,
/// the integer and the closing parenthesis (or just the integer, in the
/// legacy form).
pub proof fn lemma_top_parts_in_order(s: Seq<u8>, p: int, legacy: bool)
    requires
        0 <= p <= s.len(),
        s.len() <= isize::MAX,
        legacy ==> m_stmt_top_legacy(s, p) is Some,
        !legacy ==> m_stmt_top(s, p) is Some,
    ensures
        top_view(s, p, legacy).tnode.top_keyword.pos == top_view(s, p, legacy).pos,
        pos_lt(top_view(s, p, legacy).tnode.top_keyword.pos, top_view(s, p, legacy).tnode.expr.pos),
        !legacy ==> {
            let t = top_view(s, p, legacy).tnode;
            &&& pos_lt(t.top_keyword.pos, t.paren_open->0.pos)
            &&& pos_lt(t.paren_open->0.pos, t.expr.pos)
            &&& pos_lt(t.expr.pos, t.paren_close->0.pos)
        },
{
    let e1 = p + kw_bytes(Kw::Top).len();
    let q1 = skip_ws(s, e1);
    assert(m_kw(s, p, Kw::Top) is Some);
    assert(ascii_lower(s[p + 0]) == ascii_lower(kw_bytes(Kw::Top)[0]));
    lemma_skip_ws_bounds(s, e1);
    lemma_pos_at_order(s, p, q1);
    if !legacy {
        assert(m_tok(s, q1, 40u8) is Some);
        let d = skip_ws(s, q1 + 1);
        lemma_skip_ws_bounds(s, q1 + 1);
        lemma_pos_at_order(s, q1, d);
        assert(m_expr(s, d) is Some);
        lemma_digits_end_all_digits(s, d + 1);
        let de = digits_end(s, d);
        assert(de == digits_end(s, d + 1));
        lemma_skip_ws_bounds(s, de);
        lemma_pos_at_order(s, d, skip_ws(s, de));
    }
}

/// A boolean literal reads as it is written: `true` gives true and `false`
/// gives false.
pub proof fn lemma_bool_literal_reads_as_written(s: Seq<u8>, p: int)
    requires
        m_lit_bool(s, p) is Some,
    ensures
        s.subrange(p, m_lit_bool(s, p)->0) == seq![116u8, 114u8, 117u8, 101u8] ==> literal_view(s, p, true)
            == LiteralView::Bool(true),
        s.subrange(p, m_lit_bool(s, p)->0) == seq![102u8, 97u8, 108u8, 115u8, 101u8] ==> literal_view(
            s,
            p,
            true,
        ) == LiteralView::Bool(false),
{
    let t = s.subrange(p, m_lit_bool(s, p)->0);
    if t == seq![102u8, 97u8, 108u8, 115u8, 101u8] {
        assert(t[0] != seq![116u8, 114u8, 117u8, 101u8][0]);
    }
}

proof fn lemma_digits_value_at_least_one(t: Seq<u8>)
    requires
        t.len() > 0,
        all_digits(t),
        t[0] != 48u8,
    ensures
        digits_value(t) >= 1,
    decreases t.len(),
{
    if t.len() > 1 {
        let d = t.drop_last();
        assert(all_digits(d)) by {
            assert forall|i: int| 0 <= i < d.len() implies is_digit(#[trigger] d[i]) by {
                assert(d[i] == t[i]);
            }
        }
        lemma_digits_value_at_least_one(d);
        assert(is_digit(t[t.len() - 1]));
    } else {
        assert(is_digit(t[0]));
        assert(t.drop_last() =~= Seq::<u8>::empty());
        assert(digits_value(t.drop_last()) == 0);
        assert(t.last() == t[0]);
    }
}

/// The decimal notation of the value of digits without a leading zero is
/// those digits.
proof fn lemma_decimal_of_digits(t: Seq<u8>)
    requires
        t.len() > 0,
        all_digits(t),
        t[0] != 48u8 || t.len() == 1,
    ensures
        digits_value(t) >= 0,
        decimal(digits_value(t) as nat) == ascii_chars(t),
    decreases t.len(),
{
    assert(is_digit(t[t.len() - 1]));
    let last = t.last();
    if t.len() == 1 {
        assert(t.drop_last() =~= Seq::<u8>::empty());
        assert(digits_value(t.drop_last()) == 0);
        assert(digits_value(t) == last - 48);
        assert(decimal(digits_value(t) as nat) =~= ascii_chars(t));
    } else {
        let d = t.drop_last();
        assert(all_digits(d)) by {
            assert forall|i: int| 0 <= i < d.len() implies is_digit(#[trigger] d[i]) by {
                assert(d[i] == t[i]);
            }
        }
        assert(d[0] == t[0]);
        lemma_decimal_of_digits(d);
        lemma_digits_value_at_least_one(d);
        let v = digits_value(d);
        let n = digits_value(t);
        let k = last - 48;
        assert(n == v * 10 + k);
        assert(0 <= k < 10);
        assert(n / 10 == v && n % 10 == k) by (nonlinear_arith)
            requires
                n == v * 10 + k,
                0 <= k < 10,
                v >= 1,
        ;
        assert(n >= 10);
        assert(decimal(n as nat) == decimal((n / 10) as nat).push(digit_char((n % 10) as int)));
        assert(ascii_chars(t) =~= ascii_chars(d).push(last as char));
    }
}

/// An integer reads as it is written: written without a leading zero, the
/// decimal notation of its value is its text. This holds of the integer of
/// an expression and of an integer literal alike.
pub proof fn lemma_integer_reads_as_written(s: Seq<u8>, p: int)
    requires
        m_lit_integer(s, p) is Some,
        int_fits(s, p),
        s[p] != 48u8 || digits_end(s, p) == p + 1,
    ensures
        int_expr_view(s, p).tnode matches ExpressionView::Literal { lit: LiteralView::Int(v) } && v
            >= 0 && decimal(v as nat) == ascii_chars(s.subrange(p, digits_end(s, p))),
        literal_view(s, p, false) matches LiteralView::Int(v) && v >= 0 && decimal(v as nat)
            == ascii_chars(s.subrange(p, digits_end(s, p))),
{
    lemma_digits_end_all_digits(s, p + 1);
    lemma_digits_end_all_digits(s, p);
    let t = s.subrange(p, digits_end(s, p));
    assert(t.len() > 0);
    assert(t[0] == s[p]);
    lemma_decimal_of_digits(t);
}

/// A name in the tree is its source text, character for character and all
/// of it: an identifier up to the first byte that is not an ASCII letter,
/// digit or `_`, or the single character `*`.
pub proof fn lemma_names_are_their_text(s: Seq<u8>, p: int)
    requires
        m_item(s, p) is Some,
    ensures
        item_view(s, p).pos == pos_at(s, p),
        item_view(s, p).tnode.len() == m_item(s, p)->0 - p,
        forall|i: int|
            0 <= i < item_view(s, p).tnode.len() ==> #[trigger] item_view(s, p).tnode[i] == s[p + i] as char,
        m_tok(s, p, 42u8) is None ==> ident_view(s, p) == item_view(s, p),
{
    if m_tok(s, p, 42u8) is None {
        crate::grammar::lemma_identifier_takes_whole_name(s, p);
    }
}

} // verus!
