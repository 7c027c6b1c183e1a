//! Matching does not depend on the case of ASCII letters: keywords match in
//! any case, and identifiers take letters of either case.
use vstd::prelude::*;
use crate::tree::{lemma_ident_end_bounds, select_view, pos_at, top_view, item_view, items_rest_view, column_list_view, select_table_start, int_expr_view, lemma_skip_ws_bounds, select_buildable, int_digits, top_has_modifier, top_int_start, top_close_start, select_top_start, lemma_digits_end_all_digits};
use crate::{tsql_buildable, select_start_buildable};
use crate::text::{line_col, ascii_chars};
use crate::ast::NodeView;
use crate::grammar::{
    Rule, Fails, Kw, kw_bytes, kw_at, ascii_lower, is_ws, is_digit, is_ident_start, is_ident_char,
    skip_ws, digits_end, ident_end, no_fails, m_kw, m_tok, t_tok, m_lit_integer, m_identifier,
    m_item, t_item, m_expr, m_items_rest, t_items_rest, t_kw, m_kw2, t_kw2, t_lit_integer,
    t_identifier, t_expr, m_lit_bool, t_lit_bool, m_literal, t_literal, m_with_ties,
    m_create_table, m_stmt_top, t_stmt_top_body, t_stmt_top, m_stmt_top_legacy,
    t_stmt_top_legacy_body, t_stmt_top_legacy, m_column_name_list, t_column_name_list,
    m_comparison_op, t_comparison_op_body, t_comparison_op, m_comparison, t_comparison,
    m_clause_where, t_clause_where, m_top_choice, t_top_choice, select_columns_start,
    m_stmt_select, t_stmt_select_body, t_stmt_select, m_tsql, t_tsql, m_stmt_create_table,
    t_stmt_create_table, m_top_level_repl, t_top_level_repl,
};

verus! {

/// `b` is an ASCII letter.
pub open spec fn is_letter(b: u8) -> bool {
    (65u8 <= b <= 90u8) || (97u8 <= b <= 122u8)
}

/// `s` and `t` differ at most in the case of ASCII letters.
pub open spec fn same_but_case(s: Seq<u8>, t: Seq<u8>) -> bool {
    &&& s.len() == t.len()
    &&& forall|i: int| 0 <= i < s.len() ==> #[trigger] ascii_lower(s[i]) == ascii_lower(t[i])
}

proof fn lemma_byte_case(a: u8, b: u8)
    requires
        ascii_lower(a) == ascii_lower(b),
    ensures
        a == b || (is_letter(a) && is_letter(b)),
        is_ws(a) == is_ws(b),
        is_digit(a) == is_digit(b),
        is_ident_start(a) == is_ident_start(b),
        is_ident_char(a) == is_ident_char(b),
        forall|c: u8| !is_letter(c) ==> ((a == c) == (b == c)),
{
}

proof fn lemma_skip_ws_case(s: Seq<u8>, t: Seq<u8>, p: int)
    requires
        same_but_case(s, t),
    ensures
        skip_ws(s, p) == skip_ws(t, p),
    decreases s.len() - p,
{
    if 0 <= p < s.len() {
        lemma_byte_case(s[p], t[p]);
        if is_ws(s[p]) {
            lemma_skip_ws_case(s, t, p + 1);
        }
    }
}

proof fn lemma_digits_end_case(s: Seq<u8>, t: Seq<u8>, p: int)
    requires
        same_but_case(s, t),
    ensures
        digits_end(s, p) == digits_end(t, p),
    decreases s.len() - p,
{
    if 0 <= p < s.len() {
        lemma_byte_case(s[p], t[p]);
        if is_digit(s[p]) {
            lemma_digits_end_case(s, t, p + 1);
        }
    }
}

proof fn lemma_ident_end_case(s: Seq<u8>, t: Seq<u8>, p: int)
    requires
        same_but_case(s, t),
    ensures
        ident_end(s, p) == ident_end(t, p),
    decreases s.len() - p,
{
    if 0 <= p < s.len() {
        lemma_byte_case(s[p], t[p]);
        if is_ident_char(s[p]) {
            lemma_ident_end_case(s, t, p + 1);
        }
    }
}

proof fn lemma_kw_case(s: Seq<u8>, t: Seq<u8>, p: int, k: Kw)
    requires
        same_but_case(s, t),
    ensures
        kw_at(s, p, k) == kw_at(t, p, k),
        m_kw(s, p, k) == m_kw(t, p, k),
{
    if 0 <= p && p + kw_bytes(k).len() <= s.len() {
        assert forall|i: int|
            #![trigger kw_bytes(k)[i]]
            0 <= i < kw_bytes(k).len() implies ascii_lower(s[p + i]) == ascii_lower(t[p + i]) by {
            assert(ascii_lower(s[p + i]) == ascii_lower(t[p + i]));
        }
    }
}

proof fn lemma_tok_case(s: Seq<u8>, t: Seq<u8>, p: int, b: u8)
    requires
        same_but_case(s, t),
        !is_letter(b),
    ensures
        m_tok(s, p, b) == m_tok(t, p, b),
{
    if 0 <= p < s.len() {
        lemma_byte_case(s[p], t[p]);
    }
}

proof fn lemma_atoms_case(s: Seq<u8>, t: Seq<u8>, p: int)
    requires
        same_but_case(s, t),
    ensures
        skip_ws(s, p) == skip_ws(t, p),
        m_lit_integer(s, p) == m_lit_integer(t, p),
        m_identifier(s, p) == m_identifier(t, p),
        m_item(s, p) == m_item(t, p),
        m_expr(s, p) == m_expr(t, p),
{
    lemma_skip_ws_case(s, t, p);
    lemma_digits_end_case(s, t, p);
    lemma_ident_end_case(s, t, p + 1);
    lemma_tok_case(s, t, p, 42u8);
    if 0 <= p < s.len() {
        lemma_byte_case(s[p], t[p]);
    }
}

proof fn lemma_items_rest_case(s: Seq<u8>, t: Seq<u8>, cur: int, f: Fails)
    requires
        same_but_case(s, t),
    ensures
        m_items_rest(s, cur) == m_items_rest(t, cur),
        t_items_rest(s, cur, f) == t_items_rest(t, cur, f),
    decreases s.len() - cur,
{
    let a = skip_ws(s, cur);
    lemma_atoms_case(s, t, cur);
    lemma_tok_case(s, t, a, 44u8);
    match m_tok(s, a, 44u8) {
        None => {},
        Some(c) => {
            let b = skip_ws(s, c);
            lemma_atoms_case(s, t, c);
            lemma_atoms_case(s, t, b);
            lemma_tok_case(s, t, b, 42u8);
            let f1 = t_tok(s, a, 44u8, Rule::tok_comma, f);
            match m_item(s, b) {
                None => {},
                Some(e) => {
                    if cur < e <= s.len() {
                        lemma_items_rest_case(s, t, e, t_item(s, b, f1));
                    }
                },
            }
        },
    }
}

/// All the primitive parts of the grammar give the same result on `s` and `t`.
proof fn lemma_parts_case(s: Seq<u8>, t: Seq<u8>)
    requires
        same_but_case(s, t),
    ensures
        forall|p: int| #[trigger] skip_ws(s, p) == skip_ws(t, p),
        forall|p: int| #[trigger] digits_end(s, p) == digits_end(t, p),
        forall|p: int, k: Kw| #[trigger] m_kw(s, p, k) == m_kw(t, p, k),
        forall|p: int, b: u8| !is_letter(b) ==> #[trigger] m_tok(s, p, b) == m_tok(t, p, b),
        forall|p: int| #[trigger] m_lit_integer(s, p) == m_lit_integer(t, p),
        forall|p: int| #[trigger] m_identifier(s, p) == m_identifier(t, p),
        forall|p: int| #[trigger] m_item(s, p) == m_item(t, p),
        forall|p: int| #[trigger] m_expr(s, p) == m_expr(t, p),
        forall|p: int| #[trigger] m_items_rest(s, p) == m_items_rest(t, p),
        forall|p: int, f: Fails| #[trigger] t_items_rest(s, p, f) == t_items_rest(t, p, f),
{
    assert forall|p: int| #[trigger] skip_ws(s, p) == skip_ws(t, p) by {
        lemma_atoms_case(s, t, p);
    }
    assert forall|p: int| #[trigger] digits_end(s, p) == digits_end(t, p) by {
        lemma_digits_end_case(s, t, p);
    }
    assert forall|p: int, k: Kw| #[trigger] m_kw(s, p, k) == m_kw(t, p, k) by {
        lemma_kw_case(s, t, p, k);
    }
    assert forall|p: int, b: u8| !is_letter(b) implies #[trigger] m_tok(s, p, b) == m_tok(t, p, b) by {
        lemma_tok_case(s, t, p, b);
    }
    assert forall|p: int| #[trigger] m_lit_integer(s, p) == m_lit_integer(t, p) by {
        lemma_atoms_case(s, t, p);
    }
    assert forall|p: int| #[trigger] m_identifier(s, p) == m_identifier(t, p) by {
        lemma_atoms_case(s, t, p);
    }
    assert forall|p: int| #[trigger] m_item(s, p) == m_item(t, p) by {
        lemma_atoms_case(s, t, p);
    }
    assert forall|p: int| #[trigger] m_expr(s, p) == m_expr(t, p) by {
        lemma_atoms_case(s, t, p);
    }
    assert forall|p: int| #[trigger] m_items_rest(s, p) == m_items_rest(t, p) by {
        lemma_items_rest_case(s, t, p, no_fails());
    }
    assert forall|p: int, f: Fails| #[trigger] t_items_rest(s, p, f) == t_items_rest(t, p, f) by {
        lemma_items_rest_case(s, t, p, f);
    }
}

/// The terminals and single keywords, with their failure records.
proof fn lemma_terminals_case(s: Seq<u8>, t: Seq<u8>)
    requires
        same_but_case(s, t),
    ensures
        forall|p: int, b: u8, r: Rule, f: Fails|
            !is_letter(b) ==> #[trigger] t_tok(s, p, b, r, f) == t_tok(t, p, b, r, f),
        forall|p: int, k: Kw, r: Rule, f: Fails| #[trigger] t_kw(s, p, k, r, f) == t_kw(t, p, k, r, f),
        forall|p: int, k1: Kw, k2: Kw| #[trigger] m_kw2(s, p, k1, k2) == m_kw2(t, p, k1, k2),
        forall|p: int, k1: Kw, k2: Kw, r: Rule, f: Fails|
            #[trigger] t_kw2(s, p, k1, k2, r, f) == t_kw2(t, p, k1, k2, r, f),
        forall|p: int, f: Fails| #[trigger] t_lit_integer(s, p, f) == t_lit_integer(t, p, f),
        forall|p: int, f: Fails| #[trigger] t_identifier(s, p, f) == t_identifier(t, p, f),
        forall|p: int, f: Fails| #[trigger] t_expr(s, p, f) == t_expr(t, p, f),
        forall|p: int, f: Fails| #[trigger] t_item(s, p, f) == t_item(t, p, f),
        forall|p: int| #[trigger] m_lit_bool(s, p) == m_lit_bool(t, p),
        forall|p: int, f: Fails| #[trigger] t_lit_bool(s, p, f) == t_lit_bool(t, p, f),
        forall|p: int| #[trigger] m_literal(s, p) == m_literal(t, p),
        forall|p: int, f: Fails| #[trigger] t_literal(s, p, f) == t_literal(t, p, f),
        forall|p: int| #[trigger] m_with_ties(s, p) == m_with_ties(t, p),
        forall|p: int| #[trigger] m_create_table(s, p) == m_create_table(t, p),
{
    lemma_parts_case(s, t);
    assert forall|p: int, b: u8, r: Rule, f: Fails|
        !is_letter(b) implies #[trigger] t_tok(s, p, b, r, f) == t_tok(t, p, b, r, f) by {
        assert(m_tok(s, p, b) == m_tok(t, p, b));
    }
    assert forall|p: int, k: Kw, r: Rule, f: Fails| #[trigger] t_kw(s, p, k, r, f) == t_kw(
        t,
        p,
        k,
        r,
        f,
    ) by {
        assert(m_kw(s, p, k) == m_kw(t, p, k));
    }
    assert forall|p: int, k1: Kw, k2: Kw| #[trigger] m_kw2(s, p, k1, k2) == m_kw2(t, p, k1, k2) by {
        assert(m_kw(s, p, k1) == m_kw(t, p, k1));
    }
    assert forall|p: int, k1: Kw, k2: Kw, r: Rule, f: Fails| #[trigger] t_kw2(s, p, k1, k2, r, f)
        == t_kw2(t, p, k1, k2, r, f) by {
        assert(m_kw2(s, p, k1, k2) == m_kw2(t, p, k1, k2));
    }
    assert forall|p: int, f: Fails| #[trigger] t_lit_integer(s, p, f) == t_lit_integer(t, p, f) by {
        assert(m_lit_integer(s, p) == m_lit_integer(t, p));
    }
    assert forall|p: int, f: Fails| #[trigger] t_identifier(s, p, f) == t_identifier(t, p, f) by {
        assert(m_identifier(s, p) == m_identifier(t, p));
    }
    assert forall|p: int, f: Fails| #[trigger] t_expr(s, p, f) == t_expr(t, p, f) by {
        assert(m_lit_integer(s, p) == m_lit_integer(t, p));
        assert(t_lit_integer(s, p, f) == t_lit_integer(t, p, f));
    }
    assert forall|p: int, f: Fails| #[trigger] t_item(s, p, f) == t_item(t, p, f) by {
        assert(m_tok(s, p, 42u8) == m_tok(t, p, 42u8));
        let f1 = t_tok(s, p, 42u8, Rule::tok_star, f);
        assert(f1 == t_tok(t, p, 42u8, Rule::tok_star, f));
        assert(t_identifier(s, p, f1) == t_identifier(t, p, f1));
    }
    assert forall|p: int| #[trigger] m_lit_bool(s, p) == m_lit_bool(t, p) by {
        assert(m_kw(s, p, Kw::True) == m_kw(t, p, Kw::True));
        assert(m_kw(s, p, Kw::False) == m_kw(t, p, Kw::False));
    }
    assert forall|p: int, f: Fails| #[trigger] t_lit_bool(s, p, f) == t_lit_bool(t, p, f) by {
        assert(m_lit_bool(s, p) == m_lit_bool(t, p));
    }
    assert forall|p: int| #[trigger] m_literal(s, p) == m_literal(t, p) by {
        assert(m_lit_bool(s, p) == m_lit_bool(t, p));
        assert(m_lit_integer(s, p) == m_lit_integer(t, p));
    }
    assert forall|p: int, f: Fails| #[trigger] t_literal(s, p, f) == t_literal(t, p, f) by {
        assert(m_lit_bool(s, p) == m_lit_bool(t, p));
        assert(m_literal(s, p) == m_literal(t, p));
        let f1 = t_lit_bool(s, p, f);
        assert(f1 == t_lit_bool(t, p, f));
        assert(t_lit_integer(s, p, f1) == t_lit_integer(t, p, f1));
    }
    assert forall|p: int| #[trigger] m_with_ties(s, p) == m_with_ties(t, p) by {
        assert(m_kw2(s, p, Kw::With, Kw::Ties) == m_kw2(t, p, Kw::With, Kw::Ties));
    }
    assert forall|p: int| #[trigger] m_create_table(s, p) == m_create_table(t, p) by {
        assert(m_kw2(s, p, Kw::Create, Kw::Table) == m_kw2(t, p, Kw::Create, Kw::Table));
    }
}

/// The TOP statements, the column name list and the WHERE clause.
proof fn lemma_clauses_case(s: Seq<u8>, t: Seq<u8>)
    requires
        same_but_case(s, t),
    ensures
        forall|p: int| #[trigger] m_stmt_top(s, p) == m_stmt_top(t, p),
        forall|p: int, f: Fails| #[trigger] t_stmt_top(s, p, f) == t_stmt_top(t, p, f),
        forall|p: int| #[trigger] m_stmt_top_legacy(s, p) == m_stmt_top_legacy(t, p),
        forall|p: int, f: Fails| #[trigger] t_stmt_top_legacy(s, p, f) == t_stmt_top_legacy(t, p, f),
        forall|p: int| #[trigger] m_top_choice(s, p) == m_top_choice(t, p),
        forall|p: int, f: Fails| #[trigger] t_top_choice(s, p, f) == t_top_choice(t, p, f),
        forall|p: int| #[trigger] m_column_name_list(s, p) == m_column_name_list(t, p),
        forall|p: int, f: Fails| #[trigger] t_column_name_list(s, p, f) == t_column_name_list(t, p, f),
        forall|p: int| #[trigger] m_clause_where(s, p) == m_clause_where(t, p),
        forall|p: int, f: Fails| #[trigger] t_clause_where(s, p, f) == t_clause_where(t, p, f),
{
    lemma_parts_case(s, t);
    lemma_terminals_case(s, t);
    assert forall|p: int| #[trigger] m_stmt_top(s, p) == m_stmt_top(t, p) by {
        lemma_stmt_top_case(s, t, p, no_fails());
    }
    assert forall|p: int, f: Fails| #[trigger] t_stmt_top(s, p, f) == t_stmt_top(t, p, f) by {
        lemma_stmt_top_case(s, t, p, f);
    }
    assert forall|p: int| #[trigger] m_stmt_top_legacy(s, p) == m_stmt_top_legacy(t, p) by {
        lemma_stmt_top_legacy_case(s, t, p, no_fails());
    }
    assert forall|p: int, f: Fails| #[trigger] t_stmt_top_legacy(s, p, f) == t_stmt_top_legacy(
        t,
        p,
        f,
    ) by {
        lemma_stmt_top_legacy_case(s, t, p, f);
    }
    assert forall|p: int| #[trigger] m_top_choice(s, p) == m_top_choice(t, p) by {
        lemma_stmt_top_case(s, t, p, no_fails());
        lemma_stmt_top_legacy_case(s, t, p, no_fails());
    }
    assert forall|p: int, f: Fails| #[trigger] t_top_choice(s, p, f) == t_top_choice(t, p, f) by {
        lemma_stmt_top_case(s, t, p, f);
        lemma_stmt_top_legacy_case(s, t, p, t_stmt_top(s, p, f));
    }
    assert forall|p: int| #[trigger] m_column_name_list(s, p) == m_column_name_list(t, p) by {
        assert(m_item(s, p) == m_item(t, p));
    }
    assert forall|p: int, f: Fails| #[trigger] t_column_name_list(s, p, f) == t_column_name_list(
        t,
        p,
        f,
    ) by {
        assert(m_item(s, p) == m_item(t, p));
        assert(m_column_name_list(s, p) == m_column_name_list(t, p));
        let f1 = t_item(s, p, f);
        assert(f1 == t_item(t, p, f));
        if m_item(s, p) is Some {
            assert(t_items_rest(s, m_item(s, p)->0, f1) == t_items_rest(t, m_item(s, p)->0, f1));
        }
    }
    assert forall|p: int| #[trigger] m_clause_where(s, p) == m_clause_where(t, p) by {
        lemma_clause_where_case(s, t, p, no_fails());
    }
    assert forall|p: int, f: Fails| #[trigger] t_clause_where(s, p, f) == t_clause_where(t, p, f) by {
        lemma_clause_where_case(s, t, p, f);
    }
}

proof fn lemma_stmt_top_case(s: Seq<u8>, t: Seq<u8>, p: int, f: Fails)
    requires
        same_but_case(s, t),
    ensures
        m_stmt_top(s, p) == m_stmt_top(t, p),
        t_stmt_top_body(s, p, f) == t_stmt_top_body(t, p, f),
        t_stmt_top(s, p, f) == t_stmt_top(t, p, f),
{
    lemma_parts_case(s, t);
    lemma_terminals_case(s, t);
}

proof fn lemma_stmt_top_legacy_case(s: Seq<u8>, t: Seq<u8>, p: int, f: Fails)
    requires
        same_but_case(s, t),
    ensures
        m_stmt_top_legacy(s, p) == m_stmt_top_legacy(t, p),
        t_stmt_top_legacy_body(s, p, f) == t_stmt_top_legacy_body(t, p, f),
        t_stmt_top_legacy(s, p, f) == t_stmt_top_legacy(t, p, f),
{
    lemma_parts_case(s, t);
    lemma_terminals_case(s, t);
}

proof fn lemma_comparison_case(s: Seq<u8>, t: Seq<u8>, p: int, f: Fails)
    requires
        same_but_case(s, t),
    ensures
        m_comparison_op(s, p) == m_comparison_op(t, p),
        t_comparison_op_body(s, p, f) == t_comparison_op_body(t, p, f),
        t_comparison_op(s, p, f) == t_comparison_op(t, p, f),
        m_comparison(s, p) == m_comparison(t, p),
        t_comparison(s, p, f) == t_comparison(t, p, f),
{
    lemma_parts_case(s, t);
    lemma_terminals_case(s, t);
    assert forall|q: int, g: Fails| #[trigger] t_comparison_op(s, q, g) == t_comparison_op(t, q, g) by {
        lemma_comparison_op_case(s, t, q, g);
    }
    lemma_comparison_op_case(s, t, p, f);
}

proof fn lemma_comparison_op_case(s: Seq<u8>, t: Seq<u8>, p: int, f: Fails)
    requires
        same_but_case(s, t),
    ensures
        m_comparison_op(s, p) == m_comparison_op(t, p),
        t_comparison_op_body(s, p, f) == t_comparison_op_body(t, p, f),
        t_comparison_op(s, p, f) == t_comparison_op(t, p, f),
{
    lemma_parts_case(s, t);
    lemma_terminals_case(s, t);
    assert(m_tok(s, p, 61u8) == m_tok(t, p, 61u8));
    assert(m_tok(s, p, 33u8) == m_tok(t, p, 33u8));
    assert(m_tok(s, p + 1, 61u8) == m_tok(t, p + 1, 61u8));
    assert(m_tok(s, p, 60u8) == m_tok(t, p, 60u8));
    assert(m_tok(s, p, 62u8) == m_tok(t, p, 62u8));
}

proof fn lemma_clause_where_case(s: Seq<u8>, t: Seq<u8>, p: int, f: Fails)
    requires
        same_but_case(s, t),
    ensures
        m_clause_where(s, p) == m_clause_where(t, p),
        t_clause_where(s, p, f) == t_clause_where(t, p, f),
{
    lemma_parts_case(s, t);
    lemma_terminals_case(s, t);
    assert(m_kw(s, p, Kw::Where) == m_kw(t, p, Kw::Where));
    if m_kw(s, p, Kw::Where) is Some {
        let q = skip_ws(s, m_kw(s, p, Kw::Where)->0);
        lemma_comparison_case(s, t, q, t_kw(s, p, Kw::Where, Rule::kw_where, f));
    }
}

proof fn lemma_stmt_select_case(s: Seq<u8>, t: Seq<u8>, p: int, f: Fails)
    requires
        same_but_case(s, t),
    ensures
        select_columns_start(s, p) == select_columns_start(t, p),
        m_stmt_select(s, p) == m_stmt_select(t, p),
        t_stmt_select_body(s, p, f) == t_stmt_select_body(t, p, f),
        t_stmt_select(s, p, f) == t_stmt_select(t, p, f),
{
    lemma_parts_case(s, t);
    lemma_terminals_case(s, t);
    lemma_clauses_case(s, t);
}

proof fn lemma_stmt_create_table_case(s: Seq<u8>, t: Seq<u8>, p: int, f: Fails)
    requires
        same_but_case(s, t),
    ensures
        m_stmt_create_table(s, p) == m_stmt_create_table(t, p),
        t_stmt_create_table(s, p, f) == t_stmt_create_table(t, p, f),
{
    lemma_parts_case(s, t);
    lemma_terminals_case(s, t);
}

/// Matching does not depend on the case of ASCII letters: on two texts that
/// differ only there, every statement rule matches at the same places, ends
/// at the same places, and fails with the same record of expected rules.
/// So `get_diagnostics_for_tsql` and `parse_tsql_select` accept the same
/// queries whatever the case of their keywords, and report the same
/// expected rules for those they refuse.
pub proof fn lemma_matching_ignores_case(s: Seq<u8>, t: Seq<u8>, p: int, f: Fails)
    requires
        same_but_case(s, t),
    ensures
        m_tsql(s, p) == m_tsql(t, p),
        t_tsql(s, p, f) == t_tsql(t, p, f),
        m_stmt_select(s, p) == m_stmt_select(t, p),
        t_stmt_select(s, p, f) == t_stmt_select(t, p, f),
        m_stmt_create_table(s, p) == m_stmt_create_table(t, p),
        t_stmt_create_table(s, p, f) == t_stmt_create_table(t, p, f),
        m_top_level_repl(s, p) == m_top_level_repl(t, p),
        t_top_level_repl(s, p, f) == t_top_level_repl(t, p, f),
{
    lemma_parts_case(s, t);
    lemma_terminals_case(s, t);
    lemma_clauses_case(s, t);
    lemma_stmt_select_case(s, t, p, f);
    lemma_stmt_create_table_case(s, t, p, f);
    let f1 = t_stmt_select(s, p, f);
    lemma_stmt_create_table_case(s, t, p, f1);
    let f2 = t_stmt_create_table(s, p, f1);
    lemma_stmt_top_legacy_case(s, t, p, f2);
    let f3 = t_stmt_top_legacy(s, p, f2);
    lemma_stmt_top_case(s, t, p, f3);
    lemma_stmt_select_case(s, t, p, no_fails());
    lemma_stmt_create_table_case(s, t, p, no_fails());
    lemma_stmt_top_case(s, t, p, no_fails());
    lemma_stmt_top_legacy_case(s, t, p, no_fails());
    if m_stmt_select(s, p) is Some {
        assert(skip_ws(s, m_stmt_select(s, p)->0) == skip_ws(t, m_stmt_select(s, p)->0));
    }
}

proof fn lemma_int_digits_case(s: Seq<u8>, t: Seq<u8>, p: int)
    requires
        same_but_case(s, t),
        0 <= p <= s.len(),
    ensures
        int_digits(s, p) == int_digits(t, p),
    decreases s.len() - p,
{
    lemma_digits_end_case(s, t, p);
    if p < s.len() && is_digit(s[p]) {
        lemma_byte_case(s[p], t[p]);
        lemma_int_digits_case(s, t, p + 1);
        lemma_digits_end_all_digits(s, p + 1);
        lemma_digits_end_case(s, t, p + 1);
        assert(int_digits(s, p) =~= seq![s[p]] + int_digits(s, p + 1));
        assert(int_digits(t, p) =~= seq![t[p]] + int_digits(t, p + 1));
    } else {
        assert(int_digits(s, p) =~= int_digits(t, p));
    }
}

/// Whether the SELECT statement at `p` can be turned into a tree does not
/// depend on the case of ASCII letters either; so neither do the conditions
/// under which `get_diagnostics_for_tsql` and `parse_tsql_select` may be called.
pub proof fn lemma_buildable_ignores_case(s: Seq<u8>, t: Seq<u8>, p: int)
    requires
        same_but_case(s, t),
        0 <= p <= s.len(),
    ensures
        select_buildable(s, p) == select_buildable(t, p),
        tsql_buildable(s) == tsql_buildable(t),
        select_start_buildable(s) == select_start_buildable(t),
{
    lemma_parts_case(s, t);
    lemma_terminals_case(s, t);
    lemma_clauses_case(s, t);
    lemma_matching_ignores_case(s, t, 0, no_fails());
    assert forall|q: int| 0 <= q <= s.len() implies #[trigger] select_buildable(s, q)
        == select_buildable(t, q) by {
        let a = select_top_start(s, q);
        assert(a == select_top_start(t, q));
        assert(m_top_choice(s, a) == m_top_choice(t, a));
        if let Some((legacy, _)) = m_top_choice(s, a) {
            assert(top_int_start(s, a, legacy) == top_int_start(t, a, legacy));
            assert(top_close_start(s, a) == top_close_start(t, a));
            assert(top_has_modifier(s, a, legacy) == top_has_modifier(t, a, legacy));
            let b = top_int_start(s, a, legacy);
            if 0 <= b <= s.len() {
                lemma_int_digits_case(s, t, b);
            } else {
                assert(int_digits(s, b) =~= int_digits(t, b));
            }
        }
    }
}

/// `c` with an ASCII upper-case letter made lower-case.
pub open spec fn ascii_lower_char(c: char) -> char {
    if 'A' <= c <= 'Z' {
        ((c as u32) + 32) as char
    } else {
        c
    }
}

/// `x` and `y` differ at most in the case of ASCII letters.
pub open spec fn chars_same_but_case(x: Seq<char>, y: Seq<char>) -> bool {
    &&& x.len() == y.len()
    &&& forall|i: int| 0 <= i < x.len() ==> #[trigger] ascii_lower_char(x[i]) == ascii_lower_char(y[i])
}

proof fn lemma_line_col_case(s: Seq<u8>, t: Seq<u8>, p: int)
    requires
        same_but_case(s, t),
        0 <= p <= s.len(),
    ensures
        line_col(s.take(p)) == line_col(t.take(p)),
        pos_at(s, p) == pos_at(t, p),
    decreases p,
{
    if p > 0 {
        lemma_line_col_case(s, t, p - 1);
        assert(s.take(p).drop_last() =~= s.take(p - 1));
        assert(t.take(p).drop_last() =~= t.take(p - 1));
        lemma_byte_case(s[p - 1], t[p - 1]);
        if p > 1 {
            lemma_byte_case(s[p - 2], t[p - 2]);
            assert(s.take(p - 1).last() == s[p - 2]);
            assert(t.take(p - 1).last() == t[p - 2]);
        }
    }
}

proof fn lemma_ascii_chars_case(s: Seq<u8>, t: Seq<u8>, a: int, b: int)
    requires
        same_but_case(s, t),
        0 <= a <= b <= s.len(),
    ensures
        chars_same_but_case(ascii_chars(s.subrange(a, b)), ascii_chars(t.subrange(a, b))),
{
    let x = ascii_chars(s.subrange(a, b));
    let y = ascii_chars(t.subrange(a, b));
    assert forall|i: int| 0 <= i < x.len() implies #[trigger] ascii_lower_char(x[i]) == ascii_lower_char(
        y[i],
    ) by {
        let u = s[a + i];
        let v = t[a + i];
        assert(ascii_lower(u) == ascii_lower(v));
        lemma_byte_case(u, v);
        assert(x[i] == u as char);
        assert(y[i] == v as char);
    }
}

/// Two lists of names stand at the same positions, and each name differs at
/// most in the case of ASCII letters from the one beside it.
pub open spec fn names_same_but_case(a: Seq<NodeView<Seq<char>>>, b: Seq<NodeView<Seq<char>>>) -> bool {
    &&& a.len() == b.len()
    &&& forall|i: int|
        0 <= i < a.len() ==> #[trigger] a[i].pos == b[i].pos && chars_same_but_case(a[i].tnode, b[i].tnode)
}

proof fn lemma_item_view_case(s: Seq<u8>, t: Seq<u8>, b: int)
    requires
        same_but_case(s, t),
        0 <= b <= s.len(),
        m_item(s, b) is Some,
    ensures
        item_view(s, b).pos == item_view(t, b).pos,
        chars_same_but_case(item_view(s, b).tnode, item_view(t, b).tnode),
{
    lemma_parts_case(s, t);
    lemma_line_col_case(s, t, b);
    assert(m_tok(s, b, 42u8) == m_tok(t, b, 42u8));
    if m_tok(s, b, 42u8) is None {
        assert(m_identifier(s, b) == m_identifier(t, b));
        lemma_ident_end_bounds(s, b + 1);
        lemma_ascii_chars_case(s, t, b, m_identifier(s, b)->0);
    } else {
        assert(chars_same_but_case(seq!['*'], seq!['*']));
    }
}

proof fn lemma_items_rest_view_case(s: Seq<u8>, t: Seq<u8>, cur: int)
    requires
        same_but_case(s, t),
        0 <= cur <= s.len(),
    ensures
        names_same_but_case(items_rest_view(s, cur), items_rest_view(t, cur)),
    decreases s.len() - cur,
{
    lemma_parts_case(s, t);
    let a = skip_ws(s, cur);
    lemma_skip_ws_bounds(s, cur);
    assert(m_tok(s, a, 44u8) == m_tok(t, a, 44u8));
    match m_tok(s, a, 44u8) {
        None => {},
        Some(c) => {
            let b = skip_ws(s, c);
            lemma_skip_ws_bounds(s, c);
            assert(m_item(s, b) == m_item(t, b));
            match m_item(s, b) {
                None => {},
                Some(e) => {
                    if cur < e <= s.len() {
                        lemma_items_rest_view_case(s, t, e);
                        lemma_item_view_case(s, t, b);
                        let x = items_rest_view(s, cur);
                        let y = items_rest_view(t, cur);
                        assert(x == seq![item_view(s, b)] + items_rest_view(s, e));
                        assert(y == seq![item_view(t, b)] + items_rest_view(t, e));
                        assert forall|i: int| 0 <= i < x.len() implies #[trigger] x[i].pos == y[i].pos
                            && chars_same_but_case(x[i].tnode, y[i].tnode) by {
                            if i > 0 {
                                assert(x[i] == items_rest_view(s, e)[i - 1]);
                                assert(y[i] == items_rest_view(t, e)[i - 1]);
                            }
                        }
                    }
                },
            }
        },
    }
}

proof fn lemma_top_view_case(s: Seq<u8>, t: Seq<u8>, a: int, legacy: bool)
    requires
        same_but_case(s, t),
        0 <= a <= s.len(),
        legacy ==> m_stmt_top_legacy(s, a) is Some,
        !legacy ==> m_stmt_top(s, a) is Some,
    ensures
        top_view(s, a, legacy) == top_view(t, a, legacy),
{
    lemma_parts_case(s, t);
    let e1 = a + kw_bytes(Kw::Top).len();
    assert(m_kw(s, a, Kw::Top) is Some);
    let q1 = skip_ws(s, e1);
    lemma_skip_ws_bounds(s, e1);
    lemma_line_col_case(s, t, a);
    lemma_line_col_case(s, t, q1);
    let d = top_int_start(s, a, legacy);
    assert(d == top_int_start(t, a, legacy));
    if !legacy {
        assert(m_tok(s, q1, 40u8) is Some);
        lemma_skip_ws_bounds(s, q1 + 1);
    }
    lemma_line_col_case(s, t, d);
    lemma_int_digits_case(s, t, d);
    assert(int_expr_view(s, d) == int_expr_view(t, d));
    if !legacy {
        lemma_digits_end_all_digits(s, d);
        let c = skip_ws(s, digits_end(s, d));
        lemma_skip_ws_bounds(s, digits_end(s, d));
        lemma_line_col_case(s, t, c);
    }
}

proof fn lemma_equal_names(x: Seq<NodeView<Seq<char>>>, y: Seq<NodeView<Seq<char>>>)
    requires
        names_same_but_case(x, y),
        forall|i: int| 0 <= i < x.len() ==> #[trigger] x[i].tnode == y[i].tnode,
    ensures
        x == y,
{
    assert forall|i: int| 0 <= i < x.len() implies x[i] == y[i] by {
        assert(x[i].pos == y[i].pos);
        assert(x[i].tnode == y[i].tnode);
    }
    assert(x =~= y);
}

/// Changing the case of ASCII letters changes nothing in the tree of a
/// SELECT statement but the case of the letters of its names: every node
/// keeps its position, the TOP statement stays the same, and each column
/// name and the table name differ at most in letter case. So where only
/// the case of keywords differs, the trees are equal.
#[verifier::spinoff_prover]
#[verifier::rlimit(40)]
pub proof fn lemma_tree_ignores_case(s: Seq<u8>, t: Seq<u8>, p: int)
    requires
        same_but_case(s, t),
        0 <= p <= s.len(),
        m_stmt_select(s, p) is Some,
    ensures
        select_view(s, p).pos == select_view(t, p).pos,
        select_view(s, p).tnode.top_statement == select_view(t, p).tnode.top_statement,
        select_view(s, p).tnode.column_name_list.pos == select_view(t, p).tnode.column_name_list.pos,
        names_same_but_case(
            select_view(s, p).tnode.column_name_list.tnode,
            select_view(t, p).tnode.column_name_list.tnode,
        ),
        select_view(s, p).tnode.table_identifier.pos == select_view(t, p).tnode.table_identifier.pos,
        chars_same_but_case(
            select_view(s, p).tnode.table_identifier.tnode,
            select_view(t, p).tnode.table_identifier.tnode,
        ),
        ({
            let a = select_view(s, p).tnode;
            let b = select_view(t, p).tnode;
            &&& a.table_identifier.tnode == b.table_identifier.tnode
            &&& forall|i: int|
                0 <= i < a.column_name_list.tnode.len() ==> #[trigger] a.column_name_list.tnode[i].tnode
                    == b.column_name_list.tnode[i].tnode
        }) ==> select_view(s, p) == select_view(t, p),
{
    lemma_parts_case(s, t);
    lemma_terminals_case(s, t);
    lemma_clauses_case(s, t);
    lemma_stmt_select_case(s, t, p, no_fails());
    lemma_line_col_case(s, t, p);
    let e1 = p + kw_bytes(Kw::Select).len();
    assert(m_kw(s, p, Kw::Select) is Some);
    let a = skip_ws(s, e1);
    lemma_skip_ws_bounds(s, e1);
    if let Some((legacy, _)) = m_top_choice(s, a) {
        lemma_top_view_case(s, t, a, legacy);
    }
    // the column name list
    let q2 = select_columns_start(s, p);
    assert(q2 == select_columns_start(t, p));
    assert(m_column_name_list(s, q2) is Some);
    lemma_line_col_case(s, t, q2);
    lemma_item_view_case(s, t, q2);
    let e2 = m_item(s, q2)->0;
    lemma_items_rest_view_case(s, t, e2);
    let x = column_list_view(s, q2).tnode;
    let y = column_list_view(t, q2).tnode;
    assert(x == seq![item_view(s, q2)] + items_rest_view(s, e2));
    assert(y == seq![item_view(t, q2)] + items_rest_view(t, e2));
    assert forall|i: int| 0 <= i < x.len() implies #[trigger] x[i].pos == y[i].pos
        && chars_same_but_case(x[i].tnode, y[i].tnode) by {
        if i > 0 {
            assert(x[i] == items_rest_view(s, e2)[i - 1]);
            assert(y[i] == items_rest_view(t, e2)[i - 1]);
        }
    }
    // the table name
    let e3 = m_column_name_list(s, q2)->0;
    let q3 = skip_ws(s, e3);
    lemma_skip_ws_bounds(s, e3);
    assert(m_kw(s, q3, Kw::From) is Some);
    let q4 = select_table_start(s, p);
    assert(q4 == select_table_start(t, p));
    lemma_skip_ws_bounds(s, q3 + kw_bytes(Kw::From).len());
    assert(m_identifier(s, q4) is Some);
    lemma_line_col_case(s, t, q4);
    lemma_ident_end_bounds(s, q4 + 1);
    lemma_ascii_chars_case(s, t, q4, m_identifier(s, q4)->0);
    // when the names agree, so do the trees
    let sa = select_view(s, p).tnode;
    let sb = select_view(t, p).tnode;
    if sa.table_identifier.tnode == sb.table_identifier.tnode && (forall|i: int|
        0 <= i < sa.column_name_list.tnode.len() ==> #[trigger] sa.column_name_list.tnode[i].tnode
            == sb.column_name_list.tnode[i].tnode) {
        assert(sa.column_name_list.tnode == x);
        assert(sb.column_name_list.tnode == y);
        assert forall|i: int| 0 <= i < x.len() implies #[trigger] x[i].tnode == y[i].tnode by {
            assert(sa.column_name_list.tnode[i].tnode == sb.column_name_list.tnode[i].tnode);
        }
        lemma_equal_names(x, y);
    }
}

} // verus!
