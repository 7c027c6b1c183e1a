//! What the failure record holds after a rule was tried: its position lies
//! within the input, and a rule that failed left at least one expected rule.
use vstd::prelude::*;
use crate::grammar::{
    Rule, Fails, Kw, kw_bytes, skip_ws, digits_end, ident_end, no_fails, track, normal, m_kw, t_kw,
    m_tok, t_tok, m_kw2, t_kw2, m_lit_integer, t_lit_integer, m_identifier, t_identifier, m_expr,
    t_expr, m_item, t_item, m_items_rest, t_items_rest, m_with_ties, m_stmt_top, t_stmt_top_body,
    t_stmt_top, m_stmt_top_legacy, t_stmt_top_legacy_body, t_stmt_top_legacy, m_column_name_list,
    t_column_name_list, m_comparison_op, t_comparison_op_body, t_comparison_op, m_comparison,
    t_comparison, m_clause_where, t_clause_where, m_top_choice, t_top_choice,
    select_columns_start, m_stmt_select, t_stmt_select_body, t_stmt_select, m_tsql, t_tsql,
};
use crate::expected::{expected_rules, lemma_expected_rules_once};

verus! {

/// The record `f` is one that trying rules on an input of `n` bytes can
/// leave: its position lies within the input, and it is 0 while no rule
/// is recorded.
pub open spec fn record_within(f: Fails, n: nat) -> bool {
    &&& 0 <= f.pos <= n
    &&& (f.rules.len() == 0 ==> f.pos == 0)
}

/// `g` is a record that can follow `f` on an input of `n` bytes: it lies
/// within the input, and it holds a rule if `f` did.
pub open spec fn follows(f: Fails, g: Fails, n: nat) -> bool {
    &&& record_within(g, n)
    &&& (f.rules.len() > 0 ==> g.rules.len() > 0)
}

proof fn lemma_track(f: Fails, r: Rule, p: int, n: nat)
    requires
        record_within(f, n),
        0 <= p <= n,
    ensures
        follows(f, track(f, r, p), n),
        track(f, r, p).rules.len() > 0,
{
}

proof fn lemma_normal(r: Rule, p: int, f: Fails, matched: bool, body: Fails, n: nat)
    requires
        record_within(f, n),
        follows(f, body, n),
        0 <= p <= n,
    ensures
        follows(f, normal(r, p, f, matched, body), n),
        !matched ==> normal(r, p, f, matched, body).rules.len() > 0,
{
    if !matched && body.rules.len() == f.rules.len() && body.pos == f.pos {
        lemma_track(body, r, p, n);
    }
}

proof fn lemma_runs_within(s: Seq<u8>, p: int)
    requires
        0 <= p <= s.len(),
    ensures
        p <= skip_ws(s, p) <= s.len(),
        p <= digits_end(s, p) <= s.len(),
        p <= ident_end(s, p) <= s.len(),
    decreases s.len() - p,
{
    if p < s.len() {
        lemma_runs_within(s, p + 1);
    }
}

proof fn lemma_items_rest_within(s: Seq<u8>, cur: int, f: Fails)
    requires
        0 <= cur <= s.len(),
        record_within(f, s.len()),
    ensures
        cur <= m_items_rest(s, cur) <= s.len(),
        follows(f, t_items_rest(s, cur, f), s.len()),
    decreases s.len() - cur,
{
    let n = s.len();
    let a = skip_ws(s, cur);
    lemma_runs_within(s, cur);
    lemma_track(f, Rule::tok_comma, a, n);
    let f1 = t_tok(s, a, 44u8, Rule::tok_comma, f);
    match m_tok(s, a, 44u8) {
        None => {},
        Some(c) => {
            let b = skip_ws(s, c);
            lemma_runs_within(s, c);
            lemma_track(f1, Rule::tok_star, b, n);
            let g = t_tok(s, b, 42u8, Rule::tok_star, f1);
            lemma_track(g, Rule::identifier, b, n);
            let f2 = t_item(s, b, f1);
            match m_item(s, b) {
                None => {},
                Some(e) => {
                    if cur < e <= s.len() {
                        lemma_items_rest_within(s, e, f2);
                    }
                },
            }
        },
    }
}

/// Where the parts of the grammar end, and what their records hold.
proof fn lemma_parts_within(s: Seq<u8>)
    ensures
        forall|p: int| 0 <= p <= s.len() ==> p <= #[trigger] skip_ws(s, p) <= s.len(),
        forall|p: int| 0 <= p <= s.len() ==> p <= #[trigger] digits_end(s, p) <= s.len(),
        forall|p: int, k: Kw|
            0 <= p <= s.len() && #[trigger] m_kw(s, p, k) is Some ==> p <= m_kw(s, p, k)->0
                <= s.len(),
        forall|p: int, b: u8|
            0 <= p <= s.len() && #[trigger] m_tok(s, p, b) is Some ==> m_tok(s, p, b)->0 == p + 1
                <= s.len(),
        forall|p: int|
            0 <= p <= s.len() && #[trigger] m_lit_integer(s, p) is Some ==> p <= m_lit_integer(
                s,
                p,
            )->0 <= s.len(),
        forall|p: int|
            0 <= p <= s.len() && #[trigger] m_identifier(s, p) is Some ==> p <= m_identifier(
                s,
                p,
            )->0 <= s.len(),
        forall|p: int|
            0 <= p <= s.len() && #[trigger] m_item(s, p) is Some ==> p <= m_item(s, p)->0
                <= s.len(),
        forall|p: int| 0 <= p <= s.len() ==> p <= #[trigger] m_items_rest(s, p) <= s.len(),
        forall|p: int, f: Fails|
            0 <= p <= s.len() && record_within(f, s.len()) ==> follows(
                f,
                #[trigger] t_items_rest(s, p, f),
                s.len(),
            ),
{
    assert forall|p: int| 0 <= p <= s.len() implies p <= #[trigger] skip_ws(s, p) <= s.len() by {
        lemma_runs_within(s, p);
    }
    assert forall|p: int| 0 <= p <= s.len() implies p <= #[trigger] digits_end(s, p) <= s.len() by {
        lemma_runs_within(s, p);
    }
    assert forall|p: int|
        0 <= p <= s.len() && #[trigger] m_lit_integer(s, p) is Some implies p <= m_lit_integer(
            s,
            p,
        )->0 <= s.len() by {
        lemma_runs_within(s, p);
    }
    assert forall|p: int|
        0 <= p <= s.len() && #[trigger] m_identifier(s, p) is Some implies p <= m_identifier(
            s,
            p,
        )->0 <= s.len() by {
        lemma_runs_within(s, p + 1);
    }
    assert forall|p: int|
        0 <= p <= s.len() && #[trigger] m_item(s, p) is Some implies p <= m_item(s, p)->0
            <= s.len() by {
        if m_tok(s, p, 42u8) is None {
            lemma_runs_within(s, p + 1);
        }
    }
    assert forall|p: int| 0 <= p <= s.len() implies p <= #[trigger] m_items_rest(s, p) <= s.len() by {
        lemma_items_rest_within(s, p, no_fails());
    }
    assert forall|p: int, f: Fails|
        0 <= p <= s.len() && record_within(f, s.len()) implies follows(
        f,
        #[trigger] t_items_rest(s, p, f),
        s.len(),
    ) by {
        lemma_items_rest_within(s, p, f);
    }
}

/// The terminals and single keywords.
proof fn lemma_terminals_within(s: Seq<u8>)
    ensures
        forall|p: int, b: u8, r: Rule, f: Fails|
            0 <= p <= s.len() && record_within(f, s.len()) ==> follows(
                f,
                #[trigger] t_tok(s, p, b, r, f),
                s.len(),
            ),
        forall|p: int, k: Kw, r: Rule, f: Fails|
            0 <= p <= s.len() && record_within(f, s.len()) ==> follows(
                f,
                #[trigger] t_kw(s, p, k, r, f),
                s.len(),
            ),
        forall|p: int, k1: Kw, k2: Kw|
            0 <= p <= s.len() && #[trigger] m_kw2(s, p, k1, k2) is Some ==> p <= m_kw2(
                s,
                p,
                k1,
                k2,
            )->0 <= s.len(),
        forall|p: int, k1: Kw, k2: Kw, r: Rule, f: Fails|
            0 <= p <= s.len() && record_within(f, s.len()) ==> follows(
                f,
                #[trigger] t_kw2(s, p, k1, k2, r, f),
                s.len(),
            ),
        forall|p: int, f: Fails|
            0 <= p <= s.len() && record_within(f, s.len()) ==> follows(
                f,
                #[trigger] t_lit_integer(s, p, f),
                s.len(),
            ),
        forall|p: int, f: Fails|
            0 <= p <= s.len() && record_within(f, s.len()) ==> follows(
                f,
                #[trigger] t_identifier(s, p, f),
                s.len(),
            ),
        forall|p: int, f: Fails|
            0 <= p <= s.len() && record_within(f, s.len()) ==> follows(
                f,
                #[trigger] t_expr(s, p, f),
                s.len(),
            ),
        forall|p: int, f: Fails|
            0 <= p <= s.len() && record_within(f, s.len()) ==> follows(
                f,
                #[trigger] t_item(s, p, f),
                s.len(),
            ),
        forall|p: int|
            0 <= p <= s.len() && #[trigger] m_with_ties(s, p) is Some ==> p <= m_with_ties(s, p)->0
                <= s.len(),
{
    lemma_parts_within(s);
    let n = s.len();
    assert forall|p: int, b: u8, r: Rule, f: Fails|
        0 <= p <= s.len() && record_within(f, n) implies follows(
        f,
        #[trigger] t_tok(s, p, b, r, f),
        n,
    ) by {
        lemma_track(f, r, p, n);
    }
    assert forall|p: int, k: Kw, r: Rule, f: Fails|
        0 <= p <= s.len() && record_within(f, n) implies follows(
        f,
        #[trigger] t_kw(s, p, k, r, f),
        n,
    ) by {
        lemma_track(f, r, p, n);
    }
    assert forall|p: int, k1: Kw, k2: Kw|
        0 <= p <= s.len() && #[trigger] m_kw2(s, p, k1, k2) is Some implies p <= m_kw2(
        s,
        p,
        k1,
        k2,
    )->0 <= s.len() by {
        let e1 = m_kw(s, p, k1)->0;
        assert(p <= e1 <= s.len());
        assert(e1 <= skip_ws(s, e1) <= s.len());
    }
    assert forall|p: int, k1: Kw, k2: Kw, r: Rule, f: Fails|
        0 <= p <= s.len() && record_within(f, n) implies follows(
        f,
        #[trigger] t_kw2(s, p, k1, k2, r, f),
        n,
    ) by {
        lemma_track(f, r, p, n);
    }
    assert forall|p: int, f: Fails|
        0 <= p <= s.len() && record_within(f, n) implies follows(
        f,
        #[trigger] t_lit_integer(s, p, f),
        n,
    ) by {
        lemma_track(f, Rule::lit_integer, p, n);
    }
    assert forall|p: int, f: Fails|
        0 <= p <= s.len() && record_within(f, n) implies follows(
        f,
        #[trigger] t_identifier(s, p, f),
        n,
    ) by {
        lemma_track(f, Rule::identifier, p, n);
    }
    assert forall|p: int, f: Fails|
        0 <= p <= s.len() && record_within(f, n) implies follows(
        f,
        #[trigger] t_expr(s, p, f),
        n,
    ) by {
        lemma_track(f, Rule::lit_integer, p, n);
        lemma_normal(Rule::expr, p, f, m_expr(s, p) is Some, t_lit_integer(s, p, f), n);
    }
    assert forall|p: int, f: Fails|
        0 <= p <= s.len() && record_within(f, n) implies follows(
        f,
        #[trigger] t_item(s, p, f),
        n,
    ) by {
        lemma_track(f, Rule::tok_star, p, n);
        let f1 = t_tok(s, p, 42u8, Rule::tok_star, f);
        lemma_track(f1, Rule::identifier, p, n);
    }
    assert forall|p: int|
        0 <= p <= s.len() && #[trigger] m_with_ties(s, p) is Some implies p <= m_with_ties(
        s,
        p,
    )->0 <= s.len() by {
        assert(m_kw2(s, p, Kw::With, Kw::Ties) is Some);
    }
}

proof fn lemma_stmt_top_within(s: Seq<u8>, p: int, f: Fails)
    requires
        0 <= p <= s.len(),
        record_within(f, s.len()),
    ensures
        m_stmt_top(s, p) matches Some(e) ==> p <= e <= s.len(),
        m_stmt_top_legacy(s, p) matches Some(e) ==> p <= e <= s.len(),
        follows(f, t_stmt_top(s, p, f), s.len()),
        follows(f, t_stmt_top_legacy(s, p, f), s.len()),
{
    lemma_parts_within(s);
    lemma_terminals_within(s);
    let n = s.len();
    lemma_normal(Rule::stmt_top, p, f, m_stmt_top(s, p) is Some, t_stmt_top_body(s, p, f), n);
    lemma_normal(
        Rule::stmt_top_legacy,
        p,
        f,
        m_stmt_top_legacy(s, p) is Some,
        t_stmt_top_legacy_body(s, p, f),
        n,
    );
}

proof fn lemma_top_choice_within(s: Seq<u8>, p: int, f: Fails)
    requires
        0 <= p <= s.len(),
        record_within(f, s.len()),
    ensures
        m_top_choice(s, p) matches Some((_, e)) ==> p <= e <= s.len(),
        follows(f, t_top_choice(s, p, f), s.len()),
{
    lemma_stmt_top_within(s, p, f);
    lemma_stmt_top_within(s, p, t_stmt_top(s, p, f));
}

proof fn lemma_column_name_list_within(s: Seq<u8>, p: int, f: Fails)
    requires
        0 <= p <= s.len(),
        record_within(f, s.len()),
    ensures
        m_column_name_list(s, p) matches Some(e) ==> p <= e <= s.len(),
        follows(f, t_column_name_list(s, p, f), s.len()),
{
    lemma_parts_within(s);
    lemma_terminals_within(s);
    let n = s.len();
    let f1 = t_item(s, p, f);
    let body = match m_item(s, p) {
        None => f1,
        Some(e1) => t_items_rest(s, e1, f1),
    };
    lemma_normal(Rule::column_name_list, p, f, m_column_name_list(s, p) is Some, body, n);
}

proof fn lemma_comparison_within(s: Seq<u8>, p: int, f: Fails)
    requires
        0 <= p <= s.len(),
        record_within(f, s.len()),
    ensures
        m_comparison_op(s, p) matches Some(e) ==> p <= e <= s.len(),
        follows(f, t_comparison_op(s, p, f), s.len()),
        m_comparison(s, p) matches Some(e) ==> p <= e <= s.len(),
        follows(f, t_comparison(s, p, f), s.len()),
{
    lemma_parts_within(s);
    lemma_terminals_within(s);
    lemma_comparison_op_within(s, p, f);
    let n = s.len();
    let f1 = t_expr(s, p, f);
    if m_expr(s, p) is Some {
        let q1 = skip_ws(s, m_expr(s, p)->0);
        lemma_comparison_op_within(s, q1, f1);
        let f2 = t_comparison_op(s, q1, f1);
        if m_comparison_op(s, q1) is Some {
            let q2 = skip_ws(s, m_comparison_op(s, q1)->0);
            assert(follows(f2, t_expr(s, q2, f2), n));
        }
    }
    let body = match m_expr(s, p) {
        None => f1,
        Some(e1) => {
            let q1 = skip_ws(s, e1);
            let f2 = t_comparison_op(s, q1, f1);
            match m_comparison_op(s, q1) {
                None => f2,
                Some(e2) => t_expr(s, skip_ws(s, e2), f2),
            }
        },
    };
    lemma_normal(Rule::pred_cmp, p, f, m_comparison(s, p) is Some, body, n);
}

proof fn lemma_comparison_op_within(s: Seq<u8>, p: int, f: Fails)
    requires
        0 <= p <= s.len(),
        record_within(f, s.len()),
    ensures
        m_comparison_op(s, p) matches Some(e) ==> p <= e <= s.len(),
        follows(f, t_comparison_op_body(s, p, f), s.len()),
        follows(f, t_comparison_op(s, p, f), s.len()),
{
    lemma_parts_within(s);
    lemma_terminals_within(s);
    let n = s.len();
    let eq = m_tok(s, p, 61u8) is Some;
    let lt = m_tok(s, p, 60u8) is Some;
    let gt = m_tok(s, p, 62u8) is Some;
    let f1 = normal(Rule::op_cmp_eq, p, f, eq, t_tok(s, p, 61u8, Rule::tok_eq, f));
    lemma_normal(Rule::op_cmp_eq, p, f, eq, t_tok(s, p, 61u8, Rule::tok_eq, f), n);
    lemma_track(f1, Rule::op_cmp_neq_bang, p, n);
    let neq = m_tok(s, p, 33u8) is Some && m_tok(s, p + 1, 61u8) is Some;
    let f2 = if neq { f1 } else { track(f1, Rule::op_cmp_neq_bang, p) };
    let f3 = normal(Rule::op_cmp_lt, p, f2, lt, t_tok(s, p, 60u8, Rule::tok_angle_open, f2));
    lemma_normal(Rule::op_cmp_lt, p, f2, lt, t_tok(s, p, 60u8, Rule::tok_angle_open, f2), n);
    let f4 = normal(Rule::op_cmp_gt, p, f3, gt, t_tok(s, p, 62u8, Rule::tok_angle_close, f3));
    lemma_normal(Rule::op_cmp_gt, p, f3, gt, t_tok(s, p, 62u8, Rule::tok_angle_close, f3), n);
    lemma_track(f4, Rule::op_cmp_lt_eq, p, n);
    lemma_track(track(f4, Rule::op_cmp_lt_eq, p), Rule::op_cmp_gt_eq, p, n);
    if neq {
        assert(m_tok(s, p + 1, 61u8) is Some);
    }
    lemma_normal(
        Rule::op_cmp,
        p,
        f,
        m_comparison_op(s, p) is Some,
        t_comparison_op_body(s, p, f),
        n,
    );
}

proof fn lemma_clause_where_within(s: Seq<u8>, p: int, f: Fails)
    requires
        0 <= p <= s.len(),
        record_within(f, s.len()),
    ensures
        m_clause_where(s, p) matches Some(e) ==> p <= e <= s.len(),
        follows(f, t_clause_where(s, p, f), s.len()),
{
    lemma_parts_within(s);
    lemma_terminals_within(s);
    let n = s.len();
    let f1 = t_kw(s, p, Kw::Where, Rule::kw_where, f);
    if m_kw(s, p, Kw::Where) is Some {
        lemma_comparison_within(s, skip_ws(s, m_kw(s, p, Kw::Where)->0), f1);
    }
    let body = match m_kw(s, p, Kw::Where) {
        None => f1,
        Some(e1) => t_comparison(s, skip_ws(s, e1), f1),
    };
    lemma_normal(Rule::clause_where, p, f, m_clause_where(s, p) is Some, body, n);
}

pub(crate) proof fn lemma_stmt_select_within(s: Seq<u8>, p: int, f: Fails)
    requires
        0 <= p <= s.len(),
        record_within(f, s.len()),
    ensures
        m_stmt_select(s, p) matches Some(e) ==> p <= e <= s.len(),
        follows(f, t_stmt_select(s, p, f), s.len()),
        m_stmt_select(s, p) is None ==> t_stmt_select(s, p, f).rules.len() > 0,
{
    lemma_parts_within(s);
    lemma_terminals_within(s);
    let n = s.len();
    let f1 = t_kw(s, p, Kw::Select, Rule::kw_select, f);
    if m_kw(s, p, Kw::Select) is Some {
        let e1 = m_kw(s, p, Kw::Select)->0;
        let q1 = skip_ws(s, e1);
        assert(e1 == p + kw_bytes(Kw::Select).len());
        lemma_top_choice_within(s, q1, f1);
        let f2 = t_top_choice(s, q1, f1);
        let q2 = select_columns_start(s, p);
        assert(p <= q2 <= s.len());
        lemma_column_name_list_within(s, q2, f2);
        let f3 = t_column_name_list(s, q2, f2);
        if m_column_name_list(s, q2) is Some {
            let q3 = skip_ws(s, m_column_name_list(s, q2)->0);
            let f4 = t_kw(s, q3, Kw::From, Rule::kw_from, f3);
            if m_kw(s, q3, Kw::From) is Some {
                let q4 = skip_ws(s, m_kw(s, q3, Kw::From)->0);
                let f5 = t_identifier(s, q4, f4);
                if m_identifier(s, q4) is Some {
                    let q5 = skip_ws(s, m_identifier(s, q4)->0);
                    lemma_clause_where_within(s, q5, f5);
                }
            }
        }
    }
    lemma_normal(
        Rule::stmt_select,
        p,
        f,
        m_stmt_select(s, p) is Some,
        t_stmt_select_body(s, p, f),
        n,
    );
}

/// A query that `tsql` refuses is answered with at least one expected rule,
/// at a byte position within the query: the error of
/// `get_diagnostics_for_tsql` always names what was expected, and where.
pub proof fn lemma_refusal_names_expected(s: Seq<u8>)
    requires
        m_tsql(s, 0) is None,
    ensures
        expected_rules(t_tsql(s, 0, no_fails()).rules).len() > 0,
        0 <= t_tsql(s, 0, no_fails()).pos <= s.len(),
{
    let n = s.len();
    lemma_parts_within(s);
    lemma_stmt_select_within(s, 0, no_fails());
    let f1 = t_stmt_select(s, 0, no_fails());
    if m_stmt_select(s, 0) is Some {
        let e = m_stmt_select(s, 0)->0;
        lemma_track(f1, Rule::eoi, skip_ws(s, e), n);
    }
    let rules = t_tsql(s, 0, no_fails()).rules;
    lemma_expected_rules_once(rules);
    assert(rules.contains(rules[0]));
    assert(expected_rules(rules).contains(rules[0]));
}

} // verus!
