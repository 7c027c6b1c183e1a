//! Executable recognizers for the rules of `grammar`.
//!
//! Each recognizer tries its rule at byte position `p` of the input `s`,
//! returns where the match ends (`None` when the rule does not match) and
//! updates the failure record `t`, exactly as the `m_` and `t_` spec
//! functions of `grammar` say.
use vstd::prelude::*;
use crate::grammar::{
    Rule, Kw, Fails, kw_bytes, is_ident_start, ascii_lower, skip_ws, digits_end, ident_end, kw_at,
    track, normal, m_tok, t_tok, m_kw, t_kw, m_kw2, t_kw2, m_lit_integer, t_lit_integer,
    m_identifier, t_identifier, m_expr, t_expr, m_lit_bool, t_lit_bool, m_literal, t_literal,
    m_stmt_top, t_stmt_top, t_stmt_top_body, m_stmt_top_legacy, t_stmt_top_legacy,
    t_stmt_top_legacy_body, m_item, t_item, m_items_rest, t_items_rest, m_column_name_list,
    t_column_name_list, m_comparison_op_at, t_comparison_op_at, t_comparison_op_body_at,
    m_comparison_at, t_comparison_at, m_clause_where, t_clause_where, m_top_choice, t_top_choice,
    select_columns_start, m_stmt_select, t_stmt_select, t_stmt_select_body, m_tsql, t_tsql,
    m_stmt_create_table, t_stmt_create_table, m_top_level_repl, t_top_level_repl,
};

verus! {

/// `r` is the executable form of the spec result `m`.
pub open spec fn same(r: Option<usize>, m: Option<int>) -> bool {
    match r {
        Some(e) => m == Some(e as int),
        None => m is None,
    }
}

/// The record of rules that failed at the furthest position reached.
pub struct Tracker {
    pub rules: Vec<Rule>,
    pub pos: usize,
}

impl View for Tracker {
    type V = Fails;

    open spec fn view(&self) -> Fails {
        Fails { rules: self.rules@, pos: self.pos as int }
    }
}

impl Tracker {
    /// An empty record.
    pub fn new() -> (t: Tracker)
        ensures
            t@ == crate::grammar::no_fails(),
    {
        Tracker { rules: Vec::new(), pos: 0 }
    }

    /// Records that rule `r` failed at `p`.
    pub fn track(&mut self, r: Rule, p: usize)
        ensures
            final(self)@ == track(old(self)@, r, p as int),
    {
        if self.rules.len() == 0 {
            self.rules.push(r);
            self.pos = p;
            assert(self.rules@ =~= seq![r]);
        } else if p == self.pos {
            self.rules.push(r);
        } else if p > self.pos {
            self.rules.clear();
            self.rules.push(r);
            self.pos = p;
            assert(self.rules@ =~= seq![r]);
        }
    }

    /// Applies the record keeping of a non-atomic rule `r` tried at `p`,
    /// given the record's length and position before its body ran.
    fn close(&mut self, r: Rule, p: usize, matched: bool, len0: usize, pos0: usize, Ghost(f0): Ghost<Fails>)
        requires
            f0.rules.len() == len0,
            f0.pos == pos0,
        ensures
            final(self)@ == normal(r, p as int, f0, matched, old(self)@),
    {
        if !matched && self.rules.len() == len0 && self.pos == pos0 {
            self.track(r, p);
        }
    }
}

/// The lower-case form of an ASCII upper-case letter; other bytes as they are.
pub fn ascii_lower_exec(b: u8) -> (r: u8)
    ensures
        r == ascii_lower(b),
{
    if 65u8 <= b && b <= 90u8 {
        b + 32
    } else {
        b
    }
}

/// The bytes of a keyword.
pub fn kw_text(k: Kw) -> (v: Vec<u8>)
    ensures
        v@ == kw_bytes(k),
{
    match k {
        Kw::Select => vec![83u8, 69u8, 76u8, 69u8, 67u8, 84u8],
        Kw::Top => vec![84u8, 79u8, 80u8],
        Kw::From => vec![70u8, 82u8, 79u8, 77u8],
        Kw::Where => vec![87u8, 72u8, 69u8, 82u8, 69u8],
        Kw::Percent => vec![80u8, 69u8, 82u8, 67u8, 69u8, 78u8, 84u8],
        Kw::With => vec![87u8, 73u8, 84u8, 72u8],
        Kw::Ties => vec![84u8, 73u8, 69u8, 83u8],
        Kw::Create => vec![67u8, 82u8, 69u8, 65u8, 84u8, 69u8],
        Kw::Table => vec![84u8, 65u8, 66u8, 76u8, 69u8],
        Kw::True => vec![84u8, 82u8, 85u8, 69u8],
        Kw::False => vec![70u8, 65u8, 76u8, 83u8, 69u8],
        Kw::Or => vec![79u8, 82u8],
        Kw::And => vec![65u8, 78u8, 68u8],
        Kw::Not => vec![78u8, 79u8, 84u8],
    }
}

/// The first position at or after `p` that does not hold whitespace.
pub fn skip_ws_exec(s: &Vec<u8>, p: usize) -> (r: usize)
    requires
        p <= s@.len(),
    ensures
        r == skip_ws(s@, p as int),
        p <= r <= s@.len(),
{
    let mut i = p;
    while i < s.len() && (s[i] == 32u8 || s[i] == 9u8 || s[i] == 13u8 || s[i] == 10u8)
        invariant
            p <= i <= s@.len(),
            skip_ws(s@, i as int) == skip_ws(s@, p as int),
        decreases s@.len() - i,
    {
        i = i + 1;
    }
    i
}

fn digits_end_exec(s: &Vec<u8>, p: usize) -> (r: usize)
    requires
        p <= s@.len(),
    ensures
        r == digits_end(s@, p as int),
        p <= r <= s@.len(),
{
    let mut i = p;
    while i < s.len() && 48u8 <= s[i] && s[i] <= 57u8
        invariant
            p <= i <= s@.len(),
            digits_end(s@, i as int) == digits_end(s@, p as int),
        decreases s@.len() - i,
    {
        i = i + 1;
    }
    i
}

fn is_ident_start_exec(b: u8) -> (r: bool)
    ensures
        r == is_ident_start(b),
{
    (97u8 <= b && b <= 122u8) || (65u8 <= b && b <= 90u8) || b == 95u8
}

fn ident_end_exec(s: &Vec<u8>, p: usize) -> (r: usize)
    requires
        p <= s@.len(),
    ensures
        r == ident_end(s@, p as int),
        p <= r <= s@.len(),
{
    let mut i = p;
    while i < s.len() && (is_ident_start_exec(s[i]) || (48u8 <= s[i] && s[i] <= 57u8))
        invariant
            p <= i <= s@.len(),
            ident_end(s@, i as int) == ident_end(s@, p as int),
        decreases s@.len() - i,
    {
        i = i + 1;
    }
    i
}

/// `s` holds the keyword `k` at `p`, ignoring ASCII case.
pub fn kw_at_exec(s: &Vec<u8>, p: usize, k: Kw) -> (r: bool)
    requires
        p <= s@.len(),
    ensures
        r == kw_at(s@, p as int, k),
{
    let kw = kw_text(k);
    let slen = s.len();
    if kw.len() > slen - p {
        return false;
    }
    let mut i: usize = 0;
    while i < kw.len()
        invariant
            kw@ == kw_bytes(k),
            slen == s@.len(),
            p + kw@.len() <= s@.len(),
            0 <= i <= kw@.len(),
            forall|j: int|
                #![trigger kw_bytes(k)[j]]
                0 <= j < i ==> ascii_lower(s@[p + j]) == ascii_lower(kw_bytes(k)[j]),
        decreases kw@.len() - i,
    {
        assert(p + i < s@.len());
        if ascii_lower_exec(s[p + i]) != ascii_lower_exec(kw[i]) {
            assert(kw_bytes(k)[i as int] == kw@[i as int]);
            return false;
        }
        assert(kw_bytes(k)[i as int] == kw@[i as int]);
        i = i + 1;
    }
    true
}

/// A single-byte token rule `r`.
pub fn tok(s: &Vec<u8>, p: usize, b: u8, r: Rule, t: &mut Tracker) -> (res: Option<usize>)
    requires
        p <= s@.len(),
    ensures
        same(res, m_tok(s@, p as int, b)),
        final(t)@ == t_tok(s@, p as int, b, r, old(t)@),
        res matches Some(e) ==> p < e <= s@.len(),
{
    if p < s.len() && s[p] == b {
        Some(p + 1)
    } else {
        t.track(r, p);
        None
    }
}

/// A keyword rule `r`.
pub fn kw(s: &Vec<u8>, p: usize, k: Kw, r: Rule, t: &mut Tracker) -> (res: Option<usize>)
    requires
        p <= s@.len(),
    ensures
        same(res, m_kw(s@, p as int, k)),
        final(t)@ == t_kw(s@, p as int, k, r, old(t)@),
        res matches Some(e) ==> p < e <= s@.len(),
{
    let res = kw_plain(s, p, k);
    if res.is_none() {
        t.track(r, p);
    }
    res
}

fn kw_plain(s: &Vec<u8>, p: usize, k: Kw) -> (res: Option<usize>)
    requires
        p <= s@.len(),
    ensures
        same(res, m_kw(s@, p as int, k)),
        res matches Some(e) ==> p < e <= s@.len(),
{
    if kw_at_exec(s, p, k) {
        let n = kw_text(k).len();
        let slen = s.len();
        assert(kw_bytes(k).len() > 0);
        assert(p + n <= slen);
        Some(p + n)
    } else {
        None
    }
}

fn kw2_plain(s: &Vec<u8>, p: usize, k1: Kw, k2: Kw) -> (res: Option<usize>)
    requires
        p <= s@.len(),
    ensures
        same(res, m_kw2(s@, p as int, k1, k2)),
        res matches Some(e) ==> p < e <= s@.len(),
{
    match kw_plain(s, p, k1) {
        None => None,
        Some(e1) => {
            let q = skip_ws_exec(s, e1);
            kw_plain(s, q, k2)
        },
    }
}

/// A rule made of two keywords (`kw_with_ties`, `kw_create_table`).
pub fn kw2(s: &Vec<u8>, p: usize, k1: Kw, k2: Kw, r: Rule, t: &mut Tracker) -> (res: Option<usize>)
    requires
        p <= s@.len(),
    ensures
        same(res, m_kw2(s@, p as int, k1, k2)),
        final(t)@ == t_kw2(s@, p as int, k1, k2, r, old(t)@),
        res matches Some(e) ==> p < e <= s@.len(),
{
    let res = kw2_plain(s, p, k1, k2);
    if res.is_none() {
        t.track(r, p);
    }
    res
}

pub fn lit_integer(s: &Vec<u8>, p: usize, t: &mut Tracker) -> (res: Option<usize>)
    requires
        p <= s@.len(),
    ensures
        same(res, m_lit_integer(s@, p as int)),
        final(t)@ == t_lit_integer(s@, p as int, old(t)@),
        res matches Some(e) ==> p < e <= s@.len(),
{
    if p < s.len() && 48u8 <= s[p] && s[p] <= 57u8 {
        let e = digits_end_exec(s, p + 1);
        Some(e)
    } else {
        t.track(Rule::lit_integer, p);
        None
    }
}

pub fn identifier(s: &Vec<u8>, p: usize, t: &mut Tracker) -> (res: Option<usize>)
    requires
        p <= s@.len(),
    ensures
        same(res, m_identifier(s@, p as int)),
        final(t)@ == t_identifier(s@, p as int, old(t)@),
        res matches Some(e) ==> p < e <= s@.len(),
{
    if p < s.len() && is_ident_start_exec(s[p]) {
        Some(ident_end_exec(s, p + 1))
    } else {
        t.track(Rule::identifier, p);
        None
    }
}

pub fn expr(s: &Vec<u8>, p: usize, t: &mut Tracker) -> (res: Option<usize>)
    requires
        p <= s@.len(),
    ensures
        same(res, m_expr(s@, p as int)),
        final(t)@ == t_expr(s@, p as int, old(t)@),
        res matches Some(e) ==> p < e <= s@.len(),
{
    let ghost f0 = t@;
    let len0 = t.rules.len();
    let pos0 = t.pos;
    let res = lit_integer(s, p, t);
    t.close(Rule::expr, p, res.is_some(), len0, pos0, Ghost(f0));
    res
}

pub fn lit_bool(s: &Vec<u8>, p: usize, t: &mut Tracker) -> (res: Option<usize>)
    requires
        p <= s@.len(),
    ensures
        same(res, m_lit_bool(s@, p as int)),
        final(t)@ == t_lit_bool(s@, p as int, old(t)@),
        res matches Some(e) ==> p < e <= s@.len(),
{
    let res = match kw_plain(s, p, Kw::True) {
        Some(e) => Some(e),
        None => kw_plain(s, p, Kw::False),
    };
    if res.is_none() {
        t.track(Rule::lit_bool, p);
    }
    res
}

pub fn literal(s: &Vec<u8>, p: usize, t: &mut Tracker) -> (res: Option<usize>)
    requires
        p <= s@.len(),
    ensures
        same(res, m_literal(s@, p as int)),
        final(t)@ == t_literal(s@, p as int, old(t)@),
        res matches Some(e) ==> p < e <= s@.len(),
{
    let ghost f0 = t@;
    let len0 = t.rules.len();
    let pos0 = t.pos;
    let res = match lit_bool(s, p, t) {
        Some(e) => Some(e),
        None => lit_integer(s, p, t),
    };
    t.close(Rule::literal, p, res.is_some(), len0, pos0, Ghost(f0));
    res
}

pub fn stmt_top(s: &Vec<u8>, p: usize, t: &mut Tracker) -> (res: Option<usize>)
    requires
        p <= s@.len(),
    ensures
        same(res, m_stmt_top(s@, p as int)),
        final(t)@ == t_stmt_top(s@, p as int, old(t)@),
        res matches Some(e) ==> p < e <= s@.len(),
{
    let ghost f0 = t@;
    let len0 = t.rules.len();
    let pos0 = t.pos;
    let res = stmt_top_body(s, p, t);
    t.close(Rule::stmt_top, p, res.is_some(), len0, pos0, Ghost(f0));
    res
}

fn stmt_top_body(s: &Vec<u8>, p: usize, t: &mut Tracker) -> (res: Option<usize>)
    requires
        p <= s@.len(),
    ensures
        same(res, m_stmt_top(s@, p as int)),
        final(t)@ == t_stmt_top_body(s@, p as int, old(t)@),
        res matches Some(e) ==> p < e <= s@.len(),
{
    let e1 = match kw(s, p, Kw::Top, Rule::kw_top, t) {
        None => return None,
        Some(e) => e,
    };
    let q1 = skip_ws_exec(s, e1);
    let e2 = match tok(s, q1, 40u8, Rule::tok_paren_open, t) {
        None => return None,
        Some(e) => e,
    };
    let q2 = skip_ws_exec(s, e2);
    let e3 = match expr(s, q2, t) {
        None => return None,
        Some(e) => e,
    };
    let q3 = skip_ws_exec(s, e3);
    let e4 = match tok(s, q3, 41u8, Rule::tok_paren_close, t) {
        None => return None,
        Some(e) => e,
    };
    let q4 = skip_ws_exec(s, e4);
    let e5 = match kw(s, q4, Kw::Percent, Rule::kw_percent, t) {
        Some(e) => e,
        None => e4,
    };
    let q5 = skip_ws_exec(s, e5);
    let e6 = match kw2(s, q5, Kw::With, Kw::Ties, Rule::kw_with_ties, t) {
        Some(e) => e,
        None => e5,
    };
    Some(e6)
}

pub fn stmt_top_legacy(s: &Vec<u8>, p: usize, t: &mut Tracker) -> (res: Option<usize>)
    requires
        p <= s@.len(),
    ensures
        same(res, m_stmt_top_legacy(s@, p as int)),
        final(t)@ == t_stmt_top_legacy(s@, p as int, old(t)@),
        res matches Some(e) ==> p < e <= s@.len(),
{
    let ghost f0 = t@;
    let len0 = t.rules.len();
    let pos0 = t.pos;
    let res = stmt_top_legacy_body(s, p, t);
    t.close(Rule::stmt_top_legacy, p, res.is_some(), len0, pos0, Ghost(f0));
    res
}

fn stmt_top_legacy_body(s: &Vec<u8>, p: usize, t: &mut Tracker) -> (res: Option<usize>)
    requires
        p <= s@.len(),
    ensures
        same(res, m_stmt_top_legacy(s@, p as int)),
        final(t)@ == t_stmt_top_legacy_body(s@, p as int, old(t)@),
        res matches Some(e) ==> p < e <= s@.len(),
{
    let e1 = match kw(s, p, Kw::Top, Rule::kw_top, t) {
        None => return None,
        Some(e) => e,
    };
    let q1 = skip_ws_exec(s, e1);
    let e2 = match lit_integer(s, q1, t) {
        None => return None,
        Some(e) => e,
    };
    let q2 = skip_ws_exec(s, e2);
    match kw(s, q2, Kw::Percent, Rule::kw_percent, t) {
        Some(e) => Some(e),
        None => Some(e2),
    }
}

fn item(s: &Vec<u8>, p: usize, t: &mut Tracker) -> (res: Option<usize>)
    requires
        p <= s@.len(),
    ensures
        same(res, m_item(s@, p as int)),
        final(t)@ == t_item(s@, p as int, old(t)@),
        res matches Some(e) ==> p < e <= s@.len(),
{
    match tok(s, p, 42u8, Rule::tok_star, t) {
        Some(e) => Some(e),
        None => identifier(s, p, t),
    }
}

/// `tok_star | identifier`, without a failure record.
pub fn item_plain(s: &Vec<u8>, p: usize) -> (res: Option<usize>)
    requires
        p <= s@.len(),
    ensures
        same(res, m_item(s@, p as int)),
        res matches Some(e) ==> p < e <= s@.len(),
{
    let mut scratch = Tracker::new();
    item(s, p, &mut scratch)
}

/// Where the column name that starts at `p` ends.
pub fn item_end(s: &Vec<u8>, p: usize) -> (res: usize)
    requires
        p <= s@.len(),
        m_item(s@, p as int) is Some,
    ensures
        res == m_item(s@, p as int)->0,
        p < res <= s@.len(),
{
    item_plain(s, p).unwrap()
}

fn items_rest(s: &Vec<u8>, e1: usize, t: &mut Tracker) -> (res: usize)
    requires
        e1 <= s@.len(),
    ensures
        res == m_items_rest(s@, e1 as int),
        final(t)@ == t_items_rest(s@, e1 as int, old(t)@),
        e1 <= res <= s@.len(),
{
    let mut cur = e1;
    loop
        invariant
            e1 <= cur <= s@.len(),
            m_items_rest(s@, cur as int) == m_items_rest(s@, e1 as int),
            t_items_rest(s@, cur as int, t@) == t_items_rest(s@, e1 as int, old(t)@),
        decreases s@.len() - cur,
    {
        let a = skip_ws_exec(s, cur);
        let c = match tok(s, a, 44u8, Rule::tok_comma, t) {
            None => return cur,
            Some(c) => c,
        };
        let b = skip_ws_exec(s, c);
        match item(s, b, t) {
            None => return cur,
            Some(e) => {
                cur = e;
            },
        }
    }
}

pub fn column_name_list(s: &Vec<u8>, p: usize, t: &mut Tracker) -> (res: Option<usize>)
    requires
        p <= s@.len(),
    ensures
        same(res, m_column_name_list(s@, p as int)),
        final(t)@ == t_column_name_list(s@, p as int, old(t)@),
        res matches Some(e) ==> p < e <= s@.len(),
{
    let ghost f0 = t@;
    let len0 = t.rules.len();
    let pos0 = t.pos;
    let res = match item(s, p, t) {
        None => None,
        Some(e1) => Some(items_rest(s, e1, t)),
    };
    t.close(Rule::column_name_list, p, res.is_some(), len0, pos0, Ghost(f0));
    res
}

pub(crate) fn comparison_op(s: &Vec<u8>, p: usize, t: &mut Tracker) -> (res: Option<usize>)
    requires
        p <= s@.len(),
    ensures
        same(res, m_comparison_op_at(s@, p)),
        final(t)@ == t_comparison_op_at(s@, p, old(t)@),
        res matches Some(e) ==> p < e <= s@.len(),
{
    let ghost f0 = t@;
    let len0 = t.rules.len();
    let pos0 = t.pos;
    let res = comparison_op_body(s, p, t);
    t.close(Rule::op_cmp, p, res.is_some(), len0, pos0, Ghost(f0));
    res
}

fn comparison_op_body(s: &Vec<u8>, p: usize, t: &mut Tracker) -> (res: Option<usize>)
    requires
        p <= s@.len(),
    ensures
        same(res, m_comparison_op_at(s@, p)),
        final(t)@ == t_comparison_op_body_at(s@, p, old(t)@),
        res matches Some(e) ==> p < e <= s@.len(),
{
    // op_cmp_eq
    let ghost fa = t@;
    let la = t.rules.len();
    let pa = t.pos;
    let r1 = tok(s, p, 61u8, Rule::tok_eq, t);
    t.close(Rule::op_cmp_eq, p, r1.is_some(), la, pa, Ghost(fa));
    if r1.is_some() {
        return r1;
    }
    // op_cmp_neq_bang
    if s.len() - p >= 2 && s[p] == 33u8 && s[p + 1] == 61u8 {
        return Some(p + 2);
    }
    t.track(Rule::op_cmp_neq_bang, p);
    // op_cmp_lt
    let ghost fb = t@;
    let lb = t.rules.len();
    let pb = t.pos;
    let r3 = tok(s, p, 60u8, Rule::tok_angle_open, t);
    t.close(Rule::op_cmp_lt, p, r3.is_some(), lb, pb, Ghost(fb));
    if r3.is_some() {
        return r3;
    }
    // op_cmp_gt
    let ghost fc = t@;
    let lc = t.rules.len();
    let pc = t.pos;
    let r4 = tok(s, p, 62u8, Rule::tok_angle_close, t);
    t.close(Rule::op_cmp_gt, p, r4.is_some(), lc, pc, Ghost(fc));
    if r4.is_some() {
        return r4;
    }
    t.track(Rule::op_cmp_lt_eq, p);
    t.track(Rule::op_cmp_gt_eq, p);
    None
}

pub(crate) fn comparison(s: &Vec<u8>, p: usize, t: &mut Tracker) -> (res: Option<usize>)
    requires
        p <= s@.len(),
    ensures
        same(res, m_comparison_at(s@, p)),
        final(t)@ == t_comparison_at(s@, p, old(t)@),
        res matches Some(e) ==> p < e <= s@.len(),
{
    let ghost f0 = t@;
    let len0 = t.rules.len();
    let pos0 = t.pos;
    let res = match expr(s, p, t) {
        None => None,
        Some(e1) => {
            let q1 = skip_ws_exec(s, e1);
            match comparison_op(s, q1, t) {
                None => None,
                Some(e2) => {
                    let q2 = skip_ws_exec(s, e2);
                    expr(s, q2, t)
                },
            }
        },
    };
    t.close(Rule::pred_cmp, p, res.is_some(), len0, pos0, Ghost(f0));
    res
}

pub(crate) fn clause_where(s: &Vec<u8>, p: usize, t: &mut Tracker) -> (res: Option<usize>)
    requires
        p <= s@.len(),
    ensures
        same(res, m_clause_where(s@, p as int)),
        final(t)@ == t_clause_where(s@, p as int, old(t)@),
        res matches Some(e) ==> p < e <= s@.len(),
{
    let ghost f0 = t@;
    let len0 = t.rules.len();
    let pos0 = t.pos;
    let res = match kw(s, p, Kw::Where, Rule::kw_where, t) {
        None => None,
        Some(e1) => {
            let q1 = skip_ws_exec(s, e1);
            comparison(s, q1, t)
        },
    };
    t.close(Rule::clause_where, p, res.is_some(), len0, pos0, Ghost(f0));
    res
}

/// `(stmt_top | stmt_top_legacy)`: whether the legacy form matched, and where it ends.
pub fn top_choice(s: &Vec<u8>, p: usize, t: &mut Tracker) -> (res: Option<(bool, usize)>)
    requires
        p <= s@.len(),
    ensures
        match res {
            Some((legacy, e)) => m_top_choice(s@, p as int) == Some((legacy, e as int)),
            None => m_top_choice(s@, p as int) is None,
        },
        final(t)@ == t_top_choice(s@, p as int, old(t)@),
        res matches Some((_, e)) ==> p < e <= s@.len(),
{
    match stmt_top(s, p, t) {
        Some(e) => Some((false, e)),
        None => match stmt_top_legacy(s, p, t) {
            Some(e) => Some((true, e)),
            None => None,
        },
    }
}

pub fn stmt_select(s: &Vec<u8>, p: usize, t: &mut Tracker) -> (res: Option<usize>)
    requires
        p <= s@.len(),
    ensures
        same(res, m_stmt_select(s@, p as int)),
        final(t)@ == t_stmt_select(s@, p as int, old(t)@),
        res matches Some(e) ==> p < e <= s@.len(),
{
    let ghost f0 = t@;
    let len0 = t.rules.len();
    let pos0 = t.pos;
    let res = stmt_select_body(s, p, t);
    t.close(Rule::stmt_select, p, res.is_some(), len0, pos0, Ghost(f0));
    res
}

fn stmt_select_body(s: &Vec<u8>, p: usize, t: &mut Tracker) -> (res: Option<usize>)
    requires
        p <= s@.len(),
    ensures
        same(res, m_stmt_select(s@, p as int)),
        final(t)@ == t_stmt_select_body(s@, p as int, old(t)@),
        res matches Some(e) ==> p < e <= s@.len(),
{
    let e1 = match kw(s, p, Kw::Select, Rule::kw_select, t) {
        None => return None,
        Some(e) => e,
    };
    let q1 = skip_ws_exec(s, e1);
    let e2 = match top_choice(s, q1, t) {
        Some((_, e)) => e,
        None => e1,
    };
    let q2 = skip_ws_exec(s, e2);
    assert(q2 == select_columns_start(s@, p as int));
    let e3 = match column_name_list(s, q2, t) {
        None => return None,
        Some(e) => e,
    };
    let q3 = skip_ws_exec(s, e3);
    let e4 = match kw(s, q3, Kw::From, Rule::kw_from, t) {
        None => return None,
        Some(e) => e,
    };
    let q4 = skip_ws_exec(s, e4);
    let e5 = match identifier(s, q4, t) {
        None => return None,
        Some(e) => e,
    };
    let q5 = skip_ws_exec(s, e5);
    match clause_where(s, q5, t) {
        Some(e) => Some(e),
        None => Some(e5),
    }
}

/// `tsql`: a SELECT statement followed by nothing but whitespace.
pub fn tsql(s: &Vec<u8>, p: usize, t: &mut Tracker) -> (res: Option<usize>)
    requires
        p <= s@.len(),
    ensures
        same(res, m_tsql(s@, p as int)),
        final(t)@ == t_tsql(s@, p as int, old(t)@),
        res matches Some(e) ==> e == s@.len(),
{
    match stmt_select(s, p, t) {
        None => None,
        Some(e) => {
            let q = skip_ws_exec(s, e);
            if q == s.len() {
                Some(q)
            } else {
                t.track(Rule::eoi, q);
                None
            }
        },
    }
}

pub fn stmt_create_table(s: &Vec<u8>, p: usize, t: &mut Tracker) -> (res: Option<usize>)
    requires
        p <= s@.len(),
    ensures
        same(res, m_stmt_create_table(s@, p as int)),
        final(t)@ == t_stmt_create_table(s@, p as int, old(t)@),
        res matches Some(e) ==> p < e <= s@.len(),
{
    let ghost f0 = t@;
    let len0 = t.rules.len();
    let pos0 = t.pos;
    let res = match kw2(s, p, Kw::Create, Kw::Table, Rule::kw_create_table, t) {
        None => None,
        Some(e1) => {
            let q1 = skip_ws_exec(s, e1);
            identifier(s, q1, t)
        },
    };
    t.close(Rule::stmt_create_table, p, res.is_some(), len0, pos0, Ghost(f0));
    res
}

/// `top_level_repl`: which alternative matched first, and where it ends.
pub fn top_level_repl(s: &Vec<u8>, p: usize, t: &mut Tracker) -> (res: Option<(Rule, usize)>)
    requires
        p <= s@.len(),
    ensures
        match res {
            Some((r, e)) => m_top_level_repl(s@, p as int) == Some((r, e as int)),
            None => m_top_level_repl(s@, p as int) is None,
        },
        final(t)@ == t_top_level_repl(s@, p as int, old(t)@),
        res matches Some((_, e)) ==> p < e <= s@.len(),
{
    if let Some(e) = stmt_select(s, p, t) {
        return Some((Rule::stmt_select, e));
    }
    if let Some(e) = stmt_create_table(s, p, t) {
        return Some((Rule::stmt_create_table, e));
    }
    if let Some(e) = stmt_top_legacy(s, p, t) {
        return Some((Rule::stmt_top_legacy, e));
    }
    if let Some(e) = stmt_top(s, p, t) {
        return Some((Rule::stmt_top, e));
    }
    if let Some(e) = expr(s, p, t) {
        return Some((Rule::expr, e));
    }
    if let Some(e) = literal(s, p, t) {
        return Some((Rule::literal, e));
    }
    match identifier(s, p, t) {
        Some(e) => Some((Rule::identifier, e)),
        None => None,
    }
}

} // verus!
