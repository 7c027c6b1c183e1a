//! The T-SQL grammar, stated over the UTF-8 bytes of the source text.
//!
//! Each rule `x` of the grammar has two spec functions:
//! * `m_x(s, p)`: where a match of `x` that starts at byte `p` of `s` ends
//!   (`None` when `x` does not match there);
//! * `t_x(s, p, f)`: the record of failed rules (`Fails`) after trying `x`
//!   at `p`, starting from the record `f`.
//!
//! Rules are ordered choices (PEG): the first alternative that matches wins.
//! Between the parts of a non-atomic rule any run of whitespace
//! (space, tab, carriage return, line feed) is skipped; atomic rules
//! (`identifier`, `lit_integer` and the two-character comparison operators)
//! skip nothing. Keywords match ASCII letters without regard to case.
//!
//! The grammar:
//! ```text
//! tsql             = _{ stmt_select ~ eoi }
//! stmt_top_legacy  =  { kw_top ~ lit_integer ~ kw_percent? }
//! stmt_top         =  { kw_top ~ tok_paren_open ~ expr ~ tok_paren_close ~ kw_percent? ~ kw_with_ties? }
//! stmt_select      =  { kw_select ~ (stmt_top | stmt_top_legacy)? ~ column_name_list ~ kw_from ~ identifier ~ clause_where? }
//! stmt_create_table = { kw_create_table ~ identifier }
//! top_level_repl   = _{ stmt_select | stmt_create_table | stmt_top_legacy | stmt_top | expr | literal | identifier }
//! expr             =  { lit_integer }
//! lit_bool         =  { [i"TRUE"] | [i"FALSE"] }
//! lit_integer      = @{ ['0'..'9']+ }
//! literal          =  { lit_bool | lit_integer }
//! identifier       = @{ (['a'..'z'] | ['A'..'Z'] | ["_"]) ~ (['a'..'z'] | ['A'..'Z'] | ['0'..'9'] | ["_"])* }
//! op_cmp           =  { op_cmp_eq | op_cmp_neq_bang | op_cmp_lt | op_cmp_gt | op_cmp_lt_eq | op_cmp_gt_eq }
//! op_cmp_eq        =  { tok_eq }
//! op_cmp_neq_bang  = @{ tok_bang ~ tok_eq }
//! op_cmp_lt        =  { tok_angle_open }
//! op_cmp_gt        =  { tok_angle_close }
//! op_cmp_lt_eq     = @{ tok_angle_open ~ tok_eq }
//! op_cmp_gt_eq     = @{ tok_angle_close ~ tok_eq }
//! kw_with_ties     =  { [i"WITH"] ~ [i"TIES"] }
//! kw_create_table  =  { [i"CREATE"] ~ [i"TABLE"] }
//! pred_cmp         =  { expr ~ op_cmp ~ expr }
//! clause_where     =  { kw_where ~ pred_cmp }
//! column_name_list =  { (tok_star | identifier) ~ (tok_comma ~ (tok_star | identifier))* }
//! ```
//!
//! Failure record: when a rule fails at `p` and none of the rules it tried
//! recorded a failure, the rule itself is recorded. A record keeps only the
//! failures at the furthest position reached.
use vstd::prelude::*;

verus! {

/// The rules of the grammar, in the order in which expected rules are listed.
#[allow(non_camel_case_types)]
#[derive(Clone, Copy, Debug, PartialEq, Eq, Structural)]
pub enum Rule {
    any,
    soi,
    eoi,
    column_name_list,
    clause_where,
    pred_cmp,
    kw_not,
    kw_and,
    kw_or,
    kw_create_table,
    kw_with_ties,
    kw_percent,
    kw_where,
    kw_from,
    kw_top,
    kw_select,
    op_cmp_gt_eq,
    op_cmp_lt_eq,
    op_cmp_gt,
    op_cmp_lt,
    op_cmp_neq_bang,
    op_cmp_eq,
    op_cmp,
    tok_angle_close,
    tok_angle_open,
    tok_bang,
    tok_eq,
    tok_comma,
    tok_paren_close,
    tok_paren_open,
    tok_slash_forward,
    tok_star,
    tok_caret,
    tok_pipe,
    tok_percent,
    tok_ampersand,
    tok_minus,
    tok_plus,
    identifier,
    literal,
    lit_integer,
    lit_bool,
    expr,
    stmt_create_table,
    stmt_select,
    stmt_top,
    stmt_top_legacy,
}

/// The number of rules.
pub open spec fn rule_count() -> nat {
    47
}

/// The rule at a given place of the listing order.
pub open spec fn rule_at(i: int) -> Rule {
    if i == 0 { Rule::any }
    else if i == 1 { Rule::soi }
    else if i == 2 { Rule::eoi }
    else if i == 3 { Rule::column_name_list }
    else if i == 4 { Rule::clause_where }
    else if i == 5 { Rule::pred_cmp }
    else if i == 6 { Rule::kw_not }
    else if i == 7 { Rule::kw_and }
    else if i == 8 { Rule::kw_or }
    else if i == 9 { Rule::kw_create_table }
    else if i == 10 { Rule::kw_with_ties }
    else if i == 11 { Rule::kw_percent }
    else if i == 12 { Rule::kw_where }
    else if i == 13 { Rule::kw_from }
    else if i == 14 { Rule::kw_top }
    else if i == 15 { Rule::kw_select }
    else if i == 16 { Rule::op_cmp_gt_eq }
    else if i == 17 { Rule::op_cmp_lt_eq }
    else if i == 18 { Rule::op_cmp_gt }
    else if i == 19 { Rule::op_cmp_lt }
    else if i == 20 { Rule::op_cmp_neq_bang }
    else if i == 21 { Rule::op_cmp_eq }
    else if i == 22 { Rule::op_cmp }
    else if i == 23 { Rule::tok_angle_close }
    else if i == 24 { Rule::tok_angle_open }
    else if i == 25 { Rule::tok_bang }
    else if i == 26 { Rule::tok_eq }
    else if i == 27 { Rule::tok_comma }
    else if i == 28 { Rule::tok_paren_close }
    else if i == 29 { Rule::tok_paren_open }
    else if i == 30 { Rule::tok_slash_forward }
    else if i == 31 { Rule::tok_star }
    else if i == 32 { Rule::tok_caret }
    else if i == 33 { Rule::tok_pipe }
    else if i == 34 { Rule::tok_percent }
    else if i == 35 { Rule::tok_ampersand }
    else if i == 36 { Rule::tok_minus }
    else if i == 37 { Rule::tok_plus }
    else if i == 38 { Rule::identifier }
    else if i == 39 { Rule::literal }
    else if i == 40 { Rule::lit_integer }
    else if i == 41 { Rule::lit_bool }
    else if i == 42 { Rule::expr }
    else if i == 43 { Rule::stmt_create_table }
    else if i == 44 { Rule::stmt_select }
    else if i == 45 { Rule::stmt_top }
    else { Rule::stmt_top_legacy }
}

/// `rule_at` at a `usize` place.
pub open spec fn rule_at_usize(i: usize) -> Rule {
    rule_at(i as int)
}

/// The keywords of the grammar.
#[derive(Clone, Copy, Debug, PartialEq, Eq, Structural)]
pub enum Kw {
    Select,
    Top,
    From,
    Where,
    Percent,
    With,
    Ties,
    Create,
    Table,
    True,
    False,
    Or,
    And,
    Not,
}

/// The (upper-case ASCII) bytes of a keyword.
pub open spec fn kw_bytes(k: Kw) -> Seq<u8> {
    match k {
        Kw::Select => seq![83u8, 69u8, 76u8, 69u8, 67u8, 84u8],
        Kw::Top => seq![84u8, 79u8, 80u8],
        Kw::From => seq![70u8, 82u8, 79u8, 77u8],
        Kw::Where => seq![87u8, 72u8, 69u8, 82u8, 69u8],
        Kw::Percent => seq![80u8, 69u8, 82u8, 67u8, 69u8, 78u8, 84u8],
        Kw::With => seq![87u8, 73u8, 84u8, 72u8],
        Kw::Ties => seq![84u8, 73u8, 69u8, 83u8],
        Kw::Create => seq![67u8, 82u8, 69u8, 65u8, 84u8, 69u8],
        Kw::Table => seq![84u8, 65u8, 66u8, 76u8, 69u8],
        Kw::True => seq![84u8, 82u8, 85u8, 69u8],
        Kw::False => seq![70u8, 65u8, 76u8, 83u8, 69u8],
        Kw::Or => seq![79u8, 82u8],
        Kw::And => seq![65u8, 78u8, 68u8],
        Kw::Not => seq![78u8, 79u8, 84u8],
    }
}

// ---------------------------------------------------------------- bytes

/// Space, tab, carriage return or line feed.
pub open spec fn is_ws(b: u8) -> bool {
    b == 32u8 || b == 9u8 || b == 13u8 || b == 10u8
}

pub open spec fn is_digit(b: u8) -> bool {
    48u8 <= b <= 57u8
}

/// `['a'..'z'] | ['A'..'Z'] | ["_"]`
pub open spec fn is_ident_start(b: u8) -> bool {
    (97u8 <= b <= 122u8) || (65u8 <= b <= 90u8) || b == 95u8
}

/// `['a'..'z'] | ['A'..'Z'] | ['0'..'9'] | ["_"]`
pub open spec fn is_ident_char(b: u8) -> bool {
    is_ident_start(b) || is_digit(b)
}

pub open spec fn ascii_lower(b: u8) -> u8 {
    if 65u8 <= b <= 90u8 {
        (b + 32) as u8
    } else {
        b
    }
}

/// The first position at or after `p` that does not hold whitespace.
pub open spec fn skip_ws(s: Seq<u8>, p: int) -> int
    decreases s.len() - p,
{
    if 0 <= p < s.len() && is_ws(s[p]) {
        skip_ws(s, p + 1)
    } else {
        p
    }
}

/// The end of the run of digits that starts at `p`.
pub open spec fn digits_end(s: Seq<u8>, p: int) -> int
    decreases s.len() - p,
{
    if 0 <= p < s.len() && is_digit(s[p]) {
        digits_end(s, p + 1)
    } else {
        p
    }
}

/// The end of the run of identifier characters that starts at `p`.
pub open spec fn ident_end(s: Seq<u8>, p: int) -> int
    decreases s.len() - p,
{
    if 0 <= p < s.len() && is_ident_char(s[p]) {
        ident_end(s, p + 1)
    } else {
        p
    }
}

/// `s` holds the keyword `k` at `p`, ignoring ASCII case.
pub open spec fn kw_at(s: Seq<u8>, p: int, k: Kw) -> bool {
    &&& 0 <= p
    &&& p + kw_bytes(k).len() <= s.len()
    &&& forall|i: int|
        #![trigger kw_bytes(k)[i]]
        0 <= i < kw_bytes(k).len() ==> ascii_lower(s[p + i]) == ascii_lower(kw_bytes(k)[i])
}

// ---------------------------------------------------------------- failures

/// The failed rules recorded so far, all at byte position `pos`.
pub struct Fails {
    pub rules: Seq<Rule>,
    pub pos: int,
}

/// No failure recorded yet.
pub open spec fn no_fails() -> Fails {
    Fails { rules: Seq::empty(), pos: 0 }
}

/// Record that rule `r` failed at `p`.
pub open spec fn track(f: Fails, r: Rule, p: int) -> Fails {
    if f.rules.len() == 0 {
        Fails { rules: seq![r], pos: p }
    } else if p == f.pos {
        Fails { rules: f.rules.push(r), pos: f.pos }
    } else if p > f.pos {
        Fails { rules: seq![r], pos: p }
    } else {
        f
    }
}

/// The record after a (non-atomic, non-silent) rule `r` tried at `p`:
/// `body` is the record after its body; when the rule failed and its body
/// left the record's length and position as they were in `f`, the rule
/// itself is recorded.
pub open spec fn normal(r: Rule, p: int, f: Fails, matched: bool, body: Fails) -> Fails {
    if matched {
        body
    } else if body.rules.len() == f.rules.len() && body.pos == f.pos {
        track(body, r, p)
    } else {
        body
    }
}

// ---------------------------------------------------------------- terminals

/// A single-byte token.
pub open spec fn m_tok(s: Seq<u8>, p: int, b: u8) -> Option<int> {
    if 0 <= p < s.len() && s[p] == b {
        Some(p + 1)
    } else {
        None
    }
}

pub open spec fn t_tok(s: Seq<u8>, p: int, b: u8, r: Rule, f: Fails) -> Fails {
    if m_tok(s, p, b) is Some {
        f
    } else {
        track(f, r, p)
    }
}

/// A keyword rule.
pub open spec fn m_kw(s: Seq<u8>, p: int, k: Kw) -> Option<int> {
    if kw_at(s, p, k) {
        Some(p + kw_bytes(k).len())
    } else {
        None
    }
}

pub open spec fn t_kw(s: Seq<u8>, p: int, k: Kw, r: Rule, f: Fails) -> Fails {
    if m_kw(s, p, k) is Some {
        f
    } else {
        track(f, r, p)
    }
}

/// Two keywords with whitespace allowed between them.
pub open spec fn m_kw2(s: Seq<u8>, p: int, k1: Kw, k2: Kw) -> Option<int> {
    match m_kw(s, p, k1) {
        None => None,
        Some(e1) => m_kw(s, skip_ws(s, e1), k2),
    }
}

pub open spec fn t_kw2(s: Seq<u8>, p: int, k1: Kw, k2: Kw, r: Rule, f: Fails) -> Fails {
    if m_kw2(s, p, k1, k2) is Some {
        f
    } else {
        track(f, r, p)
    }
}

/// `kw_with_ties`
pub open spec fn m_with_ties(s: Seq<u8>, p: int) -> Option<int> {
    m_kw2(s, p, Kw::With, Kw::Ties)
}

/// `kw_create_table`
pub open spec fn m_create_table(s: Seq<u8>, p: int) -> Option<int> {
    m_kw2(s, p, Kw::Create, Kw::Table)
}

/// `lit_integer`
pub open spec fn m_lit_integer(s: Seq<u8>, p: int) -> Option<int> {
    if 0 <= p < s.len() && is_digit(s[p]) {
        Some(digits_end(s, p))
    } else {
        None
    }
}

pub open spec fn t_lit_integer(s: Seq<u8>, p: int, f: Fails) -> Fails {
    if m_lit_integer(s, p) is Some {
        f
    } else {
        track(f, Rule::lit_integer, p)
    }
}

/// `identifier`
pub open spec fn m_identifier(s: Seq<u8>, p: int) -> Option<int> {
    if 0 <= p < s.len() && is_ident_start(s[p]) {
        Some(ident_end(s, p + 1))
    } else {
        None
    }
}

pub open spec fn t_identifier(s: Seq<u8>, p: int, f: Fails) -> Fails {
    if m_identifier(s, p) is Some {
        f
    } else {
        track(f, Rule::identifier, p)
    }
}

/// `expr`
pub open spec fn m_expr(s: Seq<u8>, p: int) -> Option<int> {
    m_lit_integer(s, p)
}

pub open spec fn t_expr(s: Seq<u8>, p: int, f: Fails) -> Fails {
    normal(Rule::expr, p, f, m_expr(s, p) is Some, t_lit_integer(s, p, f))
}

/// `lit_bool`
pub open spec fn m_lit_bool(s: Seq<u8>, p: int) -> Option<int> {
    match m_kw(s, p, Kw::True) {
        Some(e) => Some(e),
        None => m_kw(s, p, Kw::False),
    }
}

pub open spec fn t_lit_bool(s: Seq<u8>, p: int, f: Fails) -> Fails {
    if m_lit_bool(s, p) is Some {
        f
    } else {
        track(f, Rule::lit_bool, p)
    }
}

/// `literal`
pub open spec fn m_literal(s: Seq<u8>, p: int) -> Option<int> {
    match m_lit_bool(s, p) {
        Some(e) => Some(e),
        None => m_lit_integer(s, p),
    }
}

pub open spec fn t_literal(s: Seq<u8>, p: int, f: Fails) -> Fails {
    let f1 = t_lit_bool(s, p, f);
    let body = if m_lit_bool(s, p) is Some {
        f1
    } else {
        t_lit_integer(s, p, f1)
    };
    normal(Rule::literal, p, f, m_literal(s, p) is Some, body)
}

// ---------------------------------------------------------------- TOP

/// The end of an optional part that was tried after the part ending at `e`:
/// when the optional part does not match, the skipped whitespace is given back.
pub open spec fn opt_end(e: int, o: Option<int>) -> int {
    match o {
        Some(x) => x,
        None => e,
    }
}

/// `stmt_top`
pub open spec fn m_stmt_top(s: Seq<u8>, p: int) -> Option<int> {
    match m_kw(s, p, Kw::Top) {
        None => None,
        Some(e1) => match m_tok(s, skip_ws(s, e1), 40u8) {
            None => None,
            Some(e2) => match m_expr(s, skip_ws(s, e2)) {
                None => None,
                Some(e3) => match m_tok(s, skip_ws(s, e3), 41u8) {
                    None => None,
                    Some(e4) => {
                        let e5 = opt_end(e4, m_kw(s, skip_ws(s, e4), Kw::Percent));
                        Some(opt_end(e5, m_with_ties(s, skip_ws(s, e5))))
                    },
                },
            },
        },
    }
}

pub open spec fn t_stmt_top_body(s: Seq<u8>, p: int, f: Fails) -> Fails {
    let f1 = t_kw(s, p, Kw::Top, Rule::kw_top, f);
    match m_kw(s, p, Kw::Top) {
        None => f1,
        Some(e1) => {
            let q1 = skip_ws(s, e1);
            let f2 = t_tok(s, q1, 40u8, Rule::tok_paren_open, f1);
            match m_tok(s, q1, 40u8) {
                None => f2,
                Some(e2) => {
                    let q2 = skip_ws(s, e2);
                    let f3 = t_expr(s, q2, f2);
                    match m_expr(s, q2) {
                        None => f3,
                        Some(e3) => {
                            let q3 = skip_ws(s, e3);
                            let f4 = t_tok(s, q3, 41u8, Rule::tok_paren_close, f3);
                            match m_tok(s, q3, 41u8) {
                                None => f4,
                                Some(e4) => {
                                    let q4 = skip_ws(s, e4);
                                    let f5 = t_kw(s, q4, Kw::Percent, Rule::kw_percent, f4);
                                    let e5 = opt_end(e4, m_kw(s, q4, Kw::Percent));
                                    t_kw2(s, skip_ws(s, e5), Kw::With, Kw::Ties, Rule::kw_with_ties, f5)
                                },
                            }
                        },
                    }
                },
            }
        },
    }
}

pub open spec fn t_stmt_top(s: Seq<u8>, p: int, f: Fails) -> Fails {
    normal(Rule::stmt_top, p, f, m_stmt_top(s, p) is Some, t_stmt_top_body(s, p, f))
}

/// `stmt_top_legacy`
pub open spec fn m_stmt_top_legacy(s: Seq<u8>, p: int) -> Option<int> {
    match m_kw(s, p, Kw::Top) {
        None => None,
        Some(e1) => match m_lit_integer(s, skip_ws(s, e1)) {
            None => None,
            Some(e2) => Some(opt_end(e2, m_kw(s, skip_ws(s, e2), Kw::Percent))),
        },
    }
}

pub open spec fn t_stmt_top_legacy_body(s: Seq<u8>, p: int, f: Fails) -> Fails {
    let f1 = t_kw(s, p, Kw::Top, Rule::kw_top, f);
    match m_kw(s, p, Kw::Top) {
        None => f1,
        Some(e1) => {
            let q1 = skip_ws(s, e1);
            let f2 = t_lit_integer(s, q1, f1);
            match m_lit_integer(s, q1) {
                None => f2,
                Some(e2) => t_kw(s, skip_ws(s, e2), Kw::Percent, Rule::kw_percent, f2),
            }
        },
    }
}

pub open spec fn t_stmt_top_legacy(s: Seq<u8>, p: int, f: Fails) -> Fails {
    normal(
        Rule::stmt_top_legacy,
        p,
        f,
        m_stmt_top_legacy(s, p) is Some,
        t_stmt_top_legacy_body(s, p, f),
    )
}

// ---------------------------------------------------------------- column names

/// `tok_star | identifier`
pub open spec fn m_item(s: Seq<u8>, p: int) -> Option<int> {
    match m_tok(s, p, 42u8) {
        Some(e) => Some(e),
        None => m_identifier(s, p),
    }
}

pub open spec fn t_item(s: Seq<u8>, p: int, f: Fails) -> Fails {
    let f1 = t_tok(s, p, 42u8, Rule::tok_star, f);
    if m_tok(s, p, 42u8) is Some {
        f1
    } else {
        t_identifier(s, p, f1)
    }
}

/// The end of `(tok_comma ~ (tok_star | identifier))*` after an item that ended at `cur`.
pub open spec fn m_items_rest(s: Seq<u8>, cur: int) -> int
    decreases s.len() - cur,
{
    match m_tok(s, skip_ws(s, cur), 44u8) {
        None => cur,
        Some(c) => match m_item(s, skip_ws(s, c)) {
            None => cur,
            Some(e) => if cur < e <= s.len() {
                m_items_rest(s, e)
            } else {
                cur
            },
        },
    }
}

pub open spec fn t_items_rest(s: Seq<u8>, cur: int, f: Fails) -> Fails
    decreases s.len() - cur,
{
    let a = skip_ws(s, cur);
    let f1 = t_tok(s, a, 44u8, Rule::tok_comma, f);
    match m_tok(s, a, 44u8) {
        None => f1,
        Some(c) => {
            let b = skip_ws(s, c);
            let f2 = t_item(s, b, f1);
            match m_item(s, b) {
                None => f2,
                Some(e) => if cur < e <= s.len() {
                    t_items_rest(s, e, f2)
                } else {
                    f2
                },
            }
        },
    }
}

/// `column_name_list`
pub open spec fn m_column_name_list(s: Seq<u8>, p: int) -> Option<int> {
    match m_item(s, p) {
        None => None,
        Some(e1) => Some(m_items_rest(s, e1)),
    }
}

pub open spec fn t_column_name_list(s: Seq<u8>, p: int, f: Fails) -> Fails {
    let f1 = t_item(s, p, f);
    let body = match m_item(s, p) {
        None => f1,
        Some(e1) => t_items_rest(s, e1, f1),
    };
    normal(Rule::column_name_list, p, f, m_column_name_list(s, p) is Some, body)
}

// ---------------------------------------------------------------- WHERE

/// `op_cmp`: the first of `=`, `!=`, `<`, `>`, `<=`, `>=` that matches.
pub open spec fn m_comparison_op(s: Seq<u8>, p: int) -> Option<int> {
    if m_tok(s, p, 61u8) is Some {
        m_tok(s, p, 61u8)
    } else if m_tok(s, p, 33u8) is Some && m_tok(s, p + 1, 61u8) is Some {
        Some(p + 2)
    } else if m_tok(s, p, 60u8) is Some {
        m_tok(s, p, 60u8)
    } else if m_tok(s, p, 62u8) is Some {
        m_tok(s, p, 62u8)
    } else {
        None
    }
}

/// The record after the alternatives of `op_cmp` were tried at `p`.
pub open spec fn t_comparison_op_body(s: Seq<u8>, p: int, f: Fails) -> Fails {
    // op_cmp_eq = { tok_eq }
    let f1 = normal(Rule::op_cmp_eq, p, f, m_tok(s, p, 61u8) is Some, t_tok(s, p, 61u8, Rule::tok_eq, f));
    if m_tok(s, p, 61u8) is Some {
        f1
    } else {
        // op_cmp_neq_bang = @{ tok_bang ~ tok_eq }: its parts record nothing
        let neq = m_tok(s, p, 33u8) is Some && m_tok(s, p + 1, 61u8) is Some;
        let f2 = if neq { f1 } else { track(f1, Rule::op_cmp_neq_bang, p) };
        if neq {
            f2
        } else {
            let f3 = normal(Rule::op_cmp_lt, p, f2, m_tok(s, p, 60u8) is Some,
                t_tok(s, p, 60u8, Rule::tok_angle_open, f2));
            if m_tok(s, p, 60u8) is Some {
                f3
            } else {
                let f4 = normal(Rule::op_cmp_gt, p, f3, m_tok(s, p, 62u8) is Some,
                    t_tok(s, p, 62u8, Rule::tok_angle_close, f3));
                if m_tok(s, p, 62u8) is Some {
                    f4
                } else {
                    // op_cmp_lt_eq and op_cmp_gt_eq are atomic and cannot match here
                    let f5 = track(f4, Rule::op_cmp_lt_eq, p);
                    track(f5, Rule::op_cmp_gt_eq, p)
                }
            }
        }
    }
}

pub open spec fn t_comparison_op(s: Seq<u8>, p: int, f: Fails) -> Fails {
    normal(Rule::op_cmp, p, f, m_comparison_op(s, p) is Some, t_comparison_op_body(s, p, f))
}

/// `pred_cmp`
pub open spec fn m_comparison(s: Seq<u8>, p: int) -> Option<int> {
    match m_expr(s, p) {
        None => None,
        Some(e1) => match m_comparison_op(s, skip_ws(s, e1)) {
            None => None,
            Some(e2) => m_expr(s, skip_ws(s, e2)),
        },
    }
}

pub open spec fn t_comparison(s: Seq<u8>, p: int, f: Fails) -> Fails {
    let f1 = t_expr(s, p, f);
    let body = match m_expr(s, p) {
        None => f1,
        Some(e1) => {
            let q1 = skip_ws(s, e1);
            let f2 = t_comparison_op(s, q1, f1);
            match m_comparison_op(s, q1) {
                None => f2,
                Some(e2) => t_expr(s, skip_ws(s, e2), f2),
            }
        },
    };
    normal(Rule::pred_cmp, p, f, m_comparison(s, p) is Some, body)
}

/// The comparison specs at a `usize` position.
pub open spec fn m_comparison_op_at(s: Seq<u8>, p: usize) -> Option<int> {
    m_comparison_op(s, p as int)
}

pub open spec fn t_comparison_op_at(s: Seq<u8>, p: usize, f: Fails) -> Fails {
    t_comparison_op(s, p as int, f)
}

pub open spec fn t_comparison_op_body_at(s: Seq<u8>, p: usize, f: Fails) -> Fails {
    t_comparison_op_body(s, p as int, f)
}

pub open spec fn m_comparison_at(s: Seq<u8>, p: usize) -> Option<int> {
    m_comparison(s, p as int)
}

pub open spec fn t_comparison_at(s: Seq<u8>, p: usize, f: Fails) -> Fails {
    t_comparison(s, p as int, f)
}

/// `clause_where`
pub open spec fn m_clause_where(s: Seq<u8>, p: int) -> Option<int> {
    match m_kw(s, p, Kw::Where) {
        None => None,
        Some(e1) => m_comparison(s, skip_ws(s, e1)),
    }
}

pub open spec fn t_clause_where(s: Seq<u8>, p: int, f: Fails) -> Fails {
    let f1 = t_kw(s, p, Kw::Where, Rule::kw_where, f);
    let body = match m_kw(s, p, Kw::Where) {
        None => f1,
        Some(e1) => t_comparison(s, skip_ws(s, e1), f1),
    };
    normal(Rule::clause_where, p, f, m_clause_where(s, p) is Some, body)
}

// ---------------------------------------------------------------- SELECT

/// `(stmt_top | stmt_top_legacy)`: which of the two matches first, and where it ends.
pub open spec fn m_top_choice(s: Seq<u8>, p: int) -> Option<(bool, int)> {
    match m_stmt_top(s, p) {
        Some(e) => Some((false, e)),
        None => match m_stmt_top_legacy(s, p) {
            Some(e) => Some((true, e)),
            None => None,
        },
    }
}

pub open spec fn t_top_choice(s: Seq<u8>, p: int, f: Fails) -> Fails {
    let f1 = t_stmt_top(s, p, f);
    if m_stmt_top(s, p) is Some {
        f1
    } else {
        t_stmt_top_legacy(s, p, f1)
    }
}

/// Where the column list of a SELECT starting at `p` begins (the keyword and
/// optional TOP clause before it having matched).
pub open spec fn select_columns_start(s: Seq<u8>, p: int) -> int {
    let e1 = p + kw_bytes(Kw::Select).len();
    let q1 = skip_ws(s, e1);
    let e2 = match m_top_choice(s, q1) {
        Some((_, e)) => e,
        None => e1,
    };
    skip_ws(s, e2)
}

/// `stmt_select`
pub open spec fn m_stmt_select(s: Seq<u8>, p: int) -> Option<int> {
    match m_kw(s, p, Kw::Select) {
        None => None,
        Some(e1) => {
            let q2 = select_columns_start(s, p);
            match m_column_name_list(s, q2) {
                None => None,
                Some(e3) => match m_kw(s, skip_ws(s, e3), Kw::From) {
                    None => None,
                    Some(e4) => match m_identifier(s, skip_ws(s, e4)) {
                        None => None,
                        Some(e5) => Some(opt_end(e5, m_clause_where(s, skip_ws(s, e5)))),
                    },
                },
            }
        },
    }
}

pub open spec fn t_stmt_select_body(s: Seq<u8>, p: int, f: Fails) -> Fails {
    let f1 = t_kw(s, p, Kw::Select, Rule::kw_select, f);
    match m_kw(s, p, Kw::Select) {
        None => f1,
        Some(e1) => {
            let f2 = t_top_choice(s, skip_ws(s, e1), f1);
            let q2 = select_columns_start(s, p);
            let f3 = t_column_name_list(s, q2, f2);
            match m_column_name_list(s, q2) {
                None => f3,
                Some(e3) => {
                    let q3 = skip_ws(s, e3);
                    let f4 = t_kw(s, q3, Kw::From, Rule::kw_from, f3);
                    match m_kw(s, q3, Kw::From) {
                        None => f4,
                        Some(e4) => {
                            let q4 = skip_ws(s, e4);
                            let f5 = t_identifier(s, q4, f4);
                            match m_identifier(s, q4) {
                                None => f5,
                                Some(e5) => t_clause_where(s, skip_ws(s, e5), f5),
                            }
                        },
                    }
                },
            }
        },
    }
}

pub open spec fn t_stmt_select(s: Seq<u8>, p: int, f: Fails) -> Fails {
    normal(Rule::stmt_select, p, f, m_stmt_select(s, p) is Some, t_stmt_select_body(s, p, f))
}

/// `tsql`: a SELECT statement followed by nothing but whitespace.
pub open spec fn m_tsql(s: Seq<u8>, p: int) -> Option<int> {
    match m_stmt_select(s, p) {
        None => None,
        Some(e) => if skip_ws(s, e) == s.len() {
            Some(s.len() as int)
        } else {
            None
        },
    }
}

pub open spec fn t_tsql(s: Seq<u8>, p: int, f: Fails) -> Fails {
    let f1 = t_stmt_select(s, p, f);
    match m_stmt_select(s, p) {
        None => f1,
        Some(e) => if skip_ws(s, e) == s.len() {
            f1
        } else {
            track(f1, Rule::eoi, skip_ws(s, e))
        },
    }
}

// ---------------------------------------------------------------- CREATE TABLE

/// `stmt_create_table`
pub open spec fn m_stmt_create_table(s: Seq<u8>, p: int) -> Option<int> {
    match m_create_table(s, p) {
        None => None,
        Some(e1) => m_identifier(s, skip_ws(s, e1)),
    }
}

pub open spec fn t_stmt_create_table(s: Seq<u8>, p: int, f: Fails) -> Fails {
    let f1 = t_kw2(s, p, Kw::Create, Kw::Table, Rule::kw_create_table, f);
    let body = match m_create_table(s, p) {
        None => f1,
        Some(e1) => t_identifier(s, skip_ws(s, e1), f1),
    };
    normal(Rule::stmt_create_table, p, f, m_stmt_create_table(s, p) is Some, body)
}

// ---------------------------------------------------------------- REPL

/// `top_level_repl`: the first alternative that matches, and where it ends.
pub open spec fn m_top_level_repl(s: Seq<u8>, p: int) -> Option<(Rule, int)> {
    if m_stmt_select(s, p) is Some {
        Some((Rule::stmt_select, m_stmt_select(s, p)->0))
    } else if m_stmt_create_table(s, p) is Some {
        Some((Rule::stmt_create_table, m_stmt_create_table(s, p)->0))
    } else if m_stmt_top_legacy(s, p) is Some {
        Some((Rule::stmt_top_legacy, m_stmt_top_legacy(s, p)->0))
    } else if m_stmt_top(s, p) is Some {
        Some((Rule::stmt_top, m_stmt_top(s, p)->0))
    } else if m_expr(s, p) is Some {
        Some((Rule::expr, m_expr(s, p)->0))
    } else if m_literal(s, p) is Some {
        Some((Rule::literal, m_literal(s, p)->0))
    } else if m_identifier(s, p) is Some {
        Some((Rule::identifier, m_identifier(s, p)->0))
    } else {
        None
    }
}

pub open spec fn t_top_level_repl(s: Seq<u8>, p: int, f: Fails) -> Fails {
    let f1 = t_stmt_select(s, p, f);
    if m_stmt_select(s, p) is Some { f1 } else {
    let f2 = t_stmt_create_table(s, p, f1);
    if m_stmt_create_table(s, p) is Some { f2 } else {
    let f3 = t_stmt_top_legacy(s, p, f2);
    if m_stmt_top_legacy(s, p) is Some { f3 } else {
    let f4 = t_stmt_top(s, p, f3);
    if m_stmt_top(s, p) is Some { f4 } else {
    let f5 = t_expr(s, p, f4);
    if m_expr(s, p) is Some { f5 } else {
    let f6 = t_literal(s, p, f5);
    if m_literal(s, p) is Some { f6 } else {
    t_identifier(s, p, f6)
    }}}}}}
}

// ---------------------------------------------------------------- single rules

/// The keyword of a rule that is a single keyword.
pub open spec fn single_keyword(r: Rule) -> Option<Kw> {
    match r {
        Rule::kw_select => Some(Kw::Select),
        Rule::kw_top => Some(Kw::Top),
        Rule::kw_from => Some(Kw::From),
        Rule::kw_where => Some(Kw::Where),
        Rule::kw_percent => Some(Kw::Percent),
        Rule::kw_or => Some(Kw::Or),
        Rule::kw_and => Some(Kw::And),
        Rule::kw_not => Some(Kw::Not),
        _ => None,
    }
}

/// The byte of a rule that is a single-byte token.
pub open spec fn token_byte(r: Rule) -> Option<u8> {
    match r {
        Rule::tok_plus => Some(43u8),
        Rule::tok_minus => Some(45u8),
        Rule::tok_ampersand => Some(38u8),
        Rule::tok_percent => Some(37u8),
        Rule::tok_pipe => Some(124u8),
        Rule::tok_caret => Some(94u8),
        Rule::tok_star => Some(42u8),
        Rule::tok_slash_forward => Some(47u8),
        Rule::tok_paren_open => Some(40u8),
        Rule::tok_paren_close => Some(41u8),
        Rule::tok_comma => Some(44u8),
        Rule::tok_eq => Some(61u8),
        Rule::tok_bang => Some(33u8),
        Rule::tok_angle_open => Some(60u8),
        Rule::tok_angle_close => Some(62u8),
        _ => None,
    }
}

// ---------------------------------------------------------------- laws

proof fn lemma_ident_end_run(s: Seq<u8>, q: int)
    requires
        0 <= q <= s.len(),
    ensures
        q <= ident_end(s, q) <= s.len(),
        forall|i: int| q <= i < ident_end(s, q) ==> is_ident_char(#[trigger] s[i]),
        ident_end(s, q) == s.len() || !is_ident_char(s[ident_end(s, q)]),
    decreases s.len() - q,
{
    if q < s.len() && is_ident_char(s[q]) {
        lemma_ident_end_run(s, q + 1);
    }
}

/// An identifier is an ASCII letter or `_`, then every ASCII letter, digit
/// and `_` that follows: its match never stops before one of them.
pub proof fn lemma_identifier_takes_whole_name(s: Seq<u8>, p: int)
    requires
        m_identifier(s, p) is Some,
    ensures
        p < m_identifier(s, p)->0 <= s.len(),
        (97u8 <= s[p] <= 122u8) || (65u8 <= s[p] <= 90u8) || s[p] == 95u8,
        forall|i: int|
            p < i < m_identifier(s, p)->0 ==> (97u8 <= #[trigger] s[i] <= 122u8) || (65u8 <= s[i]
                <= 90u8) || (48u8 <= s[i] <= 57u8) || s[i] == 95u8,
        m_identifier(s, p)->0 == s.len() || !({
            let b = s[m_identifier(s, p)->0];
            (97u8 <= b <= 122u8) || (65u8 <= b <= 90u8) || (48u8 <= b <= 57u8) || b == 95u8
        }),
{
    lemma_ident_end_run(s, p + 1);
}

proof fn lemma_skip_ws_within(s: Seq<u8>, p: int)
    requires
        0 <= p <= s.len(),
    ensures
        p <= skip_ws(s, p) <= s.len(),
    decreases s.len() - p,
{
    if p < s.len() && is_ws(s[p]) {
        lemma_skip_ws_within(s, p + 1);
    }
}

proof fn lemma_items_rest_maximal(s: Seq<u8>, cur: int)
    requires
        0 <= cur <= s.len(),
    ensures
        cur <= m_items_rest(s, cur) <= s.len(),
        ({
            let e = m_items_rest(s, cur);
            let a = skip_ws(s, e);
            !(a < s.len() && s[a] == 44u8 && m_item(s, skip_ws(s, a + 1)) is Some)
        }),
    decreases s.len() - cur,
{
    let a = skip_ws(s, cur);
    lemma_skip_ws_within(s, cur);
    match m_tok(s, a, 44u8) {
        None => {},
        Some(c) => {
            let b = skip_ws(s, c);
            lemma_skip_ws_within(s, c);
            match m_item(s, b) {
                None => {},
                Some(e) => {
                    if m_tok(s, b, 42u8) is None {
                        lemma_ident_end_run(s, b + 1);
                    }
                    assert(cur < e <= s.len());
                    lemma_items_rest_maximal(s, e);
                },
            }
        },
    }
}

/// A column name list takes every `, name` that follows its names (`*` or an
/// identifier, the first one included): where it ends, no comma followed by
/// another name comes next.
pub proof fn lemma_column_list_takes_every_name(s: Seq<u8>, p: int)
    requires
        0 <= p <= s.len(),
        m_item(s, p) is Some,
    ensures
        m_column_name_list(s, p) is Some,
        p < m_column_name_list(s, p)->0 <= s.len(),
        ({
            let e = m_column_name_list(s, p)->0;
            let a = skip_ws(s, e);
            !(a < s.len() && s[a] == 44u8 && m_item(s, skip_ws(s, a + 1)) is Some)
        }),
{
    let e1 = m_item(s, p)->0;
    if m_tok(s, p, 42u8) is None {
        lemma_ident_end_run(s, p + 1);
    }
    lemma_items_rest_maximal(s, e1);
}

proof fn lemma_digits_end_run(s: Seq<u8>, q: int)
    requires
        0 <= q <= s.len(),
    ensures
        q <= digits_end(s, q) <= s.len(),
        forall|i: int| q <= i < digits_end(s, q) ==> is_digit(#[trigger] s[i]),
        digits_end(s, q) == s.len() || !is_digit(s[digits_end(s, q)]),
    decreases s.len() - q,
{
    if q < s.len() && is_digit(s[q]) {
        lemma_digits_end_run(s, q + 1);
    }
}

/// An integer literal is every ASCII digit from where it starts: its match
/// never stops before a digit.
pub proof fn lemma_integer_takes_every_digit(s: Seq<u8>, p: int)
    requires
        m_lit_integer(s, p) is Some,
    ensures
        p < m_lit_integer(s, p)->0 <= s.len(),
        forall|i: int| p <= i < m_lit_integer(s, p)->0 ==> 48u8 <= #[trigger] s[i] <= 57u8,
        m_lit_integer(s, p)->0 == s.len() || !(48u8 <= s[m_lit_integer(s, p)->0] <= 57u8),
{
    lemma_digits_end_run(s, p);
}

proof fn lemma_skip_ws_run(s: Seq<u8>, q: int)
    requires
        0 <= q <= s.len(),
    ensures
        forall|i: int| q <= i < skip_ws(s, q) ==> is_ws(#[trigger] s[i]),
        skip_ws(s, q) == s.len() || !is_ws(s[skip_ws(s, q)]),
    decreases s.len() - q,
{
    lemma_skip_ws_within(s, q);
    if q < s.len() && is_ws(s[q]) {
        lemma_skip_ws_run(s, q + 1);
    }
}

/// Skipping whitespace passes over every space, tab, carriage return and
/// line feed, and over nothing else.
pub proof fn lemma_skip_ws_takes_every_space(s: Seq<u8>, p: int)
    requires
        0 <= p <= s.len(),
    ensures
        p <= skip_ws(s, p) <= s.len(),
        forall|i: int|
            p <= i < skip_ws(s, p) ==> (#[trigger] s[i] == 32u8 || s[i] == 9u8 || s[i] == 13u8
                || s[i] == 10u8),
        skip_ws(s, p) == s.len() || !({
            let b = s[skip_ws(s, p)];
            b == 32u8 || b == 9u8 || b == 13u8 || b == 10u8
        }),
{
    lemma_skip_ws_within(s, p);
    lemma_skip_ws_run(s, p);
}

/// A whole query matches `tsql` exactly when a SELECT statement matches at
/// its start and nothing but whitespace follows it.
pub proof fn lemma_tsql_is_select_then_spaces(s: Seq<u8>)
    ensures
        m_tsql(s, 0) is Some <==> (m_stmt_select(s, 0) is Some && forall|i: int|
            m_stmt_select(s, 0)->0 <= i < s.len() ==> (#[trigger] s[i] == 32u8 || s[i] == 9u8 || s[i]
                == 13u8 || s[i] == 10u8)),
        m_tsql(s, 0) is Some ==> m_tsql(s, 0) == Some(s.len() as int),
{
    if m_stmt_select(s, 0) is Some {
        let e = m_stmt_select(s, 0)->0;
        crate::failure_record::lemma_stmt_select_within(s, 0, no_fails());
        lemma_skip_ws_takes_every_space(s, e);
        if skip_ws(s, e) != s.len() {
            let b = skip_ws(s, e);
            assert(!(s[b] == 32u8 || s[b] == 9u8 || s[b] == 13u8 || s[b] == 10u8));
        }
    }
}

} // verus!
