//! The rules expected where matching failed, and their printed form.
//!
//! The printed form of the record `([r1, r2, ...], pos)` lists the failed
//! rules once each, in the order of the `Rule` enum, and the byte position
//! where they failed.
use vstd::prelude::*;
use crate::grammar::{Rule, Fails, rule_at, rule_at_usize, rule_count};
use crate::text::{decimal, push_str, push_decimal};

verus! {

/// The name of a rule, as it is printed.
pub open spec fn rule_name_spec(r: Rule) -> Seq<char> {
    match r {
        Rule::any => "any"@,
        Rule::soi => "soi"@,
        Rule::eoi => "eoi"@,
        Rule::column_name_list => "column_name_list"@,
        Rule::clause_where => "clause_where"@,
        Rule::pred_cmp => "pred_cmp"@,
        Rule::kw_not => "kw_not"@,
        Rule::kw_and => "kw_and"@,
        Rule::kw_or => "kw_or"@,
        Rule::kw_create_table => "kw_create_table"@,
        Rule::kw_with_ties => "kw_with_ties"@,
        Rule::kw_percent => "kw_percent"@,
        Rule::kw_where => "kw_where"@,
        Rule::kw_from => "kw_from"@,
        Rule::kw_top => "kw_top"@,
        Rule::kw_select => "kw_select"@,
        Rule::op_cmp_gt_eq => "op_cmp_gt_eq"@,
        Rule::op_cmp_lt_eq => "op_cmp_lt_eq"@,
        Rule::op_cmp_gt => "op_cmp_gt"@,
        Rule::op_cmp_lt => "op_cmp_lt"@,
        Rule::op_cmp_neq_bang => "op_cmp_neq_bang"@,
        Rule::op_cmp_eq => "op_cmp_eq"@,
        Rule::op_cmp => "op_cmp"@,
        Rule::tok_angle_close => "tok_angle_close"@,
        Rule::tok_angle_open => "tok_angle_open"@,
        Rule::tok_bang => "tok_bang"@,
        Rule::tok_eq => "tok_eq"@,
        Rule::tok_comma => "tok_comma"@,
        Rule::tok_paren_close => "tok_paren_close"@,
        Rule::tok_paren_open => "tok_paren_open"@,
        Rule::tok_slash_forward => "tok_slash_forward"@,
        Rule::tok_star => "tok_star"@,
        Rule::tok_caret => "tok_caret"@,
        Rule::tok_pipe => "tok_pipe"@,
        Rule::tok_percent => "tok_percent"@,
        Rule::tok_ampersand => "tok_ampersand"@,
        Rule::tok_minus => "tok_minus"@,
        Rule::tok_plus => "tok_plus"@,
        Rule::identifier => "identifier"@,
        Rule::literal => "literal"@,
        Rule::lit_integer => "lit_integer"@,
        Rule::lit_bool => "lit_bool"@,
        Rule::expr => "expr"@,
        Rule::stmt_create_table => "stmt_create_table"@,
        Rule::stmt_select => "stmt_select"@,
        Rule::stmt_top => "stmt_top"@,
        Rule::stmt_top_legacy => "stmt_top_legacy"@,
    }
}

/// The name of a rule, as it is printed.
pub fn rule_name(r: Rule) -> (s: &'static str)
    ensures
        s@ == rule_name_spec(r),
{
    match r {
        Rule::any => "any",
        Rule::soi => "soi",
        Rule::eoi => "eoi",
        Rule::column_name_list => "column_name_list",
        Rule::clause_where => "clause_where",
        Rule::pred_cmp => "pred_cmp",
        Rule::kw_not => "kw_not",
        Rule::kw_and => "kw_and",
        Rule::kw_or => "kw_or",
        Rule::kw_create_table => "kw_create_table",
        Rule::kw_with_ties => "kw_with_ties",
        Rule::kw_percent => "kw_percent",
        Rule::kw_where => "kw_where",
        Rule::kw_from => "kw_from",
        Rule::kw_top => "kw_top",
        Rule::kw_select => "kw_select",
        Rule::op_cmp_gt_eq => "op_cmp_gt_eq",
        Rule::op_cmp_lt_eq => "op_cmp_lt_eq",
        Rule::op_cmp_gt => "op_cmp_gt",
        Rule::op_cmp_lt => "op_cmp_lt",
        Rule::op_cmp_neq_bang => "op_cmp_neq_bang",
        Rule::op_cmp_eq => "op_cmp_eq",
        Rule::op_cmp => "op_cmp",
        Rule::tok_angle_close => "tok_angle_close",
        Rule::tok_angle_open => "tok_angle_open",
        Rule::tok_bang => "tok_bang",
        Rule::tok_eq => "tok_eq",
        Rule::tok_comma => "tok_comma",
        Rule::tok_paren_close => "tok_paren_close",
        Rule::tok_paren_open => "tok_paren_open",
        Rule::tok_slash_forward => "tok_slash_forward",
        Rule::tok_star => "tok_star",
        Rule::tok_caret => "tok_caret",
        Rule::tok_pipe => "tok_pipe",
        Rule::tok_percent => "tok_percent",
        Rule::tok_ampersand => "tok_ampersand",
        Rule::tok_minus => "tok_minus",
        Rule::tok_plus => "tok_plus",
        Rule::identifier => "identifier",
        Rule::literal => "literal",
        Rule::lit_integer => "lit_integer",
        Rule::lit_bool => "lit_bool",
        Rule::expr => "expr",
        Rule::stmt_create_table => "stmt_create_table",
        Rule::stmt_select => "stmt_select",
        Rule::stmt_top => "stmt_top",
        Rule::stmt_top_legacy => "stmt_top_legacy",
    }
}

/// The rule at place `i` of the listing order.
pub fn rule_at_exec(i: usize) -> (r: Rule)
    requires
        i < rule_count(),
    ensures
        r == rule_at_usize(i),
{
    if i == 0 {
        Rule::any
    } else 
    if i == 1 {
        Rule::soi
    } else 
    if i == 2 {
        Rule::eoi
    } else 
    if i == 3 {
        Rule::column_name_list
    } else 
    if i == 4 {
        Rule::clause_where
    } else 
    if i == 5 {
        Rule::pred_cmp
    } else 
    if i == 6 {
        Rule::kw_not
    } else 
    if i == 7 {
        Rule::kw_and
    } else 
    if i == 8 {
        Rule::kw_or
    } else 
    if i == 9 {
        Rule::kw_create_table
    } else 
    if i == 10 {
        Rule::kw_with_ties
    } else 
    if i == 11 {
        Rule::kw_percent
    } else 
    if i == 12 {
        Rule::kw_where
    } else 
    if i == 13 {
        Rule::kw_from
    } else 
    if i == 14 {
        Rule::kw_top
    } else 
    if i == 15 {
        Rule::kw_select
    } else 
    if i == 16 {
        Rule::op_cmp_gt_eq
    } else 
    if i == 17 {
        Rule::op_cmp_lt_eq
    } else 
    if i == 18 {
        Rule::op_cmp_gt
    } else 
    if i == 19 {
        Rule::op_cmp_lt
    } else 
    if i == 20 {
        Rule::op_cmp_neq_bang
    } else 
    if i == 21 {
        Rule::op_cmp_eq
    } else 
    if i == 22 {
        Rule::op_cmp
    } else 
    if i == 23 {
        Rule::tok_angle_close
    } else 
    if i == 24 {
        Rule::tok_angle_open
    } else 
    if i == 25 {
        Rule::tok_bang
    } else 
    if i == 26 {
        Rule::tok_eq
    } else 
    if i == 27 {
        Rule::tok_comma
    } else 
    if i == 28 {
        Rule::tok_paren_close
    } else 
    if i == 29 {
        Rule::tok_paren_open
    } else 
    if i == 30 {
        Rule::tok_slash_forward
    } else 
    if i == 31 {
        Rule::tok_star
    } else 
    if i == 32 {
        Rule::tok_caret
    } else 
    if i == 33 {
        Rule::tok_pipe
    } else 
    if i == 34 {
        Rule::tok_percent
    } else 
    if i == 35 {
        Rule::tok_ampersand
    } else 
    if i == 36 {
        Rule::tok_minus
    } else 
    if i == 37 {
        Rule::tok_plus
    } else 
    if i == 38 {
        Rule::identifier
    } else 
    if i == 39 {
        Rule::literal
    } else 
    if i == 40 {
        Rule::lit_integer
    } else 
    if i == 41 {
        Rule::lit_bool
    } else 
    if i == 42 {
        Rule::expr
    } else 
    if i == 43 {
        Rule::stmt_create_table
    } else 
    if i == 44 {
        Rule::stmt_select
    } else 
    if i == 45 {
        Rule::stmt_top
    } else {
        Rule::stmt_top_legacy
    }
}

/// The rules among the first `n` of the listing order that occur in `rules`.
pub open spec fn expected_upto(rules: Seq<Rule>, n: nat) -> Seq<Rule>
    decreases n,
{
    if n == 0 {
        Seq::empty()
    } else {
        let prev = expected_upto(rules, (n - 1) as nat);
        if rules.contains(rule_at(n - 1)) {
            prev.push(rule_at(n - 1))
        } else {
            prev
        }
    }
}

/// The rules that occur in `rules`, once each, in listing order.
pub open spec fn expected_rules(rules: Seq<Rule>) -> Seq<Rule> {
    expected_upto(rules, rule_count())
}

/// The names of `rs`, separated by `", "`.
pub open spec fn join_names(rs: Seq<Rule>) -> Seq<char>
    decreases rs.len(),
{
    if rs.len() == 0 {
        Seq::empty()
    } else if rs.len() == 1 {
        rule_name_spec(rs[0])
    } else {
        join_names(rs.drop_last()) + ", "@ + rule_name_spec(rs.last())
    }
}

/// The printed form of a failure record: `([r1, r2, ...], pos)`.
pub open spec fn expected_text(f: Fails) -> Seq<char> {
    "(["@ + join_names(expected_rules(f.rules)) + "], "@ + decimal(f.pos as nat) + ")"@
}

fn contains_rule(v: &Vec<Rule>, r: Rule) -> (b: bool)
    ensures
        b == v@.contains(r),
{
    let mut i: usize = 0;
    while i < v.len()
        invariant
            0 <= i <= v@.len(),
            forall|j: int| 0 <= j < i ==> v@[j] != r,
        decreases v@.len() - i,
    {
        if v[i] == r {
            return true;
        }
        i = i + 1;
    }
    false
}

/// The rules that occur in `rules`, once each, in listing order.
pub fn expected_list(rules: &Vec<Rule>) -> (r: Vec<Rule>)
    ensures
        r@ == expected_rules(rules@),
{
    let mut out: Vec<Rule> = Vec::new();
    let mut i: usize = 0;
    while i < 47
        invariant
            0 <= i <= 47,
            out@ == expected_upto(rules@, i as nat),
        decreases 47 - i,
    {
        let r = rule_at_exec(i);
        if contains_rule(rules, r) {
            out.push(r);
        }
        i = i + 1;
    }
    out
}

/// The printed form of a failure record.
pub fn expected_string(rules: &Vec<Rule>, pos: usize) -> (s: String)
    ensures
        s@ == expected_text(Fails { rules: rules@, pos: pos as int }),
{
    let list = expected_list(rules);
    let mut s = String::new();
    push_str(&mut s, "([");
    let ghost start = s@;
    let mut i: usize = 0;
    while i < list.len()
        invariant
            0 <= i <= list@.len(),
            s@ == start + join_names(list@.take(i as int)),
        decreases list@.len() - i,
    {
        proof {
            assert(list@.take(i + 1).drop_last() =~= list@.take(i as int));
        }
        if i > 0 {
            push_str(&mut s, ", ");
        } else {
            assert(list@.take(0) =~= Seq::<Rule>::empty());
            assert(s@ =~= start);
        }
        push_str(&mut s, rule_name(list[i]));
        i = i + 1;
        proof {
            assert(s@ =~= start + join_names(list@.take(i as int)));
        }
    }
    assert(list@.take(list@.len() as int) =~= list@);
    push_str(&mut s, "], ");
    push_decimal(&mut s, pos);
    push_str(&mut s, ")");
    assert(s@ =~= expected_text(Fails { rules: rules@, pos: pos as int }));
    s
}


/// The place of a rule in the listing order.
pub open spec fn rule_index(r: Rule) -> int {
    match r {
        Rule::any => 0,
        Rule::soi => 1,
        Rule::eoi => 2,
        Rule::column_name_list => 3,
        Rule::clause_where => 4,
        Rule::pred_cmp => 5,
        Rule::kw_not => 6,
        Rule::kw_and => 7,
        Rule::kw_or => 8,
        Rule::kw_create_table => 9,
        Rule::kw_with_ties => 10,
        Rule::kw_percent => 11,
        Rule::kw_where => 12,
        Rule::kw_from => 13,
        Rule::kw_top => 14,
        Rule::kw_select => 15,
        Rule::op_cmp_gt_eq => 16,
        Rule::op_cmp_lt_eq => 17,
        Rule::op_cmp_gt => 18,
        Rule::op_cmp_lt => 19,
        Rule::op_cmp_neq_bang => 20,
        Rule::op_cmp_eq => 21,
        Rule::op_cmp => 22,
        Rule::tok_angle_close => 23,
        Rule::tok_angle_open => 24,
        Rule::tok_bang => 25,
        Rule::tok_eq => 26,
        Rule::tok_comma => 27,
        Rule::tok_paren_close => 28,
        Rule::tok_paren_open => 29,
        Rule::tok_slash_forward => 30,
        Rule::tok_star => 31,
        Rule::tok_caret => 32,
        Rule::tok_pipe => 33,
        Rule::tok_percent => 34,
        Rule::tok_ampersand => 35,
        Rule::tok_minus => 36,
        Rule::tok_plus => 37,
        Rule::identifier => 38,
        Rule::literal => 39,
        Rule::lit_integer => 40,
        Rule::lit_bool => 41,
        Rule::expr => 42,
        Rule::stmt_create_table => 43,
        Rule::stmt_select => 44,
        Rule::stmt_top => 45,
        Rule::stmt_top_legacy => 46,
    }
}

/// `rule_index` and `rule_at` undo each other.
proof fn lemma_rule_index(r: Rule)
    ensures
        0 <= rule_index(r) < rule_count(),
        rule_at(rule_index(r)) == r,
{
}

proof fn lemma_expected_upto(rules: Seq<Rule>, n: nat)
    requires
        n <= rule_count(),
    ensures
        forall|r: Rule|
            #[trigger] expected_upto(rules, n).contains(r) <==> (rules.contains(r) && rule_index(r) < n),
        forall|i: int, j: int|
            0 <= i < j < expected_upto(rules, n).len() ==> rule_index(
                #[trigger] expected_upto(rules, n)[i],
            ) < rule_index(#[trigger] expected_upto(rules, n)[j]),
    decreases n,
{
    if n > 0 {
        lemma_expected_upto(rules, (n - 1) as nat);
        let prev = expected_upto(rules, (n - 1) as nat);
        let x = rule_at(n - 1);
        lemma_rule_index(x);
        assert(rule_index(x) == n - 1) by {
            assert(0 <= n - 1 < 47);
        }
        assert forall|r: Rule| #[trigger] expected_upto(rules, n).contains(r) <==> (rules.contains(
            r,
        ) && rule_index(r) < n) by {
            lemma_rule_index(r);
            if rules.contains(x) {
                assert(expected_upto(rules, n) == prev.push(x));
                if expected_upto(rules, n).contains(r) {
                    let k = choose|k: int| 0 <= k < prev.len() + 1 && prev.push(x)[k] == r;
                    if k < prev.len() {
                        assert(prev.contains(r));
                    }
                }
                if rules.contains(r) && rule_index(r) < n {
                    if rule_index(r) < n - 1 {
                        assert(prev.contains(r));
                        let k = choose|k: int| 0 <= k < prev.len() && prev[k] == r;
                        assert(prev.push(x)[k] == r);
                    } else {
                        assert(prev.push(x)[prev.len() as int] == r);
                    }
                }
            } else {
                if rules.contains(r) && rule_index(r) == n - 1 {
                    assert(r == x);
                }
            }
        }
        assert forall|i: int, j: int|
            0 <= i < j < expected_upto(rules, n).len() implies rule_index(
            #[trigger] expected_upto(rules, n)[i],
        ) < rule_index(#[trigger] expected_upto(rules, n)[j]) by {
            if rules.contains(x) && j == prev.len() {
                assert(prev.contains(prev[i]));
                lemma_rule_index(prev[i]);
            }
        }
    }
}

/// The printed record lists exactly the rules that failed, each once, in
/// the order of the `Rule` enum.
pub proof fn lemma_expected_rules_once(rules: Seq<Rule>)
    ensures
        forall|r: Rule| #[trigger] expected_rules(rules).contains(r) <==> rules.contains(r),
        expected_rules(rules).no_duplicates(),
        forall|i: int, j: int|
            0 <= i < j < expected_rules(rules).len() ==> rule_index(
                #[trigger] expected_rules(rules)[i],
            ) < rule_index(#[trigger] expected_rules(rules)[j]),
{
    lemma_expected_upto(rules, rule_count());
    assert forall|r: Rule| #[trigger] expected_rules(rules).contains(r) <==> rules.contains(r) by {
        lemma_rule_index(r);
    }
}

} // verus!
