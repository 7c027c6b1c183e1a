//! The parser: matches rules of the grammar against an input, remembers the
//! rules that matched, and turns them into trees.
use vstd::prelude::*;
use crate::ast::{
    Node, SelectStatement, TopStatement, ColumnNameList, CreateTableStatement, Identifier, Expression,
    Literal,
};
use crate::grammar::{
    Rule, Fails, no_fails, m_tsql, t_tsql, m_stmt_select, t_stmt_select, m_stmt_top, t_stmt_top,
    m_stmt_top_legacy, t_stmt_top_legacy, m_column_name_list, t_column_name_list,
    m_stmt_create_table, t_stmt_create_table, m_top_level_repl, t_top_level_repl, m_expr,
    m_literal, m_identifier, Kw, single_keyword, token_byte, m_tok, t_tok, m_kw, t_kw, t_kw2,
    m_lit_integer, t_lit_integer, m_lit_bool, t_lit_bool, m_clause_where, t_clause_where,
    m_comparison, t_comparison, m_comparison_op, t_comparison_op, m_with_ties, m_create_table,
    t_identifier, t_expr, t_literal,
};
use crate::recognize::{self, Tracker};
use crate::tree::{
    select_view, select_buildable, top_view, top_int_start, int_fits, column_list_view,
    create_table_view, pos_at, build_select, build_top, build_column_list, build_create_table,
    ident_view, int_expr_view, build_identifier, build_int_expr, literal_view, bool_parses,
    build_literal,
};
use crate::expected::{expected_rules, expected_text, expected_list, expected_string};
use vstd::string::StringSliceAdditionalSpecFns;

verus! {

/// The text to parse, held as its UTF-8 bytes.
pub struct StringInput {
    bytes: Vec<u8>,
}

impl View for StringInput {
    type V = Seq<u8>;

    closed spec fn view(&self) -> Seq<u8> {
        self.bytes@
    }
}

impl StringInput {
    /// Creates a new `StringInput` from a `&str`.
    pub fn new(string: &str) -> (r: StringInput)
        ensures
            r@ == string.spec_bytes(),
    {
        let b = string.as_bytes();
        StringInput { bytes: vstd::slice::slice_to_vec(b) }
    }

    /// The length of the input in bytes.
    pub fn len(&self) -> (r: usize)
        ensures
            r == self@.len(),
    {
        self.bytes.len()
    }
}

/// The state of a parser.
pub struct RdpView {
    /// The input bytes.
    pub input: Seq<u8>,
    /// Where the next rule is tried.
    pub pos: int,
    /// The rules that failed at the furthest position reached.
    pub fails: Fails,
    /// The rules that matched, with the positions where their matches start.
    pub matched: Seq<(Rule, usize)>,
    /// How many of the matched rules were already turned into trees.
    pub index: int,
}

/// Rule `r` matches at `p` of `s` (for the rules that are remembered).
pub open spec fn rule_matches(s: Seq<u8>, r: Rule, p: int) -> bool {
    match r {
        Rule::stmt_select => m_stmt_select(s, p) is Some,
        Rule::stmt_top => m_stmt_top(s, p) is Some,
        Rule::stmt_top_legacy => m_stmt_top_legacy(s, p) is Some,
        Rule::column_name_list => m_column_name_list(s, p) is Some,
        Rule::stmt_create_table => m_stmt_create_table(s, p) is Some,
        Rule::expr => m_expr(s, p) is Some,
        Rule::literal => m_literal(s, p) is Some,
        Rule::identifier => m_identifier(s, p) is Some,
        Rule::lit_integer => m_lit_integer(s, p) is Some,
        Rule::lit_bool => m_lit_bool(s, p) is Some,
        Rule::clause_where => m_clause_where(s, p) is Some,
        Rule::pred_cmp => m_comparison(s, p) is Some,
        Rule::op_cmp => m_comparison_op(s, p) is Some,
        Rule::kw_with_ties => m_with_ties(s, p) is Some,
        Rule::kw_create_table => m_create_table(s, p) is Some,
        _ => match single_keyword(r) {
            Some(k) => m_kw(s, p, k) is Some,
            None => match token_byte(r) {
                Some(b) => m_tok(s, p, b) is Some,
                None => false,
            },
        },
    }
}

/// A parser went from `before` to `after` by trying the single-byte token
/// rule `r` (byte `b`) at its position; `res` says whether it matched.
pub open spec fn token_tried(before: RdpView, after: RdpView, r: Rule, b: u8, res: bool) -> bool {
    &&& res == (m_tok(before.input, before.pos, b) is Some)
    &&& after == before.after_try(
        r,
        m_tok(before.input, before.pos, b),
        t_tok(before.input, before.pos, b, r, before.fails),
    )
}

/// A parser went from `before` to `after` by trying the keyword rule `r`
/// (keyword `k`) at its position; `res` says whether it matched.
pub open spec fn keyword_tried(before: RdpView, after: RdpView, r: Rule, k: Kw, res: bool) -> bool {
    &&& res == (m_kw(before.input, before.pos, k) is Some)
    &&& after == before.after_try(
        r,
        m_kw(before.input, before.pos, k),
        t_kw(before.input, before.pos, k, r, before.fails),
    )
}

impl RdpView {
    /// The next matched rule that is still to be turned into a tree.
    pub open spec fn next(self) -> Option<(Rule, usize)> {
        if 0 <= self.index < self.matched.len() {
            Some(self.matched[self.index])
        } else {
            None
        }
    }

    /// The state after rule `r` was tried, ending at `end` (`None`: no match)
    /// with failure record `fails`.
    pub open spec fn after_try(self, r: Rule, end: Option<int>, fails: Fails) -> RdpView {
        match end {
            Some(e) => RdpView {
                pos: e,
                fails: fails,
                matched: self.matched.push((r, self.pos as usize)),
                ..self
            },
            None => RdpView { fails: fails, ..self },
        }
    }

    /// The state after the next matched rule was turned into a tree.
    pub open spec fn advanced(self) -> RdpView {
        RdpView { index: self.index + 1, ..self }
    }
}

/// A recursive-descent parser for the T-SQL grammar.
pub struct Rdp {
    input: StringInput,
    pos: usize,
    tracker: Tracker,
    matched: Vec<(Rule, usize)>,
    index: usize,
}

impl View for Rdp {
    type V = RdpView;

    closed spec fn view(&self) -> RdpView {
        RdpView {
            input: self.input@,
            pos: self.pos as int,
            fails: self.tracker@,
            matched: self.matched@,
            index: self.index as int,
        }
    }
}

impl Rdp {
    /// The parser's state is consistent: the position lies within the input
    /// and every remembered rule matches where it is said to.
    pub closed spec fn wf(&self) -> bool {
        &&& self.pos <= self.input@.len()
        &&& self.index <= self.matched@.len()
        &&& forall|i: int|
            0 <= i < self.matched@.len() ==> rule_matches(
                self.input@,
                #[trigger] self.matched@[i].0,
                self.matched@[i].1 as int,
            )
    }

    /// A parser at the start of `input`.
    pub fn new(input: StringInput) -> (r: Rdp)
        ensures
            r.wf(),
            r@ == (RdpView {
                input: input@,
                pos: 0,
                fails: no_fails(),
                matched: Seq::empty(),
                index: 0,
            }),
    {
        Rdp { input, pos: 0, tracker: Tracker::new(), matched: Vec::new(), index: 0 }
    }

    /// Remembers that rule `r` matched from the current position to `e`.
    fn record(&mut self, r: Rule, e: usize)
        requires
            old(self).wf(),
            old(self).pos <= e <= old(self).input@.len(),
            rule_matches(old(self).input@, r, old(self).pos as int),
        ensures
            final(self).wf(),
            final(self)@ == (RdpView {
                pos: e as int,
                matched: old(self)@.matched.push((r, old(self).pos)),
                ..old(self)@
            }),
    {
        let p = self.pos;
        self.matched.push((r, p));
        self.pos = e;
        assert forall|i: int| 0 <= i < self.matched@.len() implies rule_matches(
            self.input@,
            #[trigger] self.matched@[i].0,
            self.matched@[i].1 as int,
        ) by {
            if i < old(self).matched@.len() {
                assert(self.matched@[i] == old(self).matched@[i]);
            }
        }
    }

    /// Tries `tsql` (a SELECT statement followed by nothing but whitespace)
    /// at the current position; on a match, remembers a `stmt_select`.
    pub fn tsql(&mut self) -> (r: bool)
        requires
            old(self).wf(),
        ensures
            final(self).wf(),
            r == (m_tsql(old(self)@.input, old(self)@.pos) is Some),
            final(self)@ == old(self)@.after_try(
                Rule::stmt_select,
                m_tsql(old(self)@.input, old(self)@.pos),
                t_tsql(old(self)@.input, old(self)@.pos, old(self)@.fails),
            ),
    {
        let p = self.pos;
        match recognize::tsql(&self.input.bytes, p, &mut self.tracker) {
            Some(e) => {
                self.record(Rule::stmt_select, e);
                true
            },
            None => false,
        }
    }

    /// Tries `stmt_select` at the current position.
    pub fn stmt_select(&mut self) -> (r: bool)
        requires
            old(self).wf(),
        ensures
            final(self).wf(),
            r == (m_stmt_select(old(self)@.input, old(self)@.pos) is Some),
            final(self)@ == old(self)@.after_try(
                Rule::stmt_select,
                m_stmt_select(old(self)@.input, old(self)@.pos),
                t_stmt_select(old(self)@.input, old(self)@.pos, old(self)@.fails),
            ),
    {
        let p = self.pos;
        match recognize::stmt_select(&self.input.bytes, p, &mut self.tracker) {
            Some(e) => {
                self.record(Rule::stmt_select, e);
                true
            },
            None => false,
        }
    }

    /// Tries `stmt_top` (`TOP (n)`) at the current position.
    pub fn stmt_top(&mut self) -> (r: bool)
        requires
            old(self).wf(),
        ensures
            final(self).wf(),
            r == (m_stmt_top(old(self)@.input, old(self)@.pos) is Some),
            final(self)@ == old(self)@.after_try(
                Rule::stmt_top,
                m_stmt_top(old(self)@.input, old(self)@.pos),
                t_stmt_top(old(self)@.input, old(self)@.pos, old(self)@.fails),
            ),
    {
        let p = self.pos;
        match recognize::stmt_top(&self.input.bytes, p, &mut self.tracker) {
            Some(e) => {
                self.record(Rule::stmt_top, e);
                true
            },
            None => false,
        }
    }

    /// Tries `stmt_top_legacy` (`TOP n`) at the current position.
    pub fn stmt_top_legacy(&mut self) -> (r: bool)
        requires
            old(self).wf(),
        ensures
            final(self).wf(),
            r == (m_stmt_top_legacy(old(self)@.input, old(self)@.pos) is Some),
            final(self)@ == old(self)@.after_try(
                Rule::stmt_top_legacy,
                m_stmt_top_legacy(old(self)@.input, old(self)@.pos),
                t_stmt_top_legacy(old(self)@.input, old(self)@.pos, old(self)@.fails),
            ),
    {
        let p = self.pos;
        match recognize::stmt_top_legacy(&self.input.bytes, p, &mut self.tracker) {
            Some(e) => {
                self.record(Rule::stmt_top_legacy, e);
                true
            },
            None => false,
        }
    }

    /// Tries `column_name_list` at the current position.
    pub fn column_name_list(&mut self) -> (r: bool)
        requires
            old(self).wf(),
        ensures
            final(self).wf(),
            r == (m_column_name_list(old(self)@.input, old(self)@.pos) is Some),
            final(self)@ == old(self)@.after_try(
                Rule::column_name_list,
                m_column_name_list(old(self)@.input, old(self)@.pos),
                t_column_name_list(old(self)@.input, old(self)@.pos, old(self)@.fails),
            ),
    {
        let p = self.pos;
        match recognize::column_name_list(&self.input.bytes, p, &mut self.tracker) {
            Some(e) => {
                self.record(Rule::column_name_list, e);
                true
            },
            None => false,
        }
    }

    /// Tries `stmt_create_table` at the current position.
    pub fn stmt_create_table(&mut self) -> (r: bool)
        requires
            old(self).wf(),
        ensures
            final(self).wf(),
            r == (m_stmt_create_table(old(self)@.input, old(self)@.pos) is Some),
            final(self)@ == old(self)@.after_try(
                Rule::stmt_create_table,
                m_stmt_create_table(old(self)@.input, old(self)@.pos),
                t_stmt_create_table(old(self)@.input, old(self)@.pos, old(self)@.fails),
            ),
    {
        let p = self.pos;
        match recognize::stmt_create_table(&self.input.bytes, p, &mut self.tracker) {
            Some(e) => {
                self.record(Rule::stmt_create_table, e);
                true
            },
            None => false,
        }
    }

    /// Tries `top_level_repl` at the current position; on a match, remembers
    /// the alternative that matched.
    pub fn top_level_repl(&mut self) -> (r: bool)
        requires
            old(self).wf(),
        ensures
            final(self).wf(),
            r == (m_top_level_repl(old(self)@.input, old(self)@.pos) is Some),
            final(self)@ == (match m_top_level_repl(old(self)@.input, old(self)@.pos) {
                Some((rule, e)) => old(self)@.after_try(
                    rule,
                    Some(e),
                    t_top_level_repl(old(self)@.input, old(self)@.pos, old(self)@.fails),
                ),
                None => old(self)@.after_try(
                    Rule::any,
                    None,
                    t_top_level_repl(old(self)@.input, old(self)@.pos, old(self)@.fails),
                ),
            }),
    {
        let p = self.pos;
        match recognize::top_level_repl(&self.input.bytes, p, &mut self.tracker) {
            Some((rule, e)) => {
                self.record(rule, e);
                true
            },
            None => false,
        }
    }

    /// The rules that failed at the furthest position reached, once each and
    /// in the order of `Rule`, with that position.
    pub fn expected(&self) -> (r: (Vec<Rule>, usize))
        ensures
            r.0@ == expected_rules(self@.fails.rules),
            r.1 == self@.fails.pos,
    {
        (expected_list(&self.tracker.rules), self.tracker.pos)
    }

    /// The printed form of `expected()`: `([rule, ...], position)`.
    pub fn expected_text(&self) -> (r: String)
        ensures
            r@ == expected_text(self@.fails),
    {
        expected_string(&self.tracker.rules, self.tracker.pos)
    }

    /// The first rule that matched, if any.
    pub fn first_rule(&self) -> (r: Option<Rule>)
        ensures
            r == (if self@.matched.len() > 0 {
                Some(self@.matched[0].0)
            } else {
                None
            }),
    {
        if self.matched.len() > 0 {
            Some(self.matched[0].0)
        } else {
            None
        }
    }

    /// Turns the next matched rule, a `stmt_select`, into its tree.
    pub fn parse_stmt_select(&mut self) -> (r: Node<SelectStatement>)
        requires
            old(self).wf(),
            old(self)@.next() matches Some((rule, start)) && rule == Rule::stmt_select
                && select_buildable(old(self)@.input, start as int),
        ensures
            final(self).wf(),
            final(self)@ == old(self)@.advanced(),
            r@ == select_view(old(self)@.input, (old(self)@.next()->0).1 as int),
    {
        let count = self.matched.len();
        assert(self.index < count);
        let (_, start) = self.matched[self.index];
        assert(rule_matches(self.input@, self.matched@[self.index as int].0, start as int));
        let r = build_select(&self.input.bytes, start);
        self.index = self.index + 1;
        r
    }

    /// Turns the next matched rule into a TOP statement when it is a
    /// `stmt_top` or a `stmt_top_legacy`; otherwise gives `None` and leaves
    /// the parser as it is.
    pub fn parse_stmt_top(&mut self) -> (r: Option<Node<TopStatement>>)
        requires
            old(self).wf(),
            match old(self)@.next() {
                Some((rule, start)) => (rule == Rule::stmt_top || rule == Rule::stmt_top_legacy)
                    ==> int_fits(
                    old(self)@.input,
                    top_int_start(old(self)@.input, start as int, rule == Rule::stmt_top_legacy),
                ),
                None => true,
            },
        ensures
            final(self).wf(),
            match old(self)@.next() {
                Some((rule, start)) => if rule == Rule::stmt_top || rule == Rule::stmt_top_legacy {
                    &&& final(self)@ == old(self)@.advanced()
                    &&& r matches Some(n) && n@ == top_view(
                        old(self)@.input,
                        start as int,
                        rule == Rule::stmt_top_legacy,
                    )
                } else {
                    final(self)@ == old(self)@ && r is None
                },
                None => final(self)@ == old(self)@ && r is None,
            },
    {
        if self.index >= self.matched.len() {
            return None;
        }
        let (rule, start) = self.matched[self.index];
        assert(rule_matches(self.input@, self.matched@[self.index as int].0, start as int));
        if rule == Rule::stmt_top || rule == Rule::stmt_top_legacy {
            let legacy = rule == Rule::stmt_top_legacy;
            let r = build_top(&self.input.bytes, start, legacy);
            self.index = self.index + 1;
            Some(r)
        } else {
            None
        }
    }

    /// Turns the next matched rule, a `column_name_list`, into its tree.
    pub fn parse_column_name_list(&mut self) -> (r: Node<ColumnNameList>)
        requires
            old(self).wf(),
            old(self)@.next() matches Some((rule, _)) && rule == Rule::column_name_list,
        ensures
            final(self).wf(),
            final(self)@ == old(self)@.advanced(),
            r@ == column_list_view(old(self)@.input, (old(self)@.next()->0).1 as int),
    {
        let count = self.matched.len();
        assert(self.index < count);
        let (_, start) = self.matched[self.index];
        assert(rule_matches(self.input@, self.matched@[self.index as int].0, start as int));
        let r = build_column_list(&self.input.bytes, start);
        self.index = self.index + 1;
        r
    }

    /// Turns the next matched rule, a `stmt_create_table`, into its tree.
    pub fn parse_stmt_create_table(&mut self) -> (r: Node<CreateTableStatement>)
        requires
            old(self).wf(),
            old(self)@.next() matches Some((rule, _)) && rule == Rule::stmt_create_table,
        ensures
            final(self).wf(),
            final(self)@ == old(self)@.advanced(),
            r@.pos == pos_at(old(self)@.input, (old(self)@.next()->0).1 as int),
            r@.tnode == create_table_view(old(self)@.input, (old(self)@.next()->0).1 as int),
    {
        let count = self.matched.len();
        assert(self.index < count);
        let (_, start) = self.matched[self.index];
        assert(rule_matches(self.input@, self.matched@[self.index as int].0, start as int));
        let r = build_create_table(&self.input.bytes, start);
        self.index = self.index + 1;
        r
    }
    fn try_token(&mut self, r: Rule, b: u8) -> (res: bool)
        requires
            old(self).wf(),
            token_byte(r) == Some(b),
        ensures
            final(self).wf(),
            token_tried(old(self)@, final(self)@, r, b, res),
    {
        let p = self.pos;
        match recognize::tok(&self.input.bytes, p, b, r, &mut self.tracker) {
            Some(e) => {
                self.record(r, e);
                true
            },
            None => false,
        }
    }

    fn try_keyword(&mut self, r: Rule, k: Kw) -> (res: bool)
        requires
            old(self).wf(),
            single_keyword(r) == Some(k),
        ensures
            final(self).wf(),
            keyword_tried(old(self)@, final(self)@, r, k, res),
    {
        let p = self.pos;
        match recognize::kw(&self.input.bytes, p, k, r, &mut self.tracker) {
            Some(e) => {
                self.record(r, e);
                true
            },
            None => false,
        }
    }

    /// Tries `tok_plus` (`+`) at the current position.
    pub fn tok_plus(&mut self) -> (r: bool)
        requires
            old(self).wf(),
        ensures
            final(self).wf(),
            token_tried(old(self)@, final(self)@, Rule::tok_plus, 43u8, r),
    {
        self.try_token(Rule::tok_plus, 43u8)
    }

    /// Tries `tok_minus` (`-`) at the current position.
    pub fn tok_minus(&mut self) -> (r: bool)
        requires
            old(self).wf(),
        ensures
            final(self).wf(),
            token_tried(old(self)@, final(self)@, Rule::tok_minus, 45u8, r),
    {
        self.try_token(Rule::tok_minus, 45u8)
    }

    /// Tries `tok_ampersand` (`&`) at the current position.
    pub fn tok_ampersand(&mut self) -> (r: bool)
        requires
            old(self).wf(),
        ensures
            final(self).wf(),
            token_tried(old(self)@, final(self)@, Rule::tok_ampersand, 38u8, r),
    {
        self.try_token(Rule::tok_ampersand, 38u8)
    }

    /// Tries `tok_percent` (`%`) at the current position.
    pub fn tok_percent(&mut self) -> (r: bool)
        requires
            old(self).wf(),
        ensures
            final(self).wf(),
            token_tried(old(self)@, final(self)@, Rule::tok_percent, 37u8, r),
    {
        self.try_token(Rule::tok_percent, 37u8)
    }

    /// Tries `tok_pipe` (`|`) at the current position.
    pub fn tok_pipe(&mut self) -> (r: bool)
        requires
            old(self).wf(),
        ensures
            final(self).wf(),
            token_tried(old(self)@, final(self)@, Rule::tok_pipe, 124u8, r),
    {
        self.try_token(Rule::tok_pipe, 124u8)
    }

    /// Tries `tok_caret` (`^`) at the current position.
    pub fn tok_caret(&mut self) -> (r: bool)
        requires
            old(self).wf(),
        ensures
            final(self).wf(),
            token_tried(old(self)@, final(self)@, Rule::tok_caret, 94u8, r),
    {
        self.try_token(Rule::tok_caret, 94u8)
    }

    /// Tries `tok_star` (`*`) at the current position.
    pub fn tok_star(&mut self) -> (r: bool)
        requires
            old(self).wf(),
        ensures
            final(self).wf(),
            token_tried(old(self)@, final(self)@, Rule::tok_star, 42u8, r),
    {
        self.try_token(Rule::tok_star, 42u8)
    }

    /// Tries `tok_slash_forward` (`/`) at the current position.
    pub fn tok_slash_forward(&mut self) -> (r: bool)
        requires
            old(self).wf(),
        ensures
            final(self).wf(),
            token_tried(old(self)@, final(self)@, Rule::tok_slash_forward, 47u8, r),
    {
        self.try_token(Rule::tok_slash_forward, 47u8)
    }

    /// Tries `tok_paren_open` (`(`) at the current position.
    pub fn tok_paren_open(&mut self) -> (r: bool)
        requires
            old(self).wf(),
        ensures
            final(self).wf(),
            token_tried(old(self)@, final(self)@, Rule::tok_paren_open, 40u8, r),
    {
        self.try_token(Rule::tok_paren_open, 40u8)
    }

    /// Tries `tok_paren_close` (`)`) at the current position.
    pub fn tok_paren_close(&mut self) -> (r: bool)
        requires
            old(self).wf(),
        ensures
            final(self).wf(),
            token_tried(old(self)@, final(self)@, Rule::tok_paren_close, 41u8, r),
    {
        self.try_token(Rule::tok_paren_close, 41u8)
    }

    /// Tries `tok_comma` (`,`) at the current position.
    pub fn tok_comma(&mut self) -> (r: bool)
        requires
            old(self).wf(),
        ensures
            final(self).wf(),
            token_tried(old(self)@, final(self)@, Rule::tok_comma, 44u8, r),
    {
        self.try_token(Rule::tok_comma, 44u8)
    }

    /// Tries `tok_eq` (`=`) at the current position.
    pub fn tok_eq(&mut self) -> (r: bool)
        requires
            old(self).wf(),
        ensures
            final(self).wf(),
            token_tried(old(self)@, final(self)@, Rule::tok_eq, 61u8, r),
    {
        self.try_token(Rule::tok_eq, 61u8)
    }

    /// Tries `tok_bang` (`!`) at the current position.
    pub fn tok_bang(&mut self) -> (r: bool)
        requires
            old(self).wf(),
        ensures
            final(self).wf(),
            token_tried(old(self)@, final(self)@, Rule::tok_bang, 33u8, r),
    {
        self.try_token(Rule::tok_bang, 33u8)
    }

    /// Tries `tok_angle_open` (`<`) at the current position.
    pub fn tok_angle_open(&mut self) -> (r: bool)
        requires
            old(self).wf(),
        ensures
            final(self).wf(),
            token_tried(old(self)@, final(self)@, Rule::tok_angle_open, 60u8, r),
    {
        self.try_token(Rule::tok_angle_open, 60u8)
    }

    /// Tries `tok_angle_close` (`>`) at the current position.
    pub fn tok_angle_close(&mut self) -> (r: bool)
        requires
            old(self).wf(),
        ensures
            final(self).wf(),
            token_tried(old(self)@, final(self)@, Rule::tok_angle_close, 62u8, r),
    {
        self.try_token(Rule::tok_angle_close, 62u8)
    }

    /// Tries `kw_select` (`SELECT`, in any case) at the current position.
    pub fn kw_select(&mut self) -> (r: bool)
        requires
            old(self).wf(),
        ensures
            final(self).wf(),
            keyword_tried(old(self)@, final(self)@, Rule::kw_select, Kw::Select, r),
    {
        self.try_keyword(Rule::kw_select, Kw::Select)
    }

    /// Tries `kw_top` (`TOP`, in any case) at the current position.
    pub fn kw_top(&mut self) -> (r: bool)
        requires
            old(self).wf(),
        ensures
            final(self).wf(),
            keyword_tried(old(self)@, final(self)@, Rule::kw_top, Kw::Top, r),
    {
        self.try_keyword(Rule::kw_top, Kw::Top)
    }

    /// Tries `kw_from` (`FROM`, in any case) at the current position.
    pub fn kw_from(&mut self) -> (r: bool)
        requires
            old(self).wf(),
        ensures
            final(self).wf(),
            keyword_tried(old(self)@, final(self)@, Rule::kw_from, Kw::From, r),
    {
        self.try_keyword(Rule::kw_from, Kw::From)
    }

    /// Tries `kw_where` (`WHERE`, in any case) at the current position.
    pub fn kw_where(&mut self) -> (r: bool)
        requires
            old(self).wf(),
        ensures
            final(self).wf(),
            keyword_tried(old(self)@, final(self)@, Rule::kw_where, Kw::Where, r),
    {
        self.try_keyword(Rule::kw_where, Kw::Where)
    }

    /// Tries `kw_percent` (`PERCENT`, in any case) at the current position.
    pub fn kw_percent(&mut self) -> (r: bool)
        requires
            old(self).wf(),
        ensures
            final(self).wf(),
            keyword_tried(old(self)@, final(self)@, Rule::kw_percent, Kw::Percent, r),
    {
        self.try_keyword(Rule::kw_percent, Kw::Percent)
    }

    /// Tries `kw_or` (`OR`, in any case) at the current position.
    pub fn kw_or(&mut self) -> (r: bool)
        requires
            old(self).wf(),
        ensures
            final(self).wf(),
            keyword_tried(old(self)@, final(self)@, Rule::kw_or, Kw::Or, r),
    {
        self.try_keyword(Rule::kw_or, Kw::Or)
    }

    /// Tries `kw_and` (`AND`, in any case) at the current position.
    pub fn kw_and(&mut self) -> (r: bool)
        requires
            old(self).wf(),
        ensures
            final(self).wf(),
            keyword_tried(old(self)@, final(self)@, Rule::kw_and, Kw::And, r),
    {
        self.try_keyword(Rule::kw_and, Kw::And)
    }

    /// Tries `kw_not` (`NOT`, in any case) at the current position.
    pub fn kw_not(&mut self) -> (r: bool)
        requires
            old(self).wf(),
        ensures
            final(self).wf(),
            keyword_tried(old(self)@, final(self)@, Rule::kw_not, Kw::Not, r),
    {
        self.try_keyword(Rule::kw_not, Kw::Not)
    }

    /// Tries `kw_with_ties` (`WITH TIES`) at the current position.
    pub fn kw_with_ties(&mut self) -> (r: bool)
        requires
            old(self).wf(),
        ensures
            final(self).wf(),
            r == (m_with_ties(old(self)@.input, old(self)@.pos) is Some),
            final(self)@ == old(self)@.after_try(Rule::kw_with_ties, m_with_ties(old(self)@.input, old(self)@.pos), t_kw2(old(self)@.input, old(self)@.pos, Kw::With, Kw::Ties, Rule::kw_with_ties, old(self)@.fails)),
    {
        let p = self.pos;
        match recognize::kw2(&self.input.bytes, p, Kw::With, Kw::Ties, Rule::kw_with_ties, &mut self.tracker) {
            Some(e) => {
                self.record(Rule::kw_with_ties, e);
                true
            },
            None => false,
        }
    }

    /// Tries `kw_create_table` (`CREATE TABLE`) at the current position.
    pub fn kw_create_table(&mut self) -> (r: bool)
        requires
            old(self).wf(),
        ensures
            final(self).wf(),
            r == (m_create_table(old(self)@.input, old(self)@.pos) is Some),
            final(self)@ == old(self)@.after_try(Rule::kw_create_table, m_create_table(old(self)@.input, old(self)@.pos), t_kw2(old(self)@.input, old(self)@.pos, Kw::Create, Kw::Table, Rule::kw_create_table, old(self)@.fails)),
    {
        let p = self.pos;
        match recognize::kw2(&self.input.bytes, p, Kw::Create, Kw::Table, Rule::kw_create_table, &mut self.tracker) {
            Some(e) => {
                self.record(Rule::kw_create_table, e);
                true
            },
            None => false,
        }
    }

    /// Tries `lit_integer` (a run of digits) at the current position.
    pub fn lit_integer(&mut self) -> (r: bool)
        requires
            old(self).wf(),
        ensures
            final(self).wf(),
            r == (m_lit_integer(old(self)@.input, old(self)@.pos) is Some),
            final(self)@ == old(self)@.after_try(Rule::lit_integer, m_lit_integer(old(self)@.input, old(self)@.pos), t_lit_integer(old(self)@.input, old(self)@.pos, old(self)@.fails)),
    {
        let p = self.pos;
        match recognize::lit_integer(&self.input.bytes, p, &mut self.tracker) {
            Some(e) => {
                self.record(Rule::lit_integer, e);
                true
            },
            None => false,
        }
    }

    /// Tries `lit_bool` (`TRUE` or `FALSE`, in any case) at the current position.
    pub fn lit_bool(&mut self) -> (r: bool)
        requires
            old(self).wf(),
        ensures
            final(self).wf(),
            r == (m_lit_bool(old(self)@.input, old(self)@.pos) is Some),
            final(self)@ == old(self)@.after_try(Rule::lit_bool, m_lit_bool(old(self)@.input, old(self)@.pos), t_lit_bool(old(self)@.input, old(self)@.pos, old(self)@.fails)),
    {
        let p = self.pos;
        match recognize::lit_bool(&self.input.bytes, p, &mut self.tracker) {
            Some(e) => {
                self.record(Rule::lit_bool, e);
                true
            },
            None => false,
        }
    }

    /// Tries `literal` at the current position.
    pub fn literal(&mut self) -> (r: bool)
        requires
            old(self).wf(),
        ensures
            final(self).wf(),
            r == (m_literal(old(self)@.input, old(self)@.pos) is Some),
            final(self)@ == old(self)@.after_try(Rule::literal, m_literal(old(self)@.input, old(self)@.pos), t_literal(old(self)@.input, old(self)@.pos, old(self)@.fails)),
    {
        let p = self.pos;
        match recognize::literal(&self.input.bytes, p, &mut self.tracker) {
            Some(e) => {
                self.record(Rule::literal, e);
                true
            },
            None => false,
        }
    }

    /// Tries `identifier` at the current position.
    pub fn identifier(&mut self) -> (r: bool)
        requires
            old(self).wf(),
        ensures
            final(self).wf(),
            r == (m_identifier(old(self)@.input, old(self)@.pos) is Some),
            final(self)@ == old(self)@.after_try(Rule::identifier, m_identifier(old(self)@.input, old(self)@.pos), t_identifier(old(self)@.input, old(self)@.pos, old(self)@.fails)),
    {
        let p = self.pos;
        match recognize::identifier(&self.input.bytes, p, &mut self.tracker) {
            Some(e) => {
                self.record(Rule::identifier, e);
                true
            },
            None => false,
        }
    }

    /// Tries `expr` at the current position.
    pub fn expr(&mut self) -> (r: bool)
        requires
            old(self).wf(),
        ensures
            final(self).wf(),
            r == (m_expr(old(self)@.input, old(self)@.pos) is Some),
            final(self)@ == old(self)@.after_try(Rule::expr, m_expr(old(self)@.input, old(self)@.pos), t_expr(old(self)@.input, old(self)@.pos, old(self)@.fails)),
    {
        let p = self.pos;
        match recognize::expr(&self.input.bytes, p, &mut self.tracker) {
            Some(e) => {
                self.record(Rule::expr, e);
                true
            },
            None => false,
        }
    }

    /// Tries `clause_where` (`WHERE` and a comparison) at the current position.
    pub fn clause_where(&mut self) -> (r: bool)
        requires
            old(self).wf(),
        ensures
            final(self).wf(),
            r == (m_clause_where(old(self)@.input, old(self)@.pos) is Some),
            final(self)@ == old(self)@.after_try(Rule::clause_where, m_clause_where(old(self)@.input, old(self)@.pos), t_clause_where(old(self)@.input, old(self)@.pos, old(self)@.fails)),
    {
        let p = self.pos;
        match recognize::clause_where(&self.input.bytes, p, &mut self.tracker) {
            Some(e) => {
                self.record(Rule::clause_where, e);
                true
            },
            None => false,
        }
    }

    /// Tries `pred_cmp` (two integers and a comparison operator) at the current position.
    pub fn pred_cmp(&mut self) -> (r: bool)
        requires
            old(self).wf(),
        ensures
            final(self).wf(),
            r == (m_comparison(old(self)@.input, old(self)@.pos) is Some),
            final(self)@ == old(self)@.after_try(Rule::pred_cmp, m_comparison(old(self)@.input, old(self)@.pos), t_comparison(old(self)@.input, old(self)@.pos, old(self)@.fails)),
    {
        let p = self.pos;
        match recognize::comparison(&self.input.bytes, p, &mut self.tracker) {
            Some(e) => {
                self.record(Rule::pred_cmp, e);
                true
            },
            None => false,
        }
    }

    /// Tries `op_cmp` (a comparison operator) at the current position.
    pub fn op_cmp(&mut self) -> (r: bool)
        requires
            old(self).wf(),
        ensures
            final(self).wf(),
            r == (m_comparison_op(old(self)@.input, old(self)@.pos) is Some),
            final(self)@ == old(self)@.after_try(Rule::op_cmp, m_comparison_op(old(self)@.input, old(self)@.pos), t_comparison_op(old(self)@.input, old(self)@.pos, old(self)@.fails)),
    {
        let p = self.pos;
        match recognize::comparison_op(&self.input.bytes, p, &mut self.tracker) {
            Some(e) => {
                self.record(Rule::op_cmp, e);
                true
            },
            None => false,
        }
    }

    /// The rules that matched so far (at the top, not those inside them),
    /// each with the position where its match starts, in order.
    pub fn queue(&self) -> (r: Vec<(Rule, usize)>)
        ensures
            r@ == self@.matched,
    {
        let mut out: Vec<(Rule, usize)> = Vec::new();
        let mut i: usize = 0;
        while i < self.matched.len()
            invariant
                0 <= i <= self.matched@.len(),
                out@ == self.matched@.take(i as int),
            decreases self.matched@.len() - i,
        {
            let (rule, start) = self.matched[i];
            out.push((rule, start));
            assert(out@ =~= self.matched@.take(i + 1));
            i = i + 1;
        }
        assert(self.matched@.take(self.matched@.len() as int) =~= self.matched@);
        out
    }

    /// Turns the next matched rule, an `identifier`, into its tree.
    pub fn parse_identifier(&mut self) -> (r: Node<Identifier>)
        requires
            old(self).wf(),
            old(self)@.next() matches Some((rule, _)) && rule == Rule::identifier,
        ensures
            final(self).wf(),
            final(self)@ == old(self)@.advanced(),
            r@ == ident_view(old(self)@.input, (old(self)@.next()->0).1 as int),
    {
        let count = self.matched.len();
        assert(self.index < count);
        let (_, start) = self.matched[self.index];
        assert(rule_matches(self.input@, self.matched@[self.index as int].0, start as int));
        let r = build_identifier(&self.input.bytes, start);
        self.index = self.index + 1;
        r
    }

    /// Turns the next matched rule, an `expr` or a `lit_integer`, into the
    /// expression of its integer.
    pub fn parse_expression(&mut self) -> (r: Node<Expression>)
        requires
            old(self).wf(),
            old(self)@.next() matches Some((rule, start)) && (rule == Rule::expr || rule
                == Rule::lit_integer) && int_fits(old(self)@.input, start as int),
        ensures
            final(self).wf(),
            final(self)@ == old(self)@.advanced(),
            r@ == int_expr_view(old(self)@.input, (old(self)@.next()->0).1 as int),
    {
        let count = self.matched.len();
        assert(self.index < count);
        let (_, start) = self.matched[self.index];
        assert(rule_matches(self.input@, self.matched@[self.index as int].0, start as int));
        let r = build_int_expr(&self.input.bytes, start);
        self.index = self.index + 1;
        r
    }

    /// Turns the next matched rule, a `lit_integer` or a `lit_bool`, into its
    /// literal. A `lit_bool` is read as Rust reads a `bool`, so it must be
    /// written `true` or `false`.
    pub fn parse_literal(&mut self) -> (r: Literal)
        requires
            old(self).wf(),
            old(self)@.next() matches Some((rule, start)) && (rule == Rule::lit_integer
                && int_fits(old(self)@.input, start as int) || rule == Rule::lit_bool
                && bool_parses(old(self)@.input, start as int)),
        ensures
            final(self).wf(),
            final(self)@ == old(self)@.advanced(),
            r@ == literal_view(
                old(self)@.input,
                (old(self)@.next()->0).1 as int,
                (old(self)@.next()->0).0 == Rule::lit_bool,
            ),
    {
        let count = self.matched.len();
        assert(self.index < count);
        let (rule, start) = self.matched[self.index];
        assert(rule_matches(self.input@, self.matched@[self.index as int].0, start as int));
        let r = build_literal(&self.input.bytes, start, rule == Rule::lit_bool);
        self.index = self.index + 1;
        r
    }
}

} // verus!
