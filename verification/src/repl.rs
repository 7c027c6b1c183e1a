//! What the interactive prompt shows for a line of input.
use vstd::prelude::*;
use vstd::string::StringSliceAdditionalSpecFns;
use crate::ast::{Node, SelectStatement, TopStatement};
use crate::grammar::{Rule, m_top_level_repl};
use crate::parser::{Rdp, StringInput};
use crate::tree::{select_view, select_buildable, top_view, top_int_start, int_fits};

verus! {

/// What the prompt shows for a line.
pub enum ReplOutput {
    /// The line does not start with anything the prompt knows.
    Nothing,
    /// The line starts with a SELECT statement.
    Select(Node<SelectStatement>),
    /// The line starts with a TOP statement.
    Top(Option<Node<TopStatement>>),
    /// The line starts with something else; only its rule is shown.
    Other(Rule),
}

/// The start of the line can be turned into a tree whenever the prompt
/// would show one.
pub open spec fn repl_buildable(s: Seq<u8>) -> bool {
    match m_top_level_repl(s, 0) {
        Some((r, _)) => if r == Rule::stmt_select {
            select_buildable(s, 0)
        } else if r == Rule::stmt_top || r == Rule::stmt_top_legacy {
            int_fits(s, top_int_start(s, 0, r == Rule::stmt_top_legacy))
        } else {
            true
        },
        None => true,
    }
}

/// Whether `evaluate_repl_input` can build the tree of `line`.
pub fn repl_input_is_buildable(line: &str) -> (b: bool)
    ensures
        b == repl_buildable(line.spec_bytes()),
{
    let bytes = vstd::slice::slice_to_vec(line.as_bytes());
    let mut scratch = crate::recognize::Tracker::new();
    match crate::recognize::top_level_repl(&bytes, 0, &mut scratch) {
        Some((r, _)) => {
            if r == Rule::stmt_select {
                crate::tree::select_buildable_exec(&bytes, 0)
            } else if r == Rule::stmt_top || r == Rule::stmt_top_legacy {
                crate::tree::top_int_fits_exec(&bytes, 0, r == Rule::stmt_top_legacy)
            } else {
                true
            }
        },
        None => true,
    }
}

/// What the prompt shows for `line`: the tree of a SELECT statement or of a
/// TOP statement at its start, or the rule of whatever else matches there.
pub fn evaluate_repl_input(line: &str) -> (r: ReplOutput)
    requires
        repl_buildable(line.spec_bytes()),
    ensures
        match m_top_level_repl(line.spec_bytes(), 0) {
            None => r is Nothing,
            Some((rule, _)) => if rule == Rule::stmt_select {
                r matches ReplOutput::Select(n) && n@ == select_view(line.spec_bytes(), 0)
            } else if rule == Rule::stmt_top || rule == Rule::stmt_top_legacy {
                r matches ReplOutput::Top(Some(n)) && n@ == top_view(
                    line.spec_bytes(),
                    0,
                    rule == Rule::stmt_top_legacy,
                )
            } else {
                r == ReplOutput::Other(rule)
            },
        },
{
    let mut parser = Rdp::new(StringInput::new(line));
    if !parser.top_level_repl() {
        return ReplOutput::Nothing;
    }
    match parser.first_rule() {
        Some(rule) => {
            if rule == Rule::stmt_select {
                ReplOutput::Select(parser.parse_stmt_select())
            } else if rule == Rule::stmt_top || rule == Rule::stmt_top_legacy {
                ReplOutput::Top(parser.parse_stmt_top())
            } else {
                ReplOutput::Other(rule)
            }
        },
        None => ReplOutput::Nothing,
    }
}

/// What the prompt does with a (trimmed) line.
#[derive(Clone, Copy, Debug, PartialEq, Eq, Structural)]
pub enum ReplCommand {
    /// An empty line: ask again.
    Skip,
    /// `help`, `?`, `/h` or `/?`: show the help text.
    Help,
    /// `q`, `quit` or `exit`: say goodbye and stop.
    Quit,
    /// Anything else: show what the line parses to.
    Show,
}

/// The command for a line whose bytes are `b`.
pub open spec fn repl_command(b: Seq<u8>) -> ReplCommand {
    if b.len() == 0 {
        ReplCommand::Skip
    } else if b == seq![104u8, 101u8, 108u8, 112u8]  // "help"
     || b == seq![63u8]  // "?"
     || b == seq![47u8, 104u8]  // "/h"
     || b == seq![47u8, 63u8]  // "/?"
    {
        ReplCommand::Help
    } else if b == seq![113u8]  // "q"
     || b == seq![113u8, 117u8, 105u8, 116u8]  // "quit"
     || b == seq![101u8, 120u8, 105u8, 116u8]  // "exit"
    {
        ReplCommand::Quit
    } else {
        ReplCommand::Show
    }
}

fn bytes_equal(a: &[u8], b: &[u8]) -> (r: bool)
    ensures
        r == (a@ == b@),
{
    if a.len() != b.len() {
        return false;
    }
    let mut i: usize = 0;
    while i < a.len()
        invariant
            a@.len() == b@.len(),
            0 <= i <= a@.len(),
            forall|j: int| 0 <= j < i ==> a@[j] == b@[j],
        decreases a@.len() - i,
    {
        if a[i] != b[i] {
            return false;
        }
        i = i + 1;
    }
    assert(a@ =~= b@);
    true
}

/// What the prompt does with the (trimmed) line `line`.
pub fn command_for_line(line: &str) -> (c: ReplCommand)
    ensures
        c == repl_command(line.spec_bytes()),
{
    let b = line.as_bytes();
    if b.len() == 0 {
        return ReplCommand::Skip;
    }
    let help: [u8; 4] = [104u8, 101u8, 108u8, 112u8];
    let question: [u8; 1] = [63u8];
    let slash_h: [u8; 2] = [47u8, 104u8];
    let slash_question: [u8; 2] = [47u8, 63u8];
    let q: [u8; 1] = [113u8];
    let quit: [u8; 4] = [113u8, 117u8, 105u8, 116u8];
    let exit: [u8; 4] = [101u8, 120u8, 105u8, 116u8];
    assert(help@ =~= seq![104u8, 101u8, 108u8, 112u8]);
    assert(question@ =~= seq![63u8]);
    assert(slash_h@ =~= seq![47u8, 104u8]);
    assert(slash_question@ =~= seq![47u8, 63u8]);
    assert(q@ =~= seq![113u8]);
    assert(quit@ =~= seq![113u8, 117u8, 105u8, 116u8]);
    assert(exit@ =~= seq![101u8, 120u8, 105u8, 116u8]);
    if bytes_equal(b, help.as_slice()) || bytes_equal(b, question.as_slice()) || bytes_equal(
        b,
        slash_h.as_slice(),
    ) || bytes_equal(b, slash_question.as_slice()) {
        ReplCommand::Help
    } else if bytes_equal(b, q.as_slice()) || bytes_equal(b, quit.as_slice()) || bytes_equal(
        b,
        exit.as_slice(),
    ) {
        ReplCommand::Quit
    } else {
        ReplCommand::Show
    }
}

} // verus!
