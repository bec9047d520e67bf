//! The decisions of the interactive loop: what a line asks for, and how
//! the debug level changes.
use vstd::prelude::*;

use crate::parser::lexer::{char_is_whitespace, is_space};
use crate::text::{begins_with, owned, starts_with, str_eq};

verus! {

/// What a line typed at the prompt asks for.
#[derive(Debug, PartialEq, Eq)]
pub enum ReplCommand {
    Quit,
    Help,
    /// `:debug`, with its argument (trimmed) if it has one.
    Debug(Option<String>),
    /// `:type` without an expression.
    TypeUsage,
    /// `:type` with the expression after it.
    Type(String),
    Clear,
    Eval(String),
}

/// The view of a command.
pub enum CommandView {
    Quit,
    Help,
    Debug(Option<Seq<char>>),
    TypeUsage,
    Type(Seq<char>),
    Clear,
    Eval(Seq<char>),
}

impl View for ReplCommand {
    type V = CommandView;

    open spec fn view(&self) -> CommandView {
        match self {
            ReplCommand::Quit => CommandView::Quit,
            ReplCommand::Help => CommandView::Help,
            ReplCommand::Debug(a) => CommandView::Debug(
                match a {
                    Some(s) => Some(s@),
                    None => None,
                },
            ),
            ReplCommand::TypeUsage => CommandView::TypeUsage,
            ReplCommand::Type(e) => CommandView::Type(e@),
            ReplCommand::Clear => CommandView::Clear,
            ReplCommand::Eval(e) => CommandView::Eval(e@),
        }
    }
}

/// `s` without leading and trailing whitespace, as `str::trim` leaves it.
pub open spec fn trimmed(s: Seq<char>) -> Seq<char>
    decreases s.len(),
{
    if s.len() > 0 && is_space(s[0]) {
        trimmed(s.drop_first())
    } else if s.len() > 0 && is_space(s.last()) {
        trimmed(s.drop_last())
    } else {
        s
    }
}

/// What a line asks for: `:quit`/`:q`, `:help`/`:h`, `:debug` (with the
/// rest of the line after `:debug `, trimmed), `:type` (with the rest after
/// `:type `), `:clear`, or else the line is an expression to evaluate.
pub open spec fn command_of(line: Seq<char>) -> CommandView {
    if line == ":quit"@ || line == ":q"@ {
        CommandView::Quit
    } else if line == ":help"@ || line == ":h"@ {
        CommandView::Help
    } else if line == ":debug"@ {
        CommandView::Debug(None)
    } else if begins_with(line, ":debug "@) {
        CommandView::Debug(Some(trimmed(line.skip(7))))
    } else if line == ":type"@ {
        CommandView::TypeUsage
    } else if begins_with(line, ":type "@) {
        CommandView::Type(line.skip(6))
    } else if line == ":clear"@ {
        CommandView::Clear
    } else {
        CommandView::Eval(line)
    }
}

/// The characters of `s` from `start` on, without leading and trailing
/// whitespace.
fn trim_from(s: &Vec<char>, start: usize) -> (r: String)
    requires
        start <= s.len(),
    ensures
        r@ == trimmed(s@.skip(start as int)),
{
    let mut lo: usize = start;
    let mut hi: usize = s.len();
    while lo < hi && char_is_whitespace(s[lo])
        invariant
            start <= lo <= hi <= s.len(),
            hi == s.len(),
            trimmed(s@.skip(start as int)) == trimmed(s@.subrange(lo as int, hi as int)),
        decreases hi - lo,
    {
        assert(s@.subrange(lo as int, hi as int).drop_first() =~= s@.subrange(lo + 1, hi as int));
        lo += 1;
    }
    while lo < hi && char_is_whitespace(s[hi - 1])
        invariant
            start <= lo <= hi <= s.len(),
            lo < hi ==> !is_space(s@[lo as int]),
            trimmed(s@.skip(start as int)) == trimmed(s@.subrange(lo as int, hi as int)),
        decreases hi - lo,
    {
        assert(s@.subrange(lo as int, hi as int).drop_last() =~= s@.subrange(lo as int, hi - 1));
        hi -= 1;
    }
    let mut v: Vec<char> = Vec::new();
    let mut k: usize = lo;
    while k < hi
        invariant
            lo <= k <= hi <= s.len(),
            v@ == s@.subrange(lo as int, k as int),
        decreases hi - k,
    {
        v.push(s[k]);
        assert(s@.subrange(lo as int, k + 1) =~= s@.subrange(lo as int, k as int).push(s@[k as int]));
        k += 1;
    }
    crate::text::string_of(v.as_slice())
}

/// What a line asks for; see [`command_of`].
pub fn classify(line: &str) -> (r: ReplCommand)
    ensures
        r@ == command_of(line@),
{
    if str_eq(line, ":quit") || str_eq(line, ":q") {
        return ReplCommand::Quit;
    }
    if str_eq(line, ":help") || str_eq(line, ":h") {
        return ReplCommand::Help;
    }
    if str_eq(line, ":debug") {
        return ReplCommand::Debug(None);
    }
    let cs = crate::text::chars_of(line);
    if starts_with(line, ":debug ") {
        proof {
            reveal_strlit(":debug ");
        }
        return ReplCommand::Debug(Some(trim_from(&cs, 7)));
    }
    if str_eq(line, ":type") {
        return ReplCommand::TypeUsage;
    }
    if starts_with(line, ":type ") {
        proof {
            reveal_strlit(":type ");
        }
        let mut v: Vec<char> = Vec::new();
        let mut k: usize = 6;
        while k < cs.len()
            invariant
                6 <= k <= cs.len(),
                cs@ == line@,
                v@ == cs@.subrange(6, k as int),
            decreases cs.len() - k,
        {
            v.push(cs[k]);
            assert(cs@.subrange(6, k + 1) =~= cs@.subrange(6, k as int).push(cs@[k as int]));
            k += 1;
        }
        assert(cs@.subrange(6, cs.len() as int) =~= line@.skip(6));
        return ReplCommand::Type(crate::text::string_of(v.as_slice()));
    }
    if str_eq(line, ":clear") {
        return ReplCommand::Clear;
    }
    ReplCommand::Eval(owned(line))
}

/// The debug level after `:debug` with the argument `arg`, and the message
/// shown: `off` or `0` turns it off; `1`, `2` or `3` sets it; no argument
/// turns it off when on, and on at level 1 when off; anything else leaves
/// it and shows the usage.
pub open spec fn debug_after(level: Option<u8>, arg: Option<Seq<char>>) -> (Option<u8>, Seq<char>) {
    match arg {
        Some(a) => if a == "off"@ || a == "0"@ {
            (None, "Debug mode: off"@)
        } else if a == "1"@ {
            (Some(1u8), "Debug mode: level 1"@)
        } else if a == "2"@ {
            (Some(2u8), "Debug mode: level 2"@)
        } else if a == "3"@ {
            (Some(3u8), "Debug mode: level 3"@)
        } else {
            (level, "Usage: :debug [1|2|3|off]"@)
        },
        None => if level is Some {
            (None, "Debug mode: off"@)
        } else {
            (Some(1u8), "Debug mode: on (level 1)"@)
        },
    }
}

/// Changes the debug level as `:debug` with `arg` asks; see [`debug_after`].
pub fn toggle_debug(level: &mut Option<u8>, arg: Option<&str>) -> (r: String)
    ensures
        (*final(level), r@) == debug_after(
            *old(level),
            match arg {
                Some(a) => Some(a@),
                None => None,
            },
        ),
{
    match arg {
        Some(a) => {
            if str_eq(a, "off") || str_eq(a, "0") {
                *level = None;
                owned("Debug mode: off")
            } else if str_eq(a, "1") {
                *level = Some(1);
                owned("Debug mode: level 1")
            } else if str_eq(a, "2") {
                *level = Some(2);
                owned("Debug mode: level 2")
            } else if str_eq(a, "3") {
                *level = Some(3);
                owned("Debug mode: level 3")
            } else {
                owned("Usage: :debug [1|2|3|off]")
            }
        },
        None => {
            if level.is_some() {
                *level = None;
                owned("Debug mode: off")
            } else {
                *level = Some(1);
                owned("Debug mode: on (level 1)")
            }
        },
    }
}

/// The text `:help` shows.
pub fn help_text() -> (r: String)
    ensures
        r@ == "\nCommands:\n  :type <expr>   Show type of expression\n  :debug [1|2|3] Toggle or set debug level (1=steps, 2=+nodes, 3=+net)\n  :load <file>   Load and run file (not implemented)\n  :clear         Clear screen\n  :help, :h     Show this help\n  :quit, :q     Exit REPL\n\nExamples:\n  42                           -- evaluate integer\n  \\x : Int. x + 1            -- lambda expression\n  let x = 5 in x * 2        -- let binding\n"@,
{
    owned("\nCommands:\n  :type <expr>   Show type of expression\n  :debug [1|2|3] Toggle or set debug level (1=steps, 2=+nodes, 3=+net)\n  :load <file>   Load and run file (not implemented)\n  :clear         Clear screen\n  :help, :h     Show this help\n  :quit, :q     Exit REPL\n\nExamples:\n  42                           -- evaluate integer\n  \\x : Int. x + 1            -- lambda expression\n  let x = 5 in x * 2        -- let binding\n")
}

} // verus!
