//! The command dispatcher: given one tokenized command line and the session
//! state, decides what happens next. Everything that needs no filesystem,
//! environment or process work is settled here; what remains is returned as
//! a [`Step`] for the surrounding read-print loop to carry out.

use vstd::prelude::*;
use vstd::string::StringExecFns;
use crate::builtins::{
    all_digits, builtin_report, digits_value, is_builtin, join_tokens_tail, parse_exit_code,
    spec_is_builtin, ShellState,
};
use crate::strutil::str_eq;
use crate::tokenizer::spec_join_spaces;

verus! {

/// What one dispatched command line asks the session to do next.
///
/// A builtin whose whole effect is a line of output is already rendered
/// here; the remaining variants carry exactly the values the loop needs for
/// its filesystem, environment or process work.
#[derive(Debug, PartialEq)]
pub enum Step {
    /// An empty token sequence: nothing to do, prompt again.
    Empty,
    /// Terminate the session with this exit code.
    Exit(i32),
    /// Print this line on standard output and continue.
    Out(String),
    /// `type` on a non-builtin name: resolve it on the search path, then
    /// report via [`crate::builtins::type_report`].
    TypeQuery(String),
    /// `cd` with this raw argument: resolve `~`, attempt the change, and
    /// record the outcome via [`ShellState::apply_cd`].
    Cd(String),
    /// Launch this external command with these arguments.
    External(String, Vec<String>),
}

/// Decides what one tokenized command line does.
///
/// `exit` takes an optional decimal code, `0` when omitted; a non-numeric
/// code is a usage error, reported and not acted on. `type`, `cd` and
/// `exit` read only their first argument; `echo` prints them all.
pub fn dispatch_tokens(tokens: &Vec<String>, state: &ShellState) -> (step: Step)
    ensures
        ({
            let toks = tokens.deep_view();
            &&& (toks.len() == 0 ==> step == Step::Empty)
            &&& (toks.len() > 0 && toks[0] == "echo"@ ==> (step matches Step::Out(m) && m@
                == spec_join_spaces(toks.skip(1))))
            &&& (toks.len() == 1 && toks[0] == "exit"@ ==> step == Step::Exit(0i32))
            &&& (toks.len() >= 2 && toks[0] == "exit"@ && all_digits(toks[1]) && digits_value(
                toks[1],
            ) <= i32::MAX ==> step == Step::Exit(digits_value(toks[1]) as i32))
            &&& (toks.len() >= 2 && toks[0] == "exit"@ && !(all_digits(toks[1]) && digits_value(
                toks[1],
            ) <= i32::MAX) ==> (step matches Step::Out(m) && m@ == "exit: "@ + toks[1]
                + ": numeric argument required"@))
            &&& (toks.len() == 1 && toks[0] == "type"@ ==> (step matches Step::Out(m) && m@
                == "type: missing argument"@))
            &&& (toks.len() >= 2 && toks[0] == "type"@ && spec_is_builtin(toks[1])
                ==> (step matches Step::Out(m) && m@ == toks[1] + " is a shell builtin"@))
            &&& (toks.len() >= 2 && toks[0] == "type"@ && !spec_is_builtin(toks[1])
                ==> (step matches Step::TypeQuery(q) && q@ == toks[1]))
            &&& (toks.len() > 0 && toks[0] == "pwd"@ ==> (step matches Step::Out(m) && m@
                == state.cwd@))
            &&& (toks.len() == 1 && toks[0] == "cd"@ ==> (step matches Step::Out(m) && m@
                == "cd: missing argument"@))
            &&& (toks.len() >= 2 && toks[0] == "cd"@ ==> (step matches Step::Cd(t) && t@
                == toks[1]))
            &&& (toks.len() > 0 && !spec_is_builtin(toks[0]) ==> (step matches Step::External(
                c,
                args,
            ) && c@ == toks[0] && args.deep_view() == toks.skip(1)))
        }),
{
    let ghost toks = tokens.deep_view();
    if tokens.len() == 0 {
        return Step::Empty;
    }
    proof {
        assert(toks[0] == tokens@[0]@);
        reveal_strlit("echo");
        reveal_strlit("exit");
        reveal_strlit("type");
        reveal_strlit("pwd");
        reveal_strlit("cd");
        assert("echo"@.len() == 4 && "exit"@.len() == 4 && "type"@.len() == 4 && "pwd"@.len()
            == 3 && "cd"@.len() == 2);
        assert("echo"@[1] != "exit"@[1]);
        assert("echo"@[0] != "type"@[0]);
        assert("exit"@[0] != "type"@[0]);
    }
    if str_eq(tokens[0].as_str(), "echo") {
        Step::Out(join_tokens_tail(tokens))
    } else if str_eq(tokens[0].as_str(), "exit") {
        if tokens.len() == 1 {
            Step::Exit(0)
        } else {
            proof {
                assert(toks[1] == tokens@[1]@);
            }
            match parse_exit_code(tokens[1].as_str()) {
                Some(code) => Step::Exit(code),
                None => Step::Out(
                    String::from_str("exit: ").concat(tokens[1].as_str()).concat(
                        ": numeric argument required",
                    ),
                ),
            }
        }
    } else if str_eq(tokens[0].as_str(), "type") {
        if tokens.len() == 1 {
            Step::Out(String::from_str("type: missing argument"))
        } else {
            proof {
                assert(toks[1] == tokens@[1]@);
            }
            if is_builtin(tokens[1].as_str()) {
                Step::Out(builtin_report(tokens[1].as_str()))
            } else {
                Step::TypeQuery(tokens[1].clone())
            }
        }
    } else if str_eq(tokens[0].as_str(), "pwd") {
        Step::Out(state.cwd.clone())
    } else if str_eq(tokens[0].as_str(), "cd") {
        if tokens.len() == 1 {
            Step::Out(String::from_str("cd: missing argument"))
        } else {
            proof {
                assert(toks[1] == tokens@[1]@);
            }
            Step::Cd(tokens[1].clone())
        }
    } else {
        let name = tokens[0].clone();
        let mut args: Vec<String> = Vec::new();
        let mut i: usize = 1;
        proof {
            assert(args.deep_view() =~= toks.subrange(1, 1));
        }
        while i < tokens.len()
            invariant
                toks == tokens.deep_view(),
                toks.len() == tokens@.len(),
                1 <= i <= toks.len(),
                args.deep_view() == toks.subrange(1, i as int),
            decreases toks.len() - i,
        {
            let ghost old_args = args.deep_view();
            let a = tokens[i].clone();
            args.push(a);
            i = i + 1;
            proof {
                assert(a@ == toks[i as int - 1]);
                assert(args.deep_view() =~= old_args.push(a@));
                assert(args.deep_view() =~= toks.subrange(1, i as int));
            }
        }
        proof {
            assert(toks.subrange(1, toks.len() as int) =~= toks.skip(1));
        }
        Step::External(name, args)
    }
}

} // verus!
