//! The builtin registry: the fixed set of commands handled in-process
//! (`exit`, `echo`, `type`, `pwd`, `cd`), the session state they read and
//! mutate, and the exact text of the messages they and the dispatcher print.

use vstd::prelude::*;
use vstd::string::StringExecFns;
use crate::strutil::{chars_to_string, str_eq};
use crate::tokenizer::spec_join_spaces;

verus! {

/// Whether `name` is one of the shell's builtin commands.
pub open spec fn spec_is_builtin(name: Seq<char>) -> bool {
    name == "exit"@ || name == "echo"@ || name == "type"@ || name == "pwd"@ || name == "cd"@
}

pub fn is_builtin(name: &str) -> (r: bool)
    ensures
        r == spec_is_builtin(name@),
{
    str_eq(name, "exit") || str_eq(name, "echo") || str_eq(name, "type") || str_eq(name, "pwd")
        || str_eq(name, "cd")
}

/// Process-wide state that persists across commands: only the working
/// directory, read by `pwd` and changed exclusively by `cd`.
pub struct ShellState {
    pub cwd: String,
}

impl ShellState {
    /// Records the outcome of a `cd` attempt. A successful change hands in
    /// the new working directory; a failed one hands in `None` and leaves
    /// the state exactly as it was.
    pub fn apply_cd(&mut self, outcome: Option<String>)
        ensures
            match outcome {
                Some(p) => final(self).cwd@ == p@,
                None => final(self).cwd@ == old(self).cwd@,
            },
    {
        if let Some(p) = outcome {
            self.cwd = p;
        }
    }
}

/// The directory a `cd` argument denotes: `~` means the home directory,
/// falling back to `/` when it is unset; any other argument is taken
/// literally.
pub fn cd_target(arg: &str, home: &Option<String>) -> (r: String)
    ensures
        (if arg@ == "~"@ {
            match home {
                Some(h) => r@ == h@,
                None => r@ == "/"@,
            }
        } else {
            r@ == arg@
        }),
{
    if str_eq(arg, "~") {
        match home {
            Some(h) => h.clone(),
            None => String::from_str("/"),
        }
    } else {
        String::from_str(arg)
    }
}

/// `type`'s report for a builtin name.
pub fn builtin_report(name: &str) -> (r: String)
    ensures
        r@ == name@ + " is a shell builtin"@,
{
    String::from_str(name).concat(" is a shell builtin")
}

/// `type`'s report for a non-builtin name, given the resolver's answer.
pub fn type_report(name: &str, resolved: &Option<String>) -> (r: String)
    ensures
        match resolved {
            Some(p) => r@ == name@ + " is "@ + p@,
            None => r@ == name@ + ": not found"@,
        },
{
    match resolved {
        Some(p) => String::from_str(name).concat(" is ").concat(p.as_str()),
        None => String::from_str(name).concat(": not found"),
    }
}

/// The report for a command that is neither a builtin nor found on the
/// search path.
pub fn not_found_message(name: &str) -> (r: String)
    ensures
        r@ == name@ + ": command not found"@,
{
    String::from_str(name).concat(": command not found")
}

/// The report for a resolved command whose launch failed; `err` is the
/// operating system's error text.
pub fn launch_failed_message(name: &str, err: &str) -> (r: String)
    ensures
        r@ == name@ + ": failed to execute: "@ + err@,
{
    String::from_str(name).concat(": failed to execute: ").concat(err)
}

/// The report for a failed `cd`.
pub fn cd_error_message(path: &str) -> (r: String)
    ensures
        r@ == "cd: "@ + path@ + ": No such file or directory"@,
{
    String::from_str("cd: ").concat(path).concat(": No such file or directory")
}

/// The line `echo` prints: the arguments after the command name, joined by
/// a single space.
pub fn join_tokens_tail(args: &Vec<String>) -> (r: String)
    requires
        args@.len() >= 1,
    ensures
        r@ == spec_join_spaces(args.deep_view().skip(1)),
{
    let ghost dv = args.deep_view();
    if args.len() == 1 {
        let r = String::new();
        proof {
            assert(dv.skip(1) =~= Seq::<Seq<char>>::empty());
        }
        r
    } else {
        let mut r = args[1].clone();
        let mut i: usize = 2;
        proof {
            assert(dv.subrange(1, 2) =~= seq![dv[1]]);
            assert(dv[1] == args@[1]@);
        }
        while i < args.len()
            invariant
                dv == args.deep_view(),
                dv.len() == args@.len(),
                2 <= i <= dv.len(),
                r@ == spec_join_spaces(dv.subrange(1, i as int)),
            decreases dv.len() - i,
        {
            proof {
                reveal_strlit(" ");
                lemma_join_push(dv.subrange(1, i as int), dv[i as int]);
                assert(dv.subrange(1, i as int).push(dv[i as int]) =~= dv.subrange(
                    1,
                    i as int + 1,
                ));
            }
            r.append(" ");
            r.append(args[i].as_str());
            proof {
                assert(dv[i as int] == args@[i as int]@);
                assert(r@ =~= spec_join_spaces(dv.subrange(1, i as int)) + seq![' ']
                    + dv[i as int]);
            }
            i = i + 1;
        }
        proof {
            assert(dv.subrange(1, dv.len() as int) =~= dv.skip(1));
        }
        r
    }
}

proof fn lemma_join_push(toks: Seq<Seq<char>>, t: Seq<char>)
    ensures
        spec_join_spaces(toks.push(t)) == if toks.len() == 0 {
            t
        } else {
            spec_join_spaces(toks) + seq![' '] + t
        },
    decreases toks.len(),
{
    let p = toks.push(t);
    if toks.len() == 0 {
        assert(p.len() == 1);
        assert(p[0] == t);
    } else if toks.len() == 1 {
        assert(p.len() == 2);
        assert(p.skip(1) =~= seq![t]);
        assert(spec_join_spaces(seq![t]) == t);
        assert(p[0] == toks[0]);
    } else {
        assert(p.skip(1) =~= toks.skip(1).push(t));
        lemma_join_push(toks.skip(1), t);
        assert(p[0] == toks[0]);
        assert(toks[0] + seq![' '] + (spec_join_spaces(toks.skip(1)) + seq![' '] + t) =~= (toks[0]
            + seq![' '] + spec_join_spaces(toks.skip(1))) + seq![' '] + t);
    }
}

/// The numeric value of a decimal digit; any other character counts zero.
pub open spec fn digit_val(c: char) -> nat {
    if is_digit(c) {
        (c as int - 48) as nat
    } else {
        0
    }
}

/// A decimal digit `0` through `9`.
pub open spec fn is_digit(c: char) -> bool {
    48 <= c as int <= 57
}

/// A non-empty string of decimal digits.
pub open spec fn all_digits(s: Seq<char>) -> bool {
    s.len() > 0 && forall|i: int| 0 <= i < s.len() ==> is_digit(s[i])
}

/// The value of a digit string read in base ten.
pub open spec fn digits_value(s: Seq<char>) -> nat
    decreases s.len(),
{
    if s.len() == 0 {
        0
    } else {
        digits_value(s.drop_last()) * 10 + digit_val(s.last())
    }
}

proof fn lemma_digits_value_grows(s: Seq<char>, i: int, j: int)
    requires
        0 <= i <= j <= s.len(),
    ensures
        digits_value(s.take(i)) <= digits_value(s.take(j)),
    decreases j - i,
{
    if i < j {
        lemma_digits_value_grows(s, i, j - 1);
        assert(s.take(j).drop_last() =~= s.take(j - 1));
        assert(digits_value(s.take(j)) == digits_value(s.take(j - 1)) * 10 + digit_val(
            s.take(j).last(),
        ));
    }
}

/// Reads an exit code: accepts exactly the non-empty all-digit strings whose
/// value fits a signed 32-bit integer, and returns that value.
pub fn parse_exit_code(s: &str) -> (r: Option<i32>)
    ensures
        match r {
            Some(v) => all_digits(s@) && digits_value(s@) <= i32::MAX && v == digits_value(s@) as i32,
            None => !(all_digits(s@) && digits_value(s@) <= i32::MAX),
        },
{
    let n = s.unicode_len();
    if n == 0 {
        return None;
    }
    let mut i: usize = 0;
    let mut acc: u64 = 0;
    proof {
        assert(s@.take(0) =~= Seq::<char>::empty());
    }
    while i < n
        invariant
            n == s@.len(),
            i <= n,
            forall|j: int| 0 <= j < i ==> is_digit(s@[j]),
            acc == digits_value(s@.take(i as int)),
            acc <= i32::MAX,
        decreases n - i,
    {
        let c = s.get_char(i);
        let cv = c as u32;
        if cv < 48 || cv > 57 {
            proof {
                assert(!is_digit(s@[i as int]));
            }
            return None;
        }
        let d = (cv - 48) as u64;
        acc = acc * 10 + d;
        i = i + 1;
        proof {
            assert(s@.take(i as int).drop_last() =~= s@.take(i as int - 1));
            assert(s@.take(i as int).last() == s@[i as int - 1]);
        }
        if acc > 0x7fff_ffff {
            proof {
                if all_digits(s@) {
                    lemma_digits_value_grows(s@, i as int, n as int);
                    assert(s@.take(n as int) =~= s@);
                }
            }
            return None;
        }
    }
    proof {
        assert(s@.take(n as int) =~= s@);
    }
    Some(acc as i32)
}

/// The decimal digit characters of `n`, most significant first.
pub open spec fn spec_decimal(n: nat) -> Seq<char>
    decreases n,
{
    if n < 10 {
        seq![digit_char(n)]
    } else {
        spec_decimal(n / 10).push(digit_char(n % 10))
    }
}

/// The character for one decimal digit.
pub open spec fn digit_char(d: nat) -> char {
    if d == 0 {
        '0'
    } else if d == 1 {
        '1'
    } else if d == 2 {
        '2'
    } else if d == 3 {
        '3'
    } else if d == 4 {
        '4'
    } else if d == 5 {
        '5'
    } else if d == 6 {
        '6'
    } else if d == 7 {
        '7'
    } else if d == 8 {
        '8'
    } else {
        '9'
    }
}

fn digit_char_exec(d: u32) -> (c: char)
    requires
        d < 10,
    ensures
        c == digit_char(d as nat),
{
    if d == 0 {
        '0'
    } else if d == 1 {
        '1'
    } else if d == 2 {
        '2'
    } else if d == 3 {
        '3'
    } else if d == 4 {
        '4'
    } else if d == 5 {
        '5'
    } else if d == 6 {
        '6'
    } else if d == 7 {
        '7'
    } else if d == 8 {
        '8'
    } else {
        '9'
    }
}

fn decimal_digits(n: u32) -> (v: Vec<char>)
    ensures
        v@ == spec_decimal(n as nat),
    decreases n,
{
    if n < 10 {
        let mut v: Vec<char> = Vec::new();
        v.push(digit_char_exec(n));
        proof {
            assert(v@ =~= seq![digit_char(n as nat)]);
        }
        v
    } else {
        proof {
            assert(n / 10 < n) by (nonlinear_arith)
                requires
                    n >= 10,
            ;
        }
        let mut v = decimal_digits(n / 10);
        v.push(digit_char_exec(n % 10));
        v
    }
}

/// `n` written in decimal.
pub fn u32_to_string(n: u32) -> (r: String)
    ensures
        r@ == spec_decimal(n as nat),
{
    let v = decimal_digits(n);
    chars_to_string(&v)
}

/// The report for an external command that exited with a non-success code.
pub fn exit_status_message(name: &str, code: u32) -> (r: String)
    ensures
        r@ == name@ + ": command exited with status "@ + spec_decimal(code as nat),
{
    let digits = u32_to_string(code);
    String::from_str(name).concat(": command exited with status ").concat(digits.as_str())
}

} // verus!
