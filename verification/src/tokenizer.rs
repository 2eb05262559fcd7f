//! The tokenizer: splits one raw command line into argument strings,
//! honouring three quoting regimes (unquoted, single-quoted, double-quoted)
//! and backslash escaping.
//!
//! The rules, mirrored exactly by [`spec_tokenize`]:
//! - Unquoted: a backslash escapes the next character, whatever it is; the
//!   escaped character is emitted literally and the backslash dropped. An
//!   unquoted space separates tokens; runs of separators collapse, so no
//!   empty token is emitted. A trailing lone backslash is kept literally.
//! - Single quotes: every character up to the closing `'` is literal.
//! - Double quotes: literal, except that a backslash escapes only `\` or `"`;
//!   before any other character the backslash itself is emitted literally.
//! - Quote delimiters only toggle state and are never part of a token.
//! - An unterminated quote is treated as implicitly closed at end of input:
//!   the accumulated content is flushed as the final token.

use vstd::prelude::*;
use crate::strutil::chars_to_string;

verus! {

/// The quoting regime the scanner is in.
#[derive(Clone, Copy, PartialEq, Eq, Structural, Debug)]
pub enum QuoteMode {
    Unquoted,
    SingleQuoted,
    DoubleQuoted,
}

/// Appends the pending token `cur` to `acc` if it is non-empty.
pub open spec fn flush_token(cur: Seq<char>, acc: Seq<Seq<char>>) -> Seq<Seq<char>> {
    if cur.len() == 0 {
        acc
    } else {
        acc.push(cur)
    }
}

/// One tokenization state: the rest of the input, the quoting mode, the
/// characters of the token accumulated so far, and the tokens already
/// emitted. Returns the complete token sequence for the line.
pub open spec fn tokenize_from(
    rest: Seq<char>,
    mode: QuoteMode,
    cur: Seq<char>,
    acc: Seq<Seq<char>>,
) -> Seq<Seq<char>>
    decreases rest.len(),
{
    if rest.len() == 0 {
        flush_token(cur, acc)
    } else {
        let c = rest[0];
        match mode {
            QuoteMode::Unquoted => {
                if c == '\'' {
                    tokenize_from(rest.skip(1), QuoteMode::SingleQuoted, cur, acc)
                } else if c == '"' {
                    tokenize_from(rest.skip(1), QuoteMode::DoubleQuoted, cur, acc)
                } else if c == '\\' {
                    if rest.len() >= 2 {
                        tokenize_from(rest.skip(2), QuoteMode::Unquoted, cur.push(rest[1]), acc)
                    } else {
                        tokenize_from(rest.skip(1), QuoteMode::Unquoted, cur.push('\\'), acc)
                    }
                } else if c == ' ' {
                    tokenize_from(rest.skip(1), QuoteMode::Unquoted, Seq::empty(), flush_token(cur, acc))
                } else {
                    tokenize_from(rest.skip(1), QuoteMode::Unquoted, cur.push(c), acc)
                }
            },
            QuoteMode::SingleQuoted => {
                if c == '\'' {
                    tokenize_from(rest.skip(1), QuoteMode::Unquoted, cur, acc)
                } else {
                    tokenize_from(rest.skip(1), QuoteMode::SingleQuoted, cur.push(c), acc)
                }
            },
            QuoteMode::DoubleQuoted => {
                if c == '"' {
                    tokenize_from(rest.skip(1), QuoteMode::Unquoted, cur, acc)
                } else if c == '\\' && rest.len() >= 2 && (rest[1] == '\\' || rest[1] == '"') {
                    tokenize_from(rest.skip(2), QuoteMode::DoubleQuoted, cur.push(rest[1]), acc)
                } else {
                    tokenize_from(rest.skip(1), QuoteMode::DoubleQuoted, cur.push(c), acc)
                }
            },
        }
    }
}

/// The token sequence of a whole line.
pub open spec fn spec_tokenize(line: Seq<char>) -> Seq<Seq<char>> {
    tokenize_from(line, QuoteMode::Unquoted, Seq::empty(), Seq::empty())
}

/// A character that is neither a quote nor a backslash, so that no quoting
/// rule applies to it.
pub open spec fn plain_char(c: char) -> bool {
    c != '\'' && c != '"' && c != '\\'
}

pub open spec fn all_plain(s: Seq<char>) -> bool {
    forall|i: int| 0 <= i < s.len() ==> plain_char(s[i])
}

/// One state of straightforward splitting on the space character, dropping
/// empty fields.
pub open spec fn split_spaces_from(rest: Seq<char>, cur: Seq<char>, acc: Seq<Seq<char>>) -> Seq<
    Seq<char>,
>
    decreases rest.len(),
{
    if rest.len() == 0 {
        flush_token(cur, acc)
    } else if rest[0] == ' ' {
        split_spaces_from(rest.skip(1), Seq::empty(), flush_token(cur, acc))
    } else {
        split_spaces_from(rest.skip(1), cur.push(rest[0]), acc)
    }
}

/// Splitting a line on runs of spaces, dropping empty fields.
pub open spec fn spec_split_spaces(line: Seq<char>) -> Seq<Seq<char>> {
    split_spaces_from(line, Seq::empty(), Seq::empty())
}

proof fn lemma_tokenize_plain_from(rest: Seq<char>, cur: Seq<char>, acc: Seq<Seq<char>>)
    requires
        all_plain(rest),
    ensures
        tokenize_from(rest, QuoteMode::Unquoted, cur, acc) == split_spaces_from(rest, cur, acc),
    decreases rest.len(),
{
    if rest.len() > 0 {
        assert(plain_char(rest[0]));
        assert(all_plain(rest.skip(1))) by {
            assert(forall|i: int|
                0 <= i < rest.skip(1).len() ==> rest.skip(1)[i] == rest[i + 1]);
        }
        if rest[0] == ' ' {
            lemma_tokenize_plain_from(rest.skip(1), Seq::empty(), flush_token(cur, acc));
        } else {
            lemma_tokenize_plain_from(rest.skip(1), cur.push(rest[0]), acc);
        }
    }
}

/// For an input line with no quote or backslash characters, tokenization is
/// equivalent to splitting on runs of the space character and discarding the
/// empty fields.
pub proof fn lemma_tokenize_plain(line: Seq<char>)
    requires
        all_plain(line),
    ensures
        spec_tokenize(line) == spec_split_spaces(line),
{
    lemma_tokenize_plain_from(line, Seq::empty(), Seq::empty());
}

/// A character that may stand in a token without any escaping: plain, and
/// not a separator.
pub open spec fn word_char(c: char) -> bool {
    plain_char(c) && c != ' '
}

/// A non-empty token all of whose characters need no escaping.
pub open spec fn plain_word(t: Seq<char>) -> bool {
    t.len() > 0 && forall|i: int| 0 <= i < t.len() ==> word_char(t[i])
}

/// The tokens joined by a single space, as `echo` prints its arguments.
pub open spec fn spec_join_spaces(toks: Seq<Seq<char>>) -> Seq<char>
    decreases toks.len(),
{
    if toks.len() == 0 {
        Seq::empty()
    } else if toks.len() == 1 {
        toks[0]
    } else {
        toks[0] + seq![' '] + spec_join_spaces(toks.skip(1))
    }
}

proof fn lemma_scan_word(w: Seq<char>, rest: Seq<char>, cur: Seq<char>, acc: Seq<Seq<char>>)
    requires
        forall|i: int| 0 <= i < w.len() ==> word_char(w[i]),
    ensures
        tokenize_from(w + rest, QuoteMode::Unquoted, cur, acc) == tokenize_from(
            rest,
            QuoteMode::Unquoted,
            cur + w,
            acc,
        ),
    decreases w.len(),
{
    if w.len() == 0 {
        assert(w + rest =~= rest);
        assert(cur + w =~= cur);
    } else {
        let s = w + rest;
        assert(s[0] == w[0]);
        assert(word_char(w[0]));
        assert(s.skip(1) =~= w.skip(1) + rest);
        assert(forall|i: int| 0 <= i < w.skip(1).len() ==> w.skip(1)[i] == w[i + 1]);
        lemma_scan_word(w.skip(1), rest, cur.push(w[0]), acc);
        assert(cur.push(w[0]) + w.skip(1) =~= cur + w);
    }
}

proof fn lemma_join_from(toks: Seq<Seq<char>>, acc: Seq<Seq<char>>)
    requires
        forall|i: int| 0 <= i < toks.len() ==> plain_word(#[trigger] toks[i]),
    ensures
        tokenize_from(spec_join_spaces(toks), QuoteMode::Unquoted, Seq::empty(), acc) == acc
            + toks,
    decreases toks.len(),
{
    if toks.len() == 0 {
        assert(spec_join_spaces(toks).len() == 0);
        assert(flush_token(Seq::empty(), acc) == acc);
        assert(acc + toks =~= acc);
    } else if toks.len() == 1 {
        assert(plain_word(toks[0]));
        lemma_scan_word(toks[0], Seq::empty(), Seq::empty(), acc);
        assert(toks[0] + Seq::<char>::empty() =~= toks[0]);
        assert(Seq::<char>::empty() + toks[0] =~= toks[0]);
        assert(tokenize_from(Seq::empty(), QuoteMode::Unquoted, toks[0], acc) == flush_token(
            toks[0],
            acc,
        ));
        assert(acc.push(toks[0]) =~= acc + toks);
    } else {
        let w = toks[0];
        let rest_join = spec_join_spaces(toks.skip(1));
        assert(plain_word(w));
        assert(spec_join_spaces(toks) == w + seq![' '] + rest_join);
        assert(w + seq![' '] + rest_join =~= w + (seq![' '] + rest_join));
        lemma_scan_word(w, seq![' '] + rest_join, Seq::empty(), acc);
        assert(Seq::<char>::empty() + w =~= w);
        let mid = seq![' '] + rest_join;
        assert(mid[0] == ' ');
        assert(mid.skip(1) =~= rest_join);
        assert(tokenize_from(mid, QuoteMode::Unquoted, w, acc) == tokenize_from(
            rest_join,
            QuoteMode::Unquoted,
            Seq::empty(),
            flush_token(w, acc),
        ));
        assert(flush_token(w, acc) == acc.push(w));
        assert(forall|i: int|
            0 <= i < toks.skip(1).len() ==> toks.skip(1)[i] == toks[i + 1]);
        lemma_join_from(toks.skip(1), acc.push(w));
        assert(acc.push(w) + toks.skip(1) =~= acc + toks);
    }
}

/// Round trip: for any sequence of non-empty tokens containing no characters
/// that require escaping, joining them with a single space and re-tokenizing
/// yields the original sequence.
pub proof fn lemma_round_trip(toks: Seq<Seq<char>>)
    requires
        forall|i: int| 0 <= i < toks.len() ==> plain_word(#[trigger] toks[i]),
    ensures
        spec_tokenize(spec_join_spaces(toks)) == toks,
{
    lemma_join_from(toks, Seq::empty());
    assert(Seq::<Seq<char>>::empty() + toks =~= toks);
}

proof fn lemma_skip_skip(s: Seq<char>, i: int, k: int)
    requires
        0 <= i,
        0 <= k,
        i + k <= s.len(),
    ensures
        s.skip(i).skip(k) == s.skip(i + k),
{
    assert(s.skip(i).skip(k) =~= s.skip(i + k));
}

/// Splits `input` into tokens, respecting single quotes, double quotes and
/// backslash escaping, exactly as [`spec_tokenize`] describes.
pub fn split_command_with_quotes(input: &str) -> (tokens: Vec<String>)
    ensures
        tokens.deep_view() == spec_tokenize(input@),
{
    let n = input.unicode_len();
    let mut i: usize = 0;
    let mut mode = QuoteMode::Unquoted;
    let mut cur: Vec<char> = Vec::new();
    let mut parts: Vec<String> = Vec::new();
    proof {
        assert(input@.skip(0) =~= input@);
        assert(parts.deep_view() =~= Seq::<Seq<char>>::empty());
    }
    while i < n
        invariant
            n == input@.len(),
            i <= n,
            tokenize_from(input@.skip(i as int), mode, cur@, parts.deep_view())
                == spec_tokenize(input@),
        decreases n - i,
    {
        proof {
            assert(input@.skip(i as int)[0] == input@[i as int]);
            lemma_skip_skip(input@, i as int, 1);
        }
        let c = input.get_char(i);
        match mode {
            QuoteMode::Unquoted => {
                if c == '\'' {
                    mode = QuoteMode::SingleQuoted;
                    i = i + 1;
                } else if c == '"' {
                    mode = QuoteMode::DoubleQuoted;
                    i = i + 1;
                } else if c == '\\' {
                    if i + 1 < n {
                        proof {
                            assert(input@.skip(i as int)[1] == input@[i as int + 1]);
                            lemma_skip_skip(input@, i as int, 2);
                        }
                        let next = input.get_char(i + 1);
                        cur.push(next);
                        i = i + 2;
                    } else {
                        cur.push('\\');
                        i = i + 1;
                    }
                } else if c == ' ' {
                    if cur.len() > 0 {
                        let ghost old_parts = parts.deep_view();
                        let tok = chars_to_string(&cur);
                        parts.push(tok);
                        cur = Vec::new();
                        proof {
                            assert(parts.deep_view() =~= old_parts.push(tok@));
                        }
                    }
                    proof {
                        assert(cur@ =~= Seq::<char>::empty());
                    }
                    i = i + 1;
                } else {
                    cur.push(c);
                    i = i + 1;
                }
            },
            QuoteMode::SingleQuoted => {
                if c == '\'' {
                    mode = QuoteMode::Unquoted;
                } else {
                    cur.push(c);
                }
                i = i + 1;
            },
            QuoteMode::DoubleQuoted => {
                if c == '"' {
                    mode = QuoteMode::Unquoted;
                    i = i + 1;
                } else if c == '\\' && i + 1 < n {
                    proof {
                        assert(input@.skip(i as int)[1] == input@[i as int + 1]);
                        lemma_skip_skip(input@, i as int, 2);
                    }
                    let next = input.get_char(i + 1);
                    if next == '\\' || next == '"' {
                        cur.push(next);
                        i = i + 2;
                    } else {
                        cur.push(c);
                        i = i + 1;
                    }
                } else {
                    cur.push(c);
                    i = i + 1;
                }
            },
        }
    }
    proof {
        assert(input@.skip(n as int) =~= Seq::<char>::empty());
    }
    if cur.len() > 0 {
        let ghost old_parts = parts.deep_view();
        let tok = chars_to_string(&cur);
        parts.push(tok);
        proof {
            assert(parts.deep_view() =~= old_parts.push(tok@));
        }
    }
    parts
}

} // verus!
