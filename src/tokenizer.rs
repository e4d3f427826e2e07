use vstd::prelude::*;

use crate::text::{is_white_space, is_whitespace, push_char};

verus! {

/// Where the tokenizer stands after reading a prefix of a line.
pub ghost struct LexState {
    /// Inside a single-quoted span.
    pub single: bool,
    /// Inside a double-quoted span.
    pub double: bool,
    /// The previous character was an escaping backslash.
    pub escape: bool,
    /// The token being accumulated.
    pub current: Seq<char>,
    /// The tokens finished so far.
    pub tokens: Seq<Seq<char>>,
}

/// Outside any quote, with nothing read.
pub open spec fn lex_start() -> LexState {
    LexState { single: false, double: false, escape: false, current: seq![], tokens: seq![] }
}

/// Whether the character at `i` is a backslash that escapes the next one:
/// outside quotes always, inside double quotes only before `"` or `\`.
pub open spec fn starts_escape(s: Seq<char>, i: int, st: LexState) -> bool {
    &&& s[i] == '\\'
    &&& !st.escape
    &&& !st.single
    &&& (!st.double || (i + 1 < s.len() && (s[i + 1] == '"' || s[i + 1] == '\\')))
}

/// Takes the character at `i` literally.
pub open spec fn keep(st: LexState, c: char) -> LexState {
    LexState { current: st.current.push(c), escape: false, ..st }
}

/// The effect of reading the character at `i`.
pub open spec fn lex_step(s: Seq<char>, i: int, st: LexState) -> LexState {
    let c = s[i];
    if c == '\\' {
        if starts_escape(s, i, st) {
            LexState { escape: true, ..st }
        } else {
            keep(st, c)
        }
    } else if c == '\'' {
        if !st.double && !st.escape {
            LexState { single: !st.single, ..st }
        } else {
            keep(st, c)
        }
    } else if c == '"' {
        if !st.single && !st.escape {
            LexState { double: !st.double, ..st }
        } else {
            keep(st, c)
        }
    } else if is_white_space(c) {
        if st.single || st.double || st.escape {
            keep(st, c)
        } else if st.current.len() > 0 {
            LexState { tokens: st.tokens.push(st.current), current: seq![], ..st }
        } else {
            st
        }
    } else {
        keep(st, c)
    }
}

/// The state after reading the first `n` characters of `s`.
pub open spec fn lex_prefix(s: Seq<char>, n: nat) -> LexState
    decreases n,
{
    if n == 0 {
        lex_start()
    } else {
        lex_step(s, n - 1, lex_prefix(s, (n - 1) as nat))
    }
}

/// The tokens of a line: those finished at its end, then the one still
/// being accumulated, if any (an open quote is not an error here).
pub open spec fn tokens_of(s: Seq<char>) -> Seq<Seq<char>> {
    let st = lex_prefix(s, s.len());
    if st.current.len() > 0 {
        st.tokens.push(st.current)
    } else {
        st.tokens
    }
}

/// Reading only whitespace leaves the tokenizer where it started.
pub proof fn lemma_blank_prefix(s: Seq<char>, n: nat)
    requires
        n <= s.len(),
        forall|i: int| 0 <= i < n ==> is_white_space(#[trigger] s[i]),
    ensures
        lex_prefix(s, n) == lex_start(),
    decreases n,
{
    if n > 0 {
        lemma_blank_prefix(s, (n - 1) as nat);
        let c = s[n - 1];
        assert(is_white_space(c));
        assert(c != '\\' && c != '\'' && c != '"');
    }
}

/// The views of a vector of strings.
pub open spec fn views(v: Seq<String>) -> Seq<Seq<char>> {
    v.map_values(|t: String| t@)
}

/// Splits a line into tokens, honouring single quotes, double quotes and
/// backslash escapes.
pub fn tokenize_input(input: &str) -> (r: Vec<String>)
    ensures
        views(r@) == tokens_of(input@),
{
    let n = input.unicode_len();
    let mut tokens: Vec<String> = Vec::new();
    let mut current = String::new();
    let mut single = false;
    let mut double = false;
    let mut escape = false;
    let mut i: usize = 0;
    while i < n
        invariant
            n == input@.len(),
            i <= n,
            ({
                let st = lex_prefix(input@, i as nat);
                &&& st.single == single
                &&& st.double == double
                &&& st.escape == escape
                &&& st.current == current@
                &&& st.tokens == views(tokens@)
            }),
        decreases n - i,
    {
        let c = input.get_char(i);
        proof {
            assert(lex_prefix(input@, (i + 1) as nat) == lex_step(input@, i as int, lex_prefix(input@, i as nat)));
        }
        if c == '\\' {
            let mut escapes = !escape && !single;
            if escapes && double {
                escapes = i + 1 < n && {
                    let d = input.get_char(i + 1);
                    d == '"' || d == '\\'
                };
            }
            if escapes {
                escape = true;
            } else {
                push_char(&mut current, c);
                escape = false;
            }
        } else if c == '\'' {
            if !double && !escape {
                single = !single;
            } else {
                push_char(&mut current, c);
                escape = false;
            }
        } else if c == '"' {
            if !single && !escape {
                double = !double;
            } else {
                push_char(&mut current, c);
                escape = false;
            }
        } else if is_whitespace(c) {
            if single || double || escape {
                push_char(&mut current, c);
                escape = false;
            } else if current.as_str().unicode_len() > 0 {
                let ghost prev = tokens@;
                let done = current;
                current = String::new();
                tokens.push(done);
                assert(views(tokens@) =~= views(prev).push(done@));
            }
        } else {
            push_char(&mut current, c);
            escape = false;
        }
        i = i + 1;
    }
    if current.as_str().unicode_len() > 0 {
        let ghost prev = tokens@;
        let ghost last = current@;
        tokens.push(current);
        assert(views(tokens@) =~= views(prev).push(last));
    }
    tokens
}

} // verus!
