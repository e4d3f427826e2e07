use vstd::prelude::*;

use crate::text::is_white_space;
use crate::tokenizer::{lemma_blank_prefix, tokenize_input, tokens_of, views};

verus! {

/// One stage of a pipeline.
pub struct ParsedCommand {
    pub command: String,
    pub args: Vec<String>,
    pub stdout_redirect: Option<String>,
    pub stderr_redirect: Option<String>,
    pub stdout_redirect_append: bool,
    pub stderr_redirect_append: bool,
}

/// A stage as values: what [`ParsedCommand`] holds.
pub ghost struct Stage {
    pub command: Seq<char>,
    pub args: Seq<Seq<char>>,
    pub stdout: Option<Seq<char>>,
    pub stderr: Option<Seq<char>>,
    pub stdout_append: bool,
    pub stderr_append: bool,
}

pub open spec fn opt_view(o: Option<String>) -> Option<Seq<char>> {
    match o {
        Some(s) => Some(s@),
        None => None,
    }
}

impl View for ParsedCommand {
    type V = Stage;

    open spec fn view(&self) -> Stage {
        Stage {
            command: self.command@,
            args: views(self.args@),
            stdout: opt_view(self.stdout_redirect),
            stderr: opt_view(self.stderr_redirect),
            stdout_append: self.stdout_redirect_append,
            stderr_append: self.stderr_redirect_append,
        }
    }
}

/// Why a line could not be parsed.
#[derive(Debug, PartialEq, Eq, Structural)]
pub enum ParseError {
    /// A redirection operator ends its stage, with no path after it.
    MissingRedirectTarget,
    /// A stage between two pipes, or after the last one, holds no word.
    EmptyStage,
}

/// The text reported for a parse error.
pub open spec fn parse_error_text(e: ParseError) -> Seq<char> {
    match e {
        ParseError::MissingRedirectTarget => "Syntax error: expected file path after redirect"@,
        ParseError::EmptyStage => "Syntax error: empty command in pipeline"@,
    }
}

impl ParseError {
    /// The text reported for this error.
    pub fn message(&self) -> (r: String)
        ensures
            r@ == parse_error_text(*self),
    {
        match self {
            ParseError::MissingRedirectTarget => String::from_str(
                "Syntax error: expected file path after redirect",
            ),
            ParseError::EmptyStage => String::from_str("Syntax error: empty command in pipeline"),
        }
    }
}

/// A redirection operator: which stream it sends to a file (`true` for
/// standard error), and whether it appends.
pub open spec fn redirect_op(t: Seq<char>) -> Option<(bool, bool)> {
    if t == seq!['>'] || t == seq!['1', '>'] {
        Some((false, false))
    } else if t == seq!['>', '>'] || t == seq!['1', '>', '>'] {
        Some((false, true))
    } else if t == seq!['2', '>'] {
        Some((true, false))
    } else if t == seq!['2', '>', '>'] {
        Some((true, true))
    } else {
        None
    }
}

/// The pipe separator token.
pub open spec fn is_pipe(t: Seq<char>) -> bool {
    t == seq!['|']
}

/// Applies a redirection of the given kind to `st`.
pub open spec fn redirect(st: Stage, to_stderr: bool, append: bool, path: Seq<char>) -> Stage {
    if to_stderr {
        Stage { stderr: Some(path), stderr_append: append, ..st }
    } else {
        Stage { stdout: Some(path), stdout_append: append, ..st }
    }
}

/// Reads the words of a stage from position `i` on, into `acc`; `None`
/// where an operator has no path after it.
pub open spec fn scan_words(toks: Seq<Seq<char>>, i: int, acc: Stage) -> Option<Stage>
    decreases toks.len() - i,
{
    if i < 0 || i >= toks.len() {
        Some(acc)
    } else {
        match redirect_op(toks[i]) {
            Some((to_stderr, append)) => {
                if i + 1 >= toks.len() {
                    None
                } else {
                    scan_words(toks, i + 2, redirect(acc, to_stderr, append, toks[i + 1]))
                }
            },
            None => scan_words(toks, i + 1, Stage { args: acc.args.push(toks[i]), ..acc }),
        }
    }
}

/// The stage that a non-empty group of words describes: the first word is
/// the command.
pub open spec fn stage_of(group: Seq<Seq<char>>) -> Option<Stage> {
    scan_words(
        group,
        1,
        Stage {
            command: group[0],
            args: seq![],
            stdout: None,
            stderr: None,
            stdout_append: false,
            stderr_append: false,
        },
    )
}

/// The groups of the first `n` tokens, cut at each pipe separator.
pub open spec fn split_prefix(toks: Seq<Seq<char>>, n: nat) -> Seq<Seq<Seq<char>>>
    decreases n,
{
    if n == 0 {
        seq![seq![]]
    } else {
        let g = split_prefix(toks, (n - 1) as nat);
        if is_pipe(toks[n - 1]) {
            g.push(seq![])
        } else {
            g.update(g.len() - 1, g.last().push(toks[n - 1]))
        }
    }
}

pub open spec fn pipe_groups(toks: Seq<Seq<char>>) -> Seq<Seq<Seq<char>>> {
    split_prefix(toks, toks.len())
}

/// The stages of groups `i..`, after those in `acc`.
pub open spec fn stages_from(gs: Seq<Seq<Seq<char>>>, i: int, acc: Seq<Stage>) -> Result<
    Seq<Stage>,
    ParseError,
>
    decreases gs.len() - i,
{
    if i < 0 || i >= gs.len() {
        Ok(acc)
    } else if gs[i].len() == 0 {
        Err(ParseError::EmptyStage)
    } else {
        match stage_of(gs[i]) {
            None => Err(ParseError::MissingRedirectTarget),
            Some(st) => stages_from(gs, i + 1, acc.push(st)),
        }
    }
}

/// The pipeline of a token sequence; empty where the first group holds no
/// word (a blank line).
pub open spec fn pipeline_of(toks: Seq<Seq<char>>) -> Result<Seq<Stage>, ParseError> {
    let gs = pipe_groups(toks);
    if gs[0].len() == 0 {
        Ok(seq![])
    } else {
        stages_from(gs, 0, seq![])
    }
}

/// The pipeline that a line describes.
pub open spec fn pipeline_of_line(line: Seq<char>) -> Result<Seq<Stage>, ParseError> {
    pipeline_of(tokens_of(line))
}

/// Tells a redirection operator apart from other words.
fn redirect_kind(t: &String) -> (r: Option<(bool, bool)>)
    ensures
        r == redirect_op(t@),
{
    let s = t.as_str();
    let n = s.unicode_len();
    if n == 0 || n > 3 {
        return None;
    }
    let c0 = s.get_char(0);
    if n == 1 {
        assert(c0 == '>' ==> t@ =~= seq!['>']);
        if c0 == '>' { Some((false, false)) } else { None }
    } else if n == 2 {
        let c1 = s.get_char(1);
        assert(c1 == '>' && c0 == '1' ==> t@ =~= seq!['1', '>']);
        assert(c1 == '>' && c0 == '2' ==> t@ =~= seq!['2', '>']);
        assert(c1 == '>' && c0 == '>' ==> t@ =~= seq!['>', '>']);
        if c1 != '>' {
            None
        } else if c0 == '1' {
            Some((false, false))
        } else if c0 == '2' {
            Some((true, false))
        } else if c0 == '>' {
            Some((false, true))
        } else {
            None
        }
    } else {
        let c1 = s.get_char(1);
        let c2 = s.get_char(2);
        assert(c1 == '>' && c2 == '>' && c0 == '1' ==> t@ =~= seq!['1', '>', '>']);
        assert(c1 == '>' && c2 == '>' && c0 == '2' ==> t@ =~= seq!['2', '>', '>']);
        if c1 != '>' || c2 != '>' {
            None
        } else if c0 == '1' {
            Some((false, true))
        } else if c0 == '2' {
            Some((true, true))
        } else {
            None
        }
    }
}

/// Whether a word is the pipe separator.
fn is_pipe_token(t: &String) -> (r: bool)
    ensures
        r == is_pipe(t@),
{
    let s = t.as_str();
    let n = s.unicode_len();
    if n != 1 {
        return false;
    }
    let c = s.get_char(0);
    assert(c == '|' ==> t@ =~= seq!['|']);
    c == '|'
}

/// Parses one stage from its words: the first is the command, each
/// redirection operator takes the next word as its path, the rest are
/// arguments.
pub fn parse_stage(words: &Vec<String>) -> (r: Result<ParsedCommand, ParseError>)
    requires
        words.len() > 0,
    ensures
        match stage_of(views(words@)) {
            Some(st) => r is Ok && r->Ok_0@ == st,
            None => r == Err::<ParsedCommand, ParseError>(ParseError::MissingRedirectTarget),
        },
{
    let ghost toks = views(words@);
    let n = words.len();
    let command = words[0].clone();
    let mut args: Vec<String> = Vec::new();
    let mut stdout_redirect: Option<String> = None;
    let mut stderr_redirect: Option<String> = None;
    let mut stdout_redirect_append = false;
    let mut stderr_redirect_append = false;
    let mut i: usize = 1;
    assert(views(args@) =~= seq![]);
    while i < n
        invariant
            n == words.len(),
            toks == views(words@),
            1 <= i,
            stage_of(toks) == scan_words(
                toks,
                i as int,
                Stage {
                    command: command@,
                    args: views(args@),
                    stdout: opt_view(stdout_redirect),
                    stderr: opt_view(stderr_redirect),
                    stdout_append: stdout_redirect_append,
                    stderr_append: stderr_redirect_append,
                },
            ),
        decreases n - i,
    {
        match redirect_kind(&words[i]) {
            Some((to_stderr, append)) => {
                if i + 1 >= n {
                    return Err(ParseError::MissingRedirectTarget);
                }
                let path = words[i + 1].clone();
                if to_stderr {
                    stderr_redirect = Some(path);
                    stderr_redirect_append = append;
                } else {
                    stdout_redirect = Some(path);
                    stdout_redirect_append = append;
                }
                i = i + 2;
            },
            None => {
                let ghost prev = args@;
                args.push(words[i].clone());
                assert(views(args@) =~= views(prev).push(toks[i as int]));
                i = i + 1;
            },
        }
    }
    Ok(
        ParsedCommand {
            command,
            args,
            stdout_redirect,
            stderr_redirect,
            stdout_redirect_append,
            stderr_redirect_append,
        },
    )
}

/// Cuts words into groups at each pipe separator.
pub fn split_pipes(words: &Vec<String>) -> (r: Vec<Vec<String>>)
    ensures
        group_views(r@) == pipe_groups(views(words@)),
{
    let ghost toks = views(words@);
    let n = words.len();
    let mut done: Vec<Vec<String>> = Vec::new();
    let mut cur: Vec<String> = Vec::new();
    let mut i: usize = 0;
    assert(views(cur@) =~= seq![]);
    assert(group_views(done@).push(views(cur@)) =~= seq![seq![]]);
    while i < n
        invariant
            n == words.len(),
            toks == views(words@),
            i <= n,
            split_prefix(toks, i as nat) == group_views(done@).push(views(cur@)),
        decreases n - i,
    {
        let ghost before = group_views(done@).push(views(cur@));
        if is_pipe_token(&words[i]) {
            let ghost prev = done@;
            let finished = cur;
            cur = Vec::new();
            done.push(finished);
            assert(group_views(done@) =~= group_views(prev).push(views(finished@)));
            assert(views(cur@) =~= seq![]);
            assert(group_views(done@).push(views(cur@)) =~= before.push(seq![]));
        } else {
            let ghost prev = cur@;
            cur.push(words[i].clone());
            assert(views(cur@) =~= views(prev).push(toks[i as int]));
            assert(group_views(done@).push(views(cur@)) =~= before.update(
                before.len() - 1,
                before.last().push(toks[i as int]),
            ));
        }
        i = i + 1;
    }
    let ghost before = group_views(done@).push(views(cur@));
    done.push(cur);
    assert(group_views(done@) =~= before);
    done
}

/// Parses a line into its pipeline: empty for a blank line, else one
/// stage per group of words between pipe separators, left to right.
pub fn parse_input(input: &str) -> (r: Result<Vec<ParsedCommand>, ParseError>)
    ensures
        match pipeline_of_line(input@) {
            Ok(stages) => r is Ok && stage_views(r->Ok_0@) == stages,
            Err(e) => r is Err && r->Err_0 == e,
        },
{
    let words = tokenize_input(input);
    let groups = split_pipes(&words);
    let ghost gs = group_views(groups@);
    assert(gs.len() > 0) by {
        lemma_split_nonempty(views(words@), words@.len() as nat);
    }
    let mut stages: Vec<ParsedCommand> = Vec::new();
    if groups[0].len() == 0 {
        assert(stage_views(stages@) =~= seq![]);
        return Ok(stages);
    }
    let n = groups.len();
    let mut i: usize = 0;
    assert(stage_views(stages@) =~= seq![]);
    while i < n
        invariant
            n == groups.len(),
            gs == group_views(groups@),
            gs == pipe_groups(views(words@)),
            views(words@) == tokens_of(input@),
            i <= n,
            gs[0].len() > 0,
            pipeline_of(views(words@)) == stages_from(gs, i as int, stage_views(stages@)),
        decreases n - i,
    {
        assert(gs[i as int] == views(groups@[i as int]@));
        assert(gs[i as int].len() == groups@[i as int].len());
        if groups[i].len() == 0 {
            return Err(ParseError::EmptyStage);
        }
        match parse_stage(&groups[i]) {
            Err(e) => {
                return Err(e);
            },
            Ok(stage) => {
                let ghost prev = stages@;
                stages.push(stage);
                assert(stage_views(stages@) =~= stage_views(prev).push(stage@));
            },
        }
        i = i + 1;
    }
    Ok(stages)
}

proof fn lemma_split_nonempty(toks: Seq<Seq<char>>, n: nat)
    ensures
        split_prefix(toks, n).len() > 0,
    decreases n,
{
    if n > 0 {
        lemma_split_nonempty(toks, (n - 1) as nat);
    }
}

/// Parses a command line into its pipeline: empty for a blank line, else
/// one stage per group of words between pipe separators, left to right.
pub fn parse_command_line(input: &str) -> (r: Result<Vec<ParsedCommand>, ParseError>)
    ensures
        match pipeline_of_line(input@) {
            Ok(stages) => r is Ok && stage_views(r->Ok_0@) == stages,
            Err(e) => r is Err && r->Err_0 == e,
        },
{
    parse_input(input)
}

/// A line that is empty or holds only whitespace describes no pipeline at
/// all (not a pipeline of no stages to be run).
pub proof fn law_blank_line_has_no_pipeline(line: Seq<char>)
    requires
        forall|i: int| 0 <= i < line.len() ==> is_white_space(#[trigger] line[i]),
    ensures
        pipeline_of_line(line) == Ok::<Seq<Stage>, ParseError>(seq![]),
{
    lemma_blank_prefix(line, line.len());
    assert(tokens_of(line) =~= seq![]);
    assert(pipe_groups(tokens_of(line)) == split_prefix(tokens_of(line), 0));
}

pub open spec fn group_views(v: Seq<Vec<String>>) -> Seq<Seq<Seq<char>>> {
    v.map_values(|g: Vec<String>| views(g@))
}

pub open spec fn stage_views(v: Seq<ParsedCommand>) -> Seq<Stage> {
    v.map_values(|c: ParsedCommand| c@)
}

} // verus!
