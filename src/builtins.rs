use vstd::prelude::*;
use vstd::utf8::encode_utf8;

use crate::registry::{history_file_text, CommandRegistry};
use crate::text::{
    append_decimal, append_text, count_of, decimal, decimal_len, join_words, pad_left, parse_count,
    push_char, same_text, spaces,
};
use crate::parser::opt_view;
use crate::tokenizer::views;

verus! {

/// What the shell does after a command line.
#[derive(Debug, Clone, Copy, PartialEq, Eq, Structural)]
pub enum ShellStatus {
    Continue,
    Exit,
}

/// The commands that the shell runs itself.
#[derive(Debug, Clone, Copy, PartialEq, Eq, Structural)]
pub enum Command {
    Echo,
    Exit,
    Pwd,
    Cd,
    Type,
    History,
}

/// The name under which a builtin is called.
pub open spec fn builtin_name(c: Command) -> Seq<char> {
    match c {
        Command::Echo => seq!['e', 'c', 'h', 'o'],
        Command::Exit => seq!['e', 'x', 'i', 't'],
        Command::Pwd => seq!['p', 'w', 'd'],
        Command::Cd => seq!['c', 'd'],
        Command::Type => seq!['t', 'y', 'p', 'e'],
        Command::History => seq!['h', 'i', 's', 't', 'o', 'r', 'y'],
    }
}

/// What `type` reports a builtin to be.
pub open spec fn builtin_kind() -> Seq<char> {
    seq!['s', 'h', 'e', 'l', 'l', ' ', 'b', 'u', 'i', 'l', 't', 'i', 'n']
}

/// Each builtin has a name of its own.
pub proof fn lemma_builtin_names_distinct(a: Command, b: Command)
    ensures
        builtin_name(a) == builtin_name(b) ==> a == b,
{
    if builtin_name(a) == builtin_name(b) {
        assert(builtin_name(a).len() == builtin_name(b).len());
        assert(builtin_name(a)[0] == builtin_name(b)[0]);
        assert(builtin_name(a)[1] == builtin_name(b)[1]);
    }
}

impl Command {
    /// Every builtin, in the order in which the shell registers them.
    pub fn all() -> (r: Vec<Command>)
        ensures
            r@ == seq![
                Command::Type,
                Command::Echo,
                Command::Exit,
                Command::Pwd,
                Command::Cd,
                Command::History,
            ],
    {
        let r = vec![
            Command::Type,
            Command::Echo,
            Command::Exit,
            Command::Pwd,
            Command::Cd,
            Command::History,
        ];
        assert(r@ =~= seq![
            Command::Type,
            Command::Echo,
            Command::Exit,
            Command::Pwd,
            Command::Cd,
            Command::History,
        ]);
        r
    }

    pub fn get_name(&self) -> (r: &'static str)
        ensures
            r@ == builtin_name(*self),
    {
        proof {
            reveal_strlit("echo");
            reveal_strlit("exit");
            reveal_strlit("pwd");
            reveal_strlit("cd");
            reveal_strlit("type");
            reveal_strlit("history");
        }
        match self {
            Command::Echo => {
                assert("echo"@ =~= builtin_name(*self));
                "echo"
            },
            Command::Exit => {
                assert("exit"@ =~= builtin_name(*self));
                "exit"
            },
            Command::Pwd => {
                assert("pwd"@ =~= builtin_name(*self));
                "pwd"
            },
            Command::Cd => {
                assert("cd"@ =~= builtin_name(*self));
                "cd"
            },
            Command::Type => {
                assert("type"@ =~= builtin_name(*self));
                "type"
            },
            Command::History => {
                assert("history"@ =~= builtin_name(*self));
                "history"
            },
        }
    }

    pub fn get_type(&self) -> (r: &'static str)
        ensures
            r@ == builtin_kind(),
    {
        proof {
            reveal_strlit("shell builtin");
        }
        assert("shell builtin"@ =~= builtin_kind());
        "shell builtin"
    }
}


/// What the shell hands to builtins of its own surroundings.
pub struct ShellContext {
    /// The working directory, or why it could not be read.
    pub cwd: Result<String, String>,
    /// The home directory.
    pub home: String,
    /// The file that the history is saved to on exit; empty for none.
    pub histfile: String,
    /// For `type`: where a search of the search path finds each of its
    /// arguments, in order, at the time it runs.
    pub found_on_path: Vec<Option<String>>,
}

/// The views of the search results in a context.
pub open spec fn found_views(found: Seq<Option<String>>) -> Seq<Option<Seq<char>>> {
    found.map_values(|o: Option<String>| opt_view(o))
}

/// Work outside the shell that a builtin asks for.
pub enum Effect {
    Nothing,
    /// Make this directory the working directory.
    ChangeDir(String),
    /// Write `text` to the file at `path`, after what it holds if `append`.
    WriteHistory { path: String, append: bool, text: String },
    /// Read the file at `path` and append its lines to the history.
    ReadHistory(String),
}

/// What a builtin came to: its result, what it wrote, and the work it asks for.
pub struct BuiltinRun {
    pub result: Result<ShellStatus, String>,
    pub output: Vec<u8>,
    pub effect: Effect,
}

/// A builtin run that wrote `text` and asks for nothing more.
pub open spec fn plain_run(r: BuiltinRun, result: Result<ShellStatus, String>, text: Seq<char>) -> bool {
    &&& r.result == result
    &&& r.output@ == encode_utf8(text)
    &&& r.effect is Nothing
}

/// A builtin run that failed with `msg` and wrote nothing.
pub open spec fn failed_run(r: BuiltinRun, msg: Seq<char>) -> bool {
    &&& r.result is Err
    &&& r.result->Err_0@ == msg
    &&& r.output@.len() == 0
    &&& r.effect is Nothing
}

/// The bytes of a text.
fn text_bytes(s: &String) -> (r: Vec<u8>)
    ensures
        r@ == encode_utf8(s@),
{
    s.as_str().as_bytes_vec()
}

fn finished(result: Result<ShellStatus, String>, text: &String, effect: Effect) -> (r: BuiltinRun)
    ensures
        r.result == result,
        r.output@ == encode_utf8(text@),
        r.effect == effect,
{
    BuiltinRun { result, output: text_bytes(text), effect }
}

fn failure(msg: String) -> (r: BuiltinRun)
    ensures
        failed_run(r, msg@),
{
    let output: Vec<u8> = Vec::new();
    BuiltinRun { result: Err(msg), output, effect: Effect::Nothing }
}

/// `a` followed by `b`.
fn joined(a: &str, b: &str) -> (r: String)
    ensures
        r@ == a@ + b@,
{
    let mut r = String::new();
    append_text(&mut r, a);
    append_text(&mut r, b);
    assert(r@ =~= a@ + b@);
    r
}

/// What `echo` does: writes its arguments, separated by spaces, and a newline.
pub open spec fn echo_run(r: BuiltinRun, args: Seq<Seq<char>>) -> bool {
    plain_run(r, Ok(ShellStatus::Continue), join_words(args).push('\n'))
}

/// `echo`: writes its arguments, separated by spaces, and a newline.
pub struct EchoCommand;

impl EchoCommand {
    pub fn execute(&self, args: &Vec<String>) -> (r: BuiltinRun)
        ensures
            echo_run(r, views(args@)),
    {
        let mut text = String::new();
        let mut i: usize = 0;
        while i < args.len()
            invariant
                i <= args.len(),
                text@ == join_words(views(args@).subrange(0, i as int)),
            decreases args.len() - i,
        {
            let ghost sub = views(args@).subrange(0, i + 1);
            assert(sub.drop_last() =~= views(args@).subrange(0, i as int));
            if i > 0 {
                push_char(&mut text, ' ');
            }
            append_text(&mut text, args[i].as_str());
            i = i + 1;
        }
        assert(views(args@).subrange(0, i as int) =~= views(args@));
        push_char(&mut text, '\n');
        finished(Ok(ShellStatus::Continue), &text, Effect::Nothing)
    }
}

/// What `exit` does: ends the session, and asks to append the history to
/// the history file where one is set.
pub open spec fn exit_run(r: BuiltinRun, registry: CommandRegistry, context: ShellContext) -> bool {
    &&& r.result == Ok::<ShellStatus, String>(ShellStatus::Exit)
    &&& r.output@.len() == 0
    &&& context.histfile@.len() == 0 ==> r.effect is Nothing
    &&& context.histfile@.len() > 0 ==> match r.effect {
        Effect::WriteHistory { path, append, text } => path@ == context.histfile@ && append
            && text@ == history_file_text(registry.history_lines()),
        _ => false,
    }
}

/// `exit`: ends the session, saving the history where a history file is set.
pub struct ExitCommand;

impl ExitCommand {
    pub fn execute(&self, registry: &CommandRegistry, context: &ShellContext) -> (r: BuiltinRun)
        ensures
            exit_run(r, *registry, *context),
    {
        let output: Vec<u8> = Vec::new();
        let effect = if context.histfile.as_str().unicode_len() > 0 {
            Effect::WriteHistory {
                path: context.histfile.clone(),
                append: true,
                text: registry.history_text(),
            }
        } else {
            Effect::Nothing
        };
        BuiltinRun { result: Ok(ShellStatus::Exit), output, effect }
    }
}

/// What `pwd` does: writes the working directory and a newline.
pub open spec fn pwd_run(r: BuiltinRun, context: ShellContext) -> bool {
    &&& context.cwd is Ok ==> plain_run(
        r,
        Ok(ShellStatus::Continue),
        context.cwd->Ok_0@.push('\n'),
    )
    &&& context.cwd is Err ==> failed_run(
        r,
        "pwd: failed to get current directory: "@ + context.cwd->Err_0@,
    )
}

/// `pwd`: writes the working directory.
pub struct PwdCommand;

impl PwdCommand {
    pub fn execute(&self, context: &ShellContext) -> (r: BuiltinRun)
        ensures
            pwd_run(r, *context),
    {
        match &context.cwd {
            Ok(dir) => {
                let mut text = String::new();
                append_text(&mut text, dir.as_str());
                push_char(&mut text, '\n');
                assert(text@ =~= dir@.push('\n'));
                finished(Ok(ShellStatus::Continue), &text, Effect::Nothing)
            },
            Err(cause) => failure(joined("pwd: failed to get current directory: ", cause.as_str())),
        }
    }
}


/// The directory that `cd` moves to for its argument: `~` is the home directory.
pub open spec fn cd_target(arg: Seq<char>, home: Seq<char>) -> Seq<char> {
    if arg == seq!['~'] {
        home
    } else {
        arg
    }
}

/// What `cd` does: asks to move to the directory its first argument names,
/// if it has one.
pub open spec fn cd_run(r: BuiltinRun, args: Seq<Seq<char>>, context: ShellContext) -> bool {
    &&& quiet_run(r)
    &&& args.len() == 0 ==> r.effect is Nothing
    &&& args.len() > 0 ==> match r.effect {
        Effect::ChangeDir(dir) => dir@ == cd_target(args[0], context.home@),
        _ => false,
    }
}

/// `cd`: moves to another working directory.
pub struct CdCommand;

impl CdCommand {
    pub fn execute(&self, args: &Vec<String>, context: &ShellContext) -> (r: BuiltinRun)
        ensures
            cd_run(r, views(args@), *context),
    {
        let output: Vec<u8> = Vec::new();
        if args.len() == 0 {
            return BuiltinRun { result: Ok(ShellStatus::Continue), output, effect: Effect::Nothing };
        }
        let arg = args[0].as_str();
        let n = arg.unicode_len();
        let home = n == 1 && arg.get_char(0) == '~';
        assert(home == (args@[0]@ == seq!['~'])) by {
            if n == 1 && arg@[0] == '~' {
                assert(args@[0]@ =~= seq!['~']);
            }
        }
        let dir = if home {
            context.home.clone()
        } else {
            args[0].clone()
        };
        BuiltinRun { result: Ok(ShellStatus::Continue), output, effect: Effect::ChangeDir(dir) }
    }

    /// The message for a directory that could not be entered.
    pub fn failure_message(dir: &str) -> (r: String)
        ensures
            r@ == "cd: "@ + dir@ + ": No such file or directory"@,
    {
        let mut r = joined("cd: ", dir);
        append_text(&mut r, ": No such file or directory");
        r
    }
}

/// What `type` says of one name, given where the search path has it.
pub open spec fn type_line(registry: CommandRegistry, name: Seq<char>, found: Option<Seq<char>>) -> Seq<
    char,
> {
    if registry.builtin(name) is Some {
        (name + " is a "@ + builtin_kind()).push('\n')
    } else if found is Some {
        (name + " is "@ + found->Some_0).push('\n')
    } else {
        (name + ": not found"@).push('\n')
    }
}

/// What `type` says of each of `names`, in order.
pub open spec fn type_text(
    registry: CommandRegistry,
    names: Seq<Seq<char>>,
    found: Seq<Option<Seq<char>>>,
) -> Seq<char>
    decreases names.len(),
{
    if names.len() == 0 {
        seq![]
    } else {
        type_text(registry, names.drop_last(), found.drop_last()) + type_line(
            registry,
            names.last(),
            found.last(),
        )
    }
}

/// What `type` does: says how each name would run.
pub open spec fn type_run(
    r: BuiltinRun,
    args: Seq<Seq<char>>,
    registry: CommandRegistry,
    found: Seq<Option<Seq<char>>>,
) -> bool {
    &&& args.len() == 0 ==> failed_run(r, "type: missing argument"@)
    &&& args.len() > 0 ==> plain_run(
        r,
        Ok(ShellStatus::Continue),
        type_text(registry, args, found),
    )
}

/// `type`: tells, for each name, how the shell would run it.
pub struct TypeCommand;

impl TypeCommand {
    pub fn execute(&self, args: &Vec<String>, registry: &CommandRegistry, context: &ShellContext) -> (r:
        BuiltinRun)
        requires
            context.found_on_path.len() == args.len(),
        ensures
            type_run(r, views(args@), *registry, found_views(context.found_on_path@)),
    {
        let ghost found = found_views(context.found_on_path@);
        if args.len() == 0 {
            return failure(String::from_str("type: missing argument"));
        }
        let mut text = String::new();
        let mut i: usize = 0;
        while i < args.len()
            invariant
                i <= args.len(),
                context.found_on_path.len() == args.len(),
                found == found_views(context.found_on_path@),
                text@ == type_text(
                    *registry,
                    views(args@).subrange(0, i as int),
                    found.subrange(0, i as int),
                ),
            decreases args.len() - i,
        {
            assert(views(args@).subrange(0, i + 1).drop_last() =~= views(args@).subrange(0, i as int));
            assert(found.subrange(0, i + 1).drop_last() =~= found.subrange(0, i as int));
            let ghost before = text@;
            let name = args[i].as_str();
            if let Some(c) = registry.get_builtin(name) {
                append_text(&mut text, name);
                append_text(&mut text, " is a ");
                append_text(&mut text, c.get_type());
            } else if let Some(path) = &context.found_on_path[i] {
                append_text(&mut text, name);
                append_text(&mut text, " is ");
                append_text(&mut text, path.as_str());
            } else {
                append_text(&mut text, name);
                append_text(&mut text, ": not found");
            }
            push_char(&mut text, '\n');
            assert(text@ =~= before + type_line(*registry, args@[i as int]@, found[i as int]));
            i = i + 1;
        }
        assert(views(args@).subrange(0, i as int) =~= views(args@));
        assert(found.subrange(0, i as int) =~= found);
        finished(Ok(ShellStatus::Continue), &text, Effect::Nothing)
    }
}


/// One line of the history listing: its number, right-aligned in five
/// columns, two spaces, and the entry.
pub open spec fn history_line(i: nat, entry: Seq<char>) -> Seq<char> {
    (pad_left(decimal(i + 1), 5) + "  "@ + entry).push('\n')
}

/// The listing of entries `start..end` of the history.
pub open spec fn listing(h: Seq<Seq<char>>, start: nat, end: nat) -> Seq<char>
    decreases end,
{
    if end <= start || end > h.len() {
        seq![]
    } else {
        listing(h, start, (end - 1) as nat) + history_line((end - 1) as nat, h[end - 1])
    }
}

/// Where a listing of the last `limit` of `len` entries starts.
pub open spec fn listing_start(len: nat, limit: nat) -> nat {
    if limit >= len {
        0
    } else {
        (len - limit) as nat
    }
}

/// A run that succeeded, wrote nothing, and asks for `effect`.
pub open spec fn quiet_run(r: BuiltinRun) -> bool {
    &&& r.result == Ok::<ShellStatus, String>(ShellStatus::Continue)
    &&& r.output@.len() == 0
}

/// `r` asks to write the history `h` to `path`.
pub open spec fn writes_history(r: BuiltinRun, path: Seq<char>, append: bool, h: Seq<Seq<char>>) -> bool {
    &&& quiet_run(r)
    &&& match r.effect {
        Effect::WriteHistory { path: p, append: a, text } => p@ == path && a == append && text@
            == history_file_text(h),
        _ => false,
    }
}

/// `r` asks to read the history file at `path`.
pub open spec fn reads_history(r: BuiltinRun, path: Seq<char>) -> bool {
    &&& quiet_run(r)
    &&& match r.effect {
        Effect::ReadHistory(p) => p@ == path,
        _ => false,
    }
}

/// What `history` does with an option that takes a file: `-w` writes the
/// history there, `-a` appends it, `-r` reads it.
pub open spec fn history_file_run(
    r: BuiltinRun,
    option: Seq<char>,
    args: Seq<Seq<char>>,
    h: Seq<Seq<char>>,
) -> bool {
    if args.len() < 2 {
        failed_run(r, "history: "@ + option + ": argument required"@)
    } else if option == "-r"@ {
        reads_history(r, args[1])
    } else {
        writes_history(r, args[1], option == "-a"@, h)
    }
}

/// What `history` lists: all entries, or the last as many as its first
/// argument says.
pub open spec fn listing_run(r: BuiltinRun, args: Seq<Seq<char>>, h: Seq<Seq<char>>) -> bool {
    if args.len() == 0 {
        plain_run(r, Ok(ShellStatus::Continue), listing(h, 0, h.len()))
    } else {
        match count_of(args[0]) {
            None => failed_run(r, "history: "@ + args[0] + ": numeric argument required"@),
            Some(k) => plain_run(
                r,
                Ok(ShellStatus::Continue),
                listing(h, listing_start(h.len(), k), h.len()),
            ),
        }
    }
}

/// What `history` does with its arguments.
pub open spec fn history_run(r: BuiltinRun, args: Seq<Seq<char>>, h: Seq<Seq<char>>) -> bool {
    if args.len() > 0 && (args[0] == "-w"@ || args[0] == "-a"@ || args[0] == "-r"@) {
        history_file_run(r, args[0], args, h)
    } else {
        listing_run(r, args, h)
    }
}

/// `history`: lists the lines entered so far, or writes them to, appends
/// them to, or reads them from a file.
pub struct HistoryCommand;

impl HistoryCommand {
    pub fn execute(&self, args: &Vec<String>, registry: &CommandRegistry) -> (r: BuiltinRun)
        ensures
            history_run(r, views(args@), registry.history_lines()),
    {
        if args.len() > 0 {
            let option = args[0].as_str();
            let w = same_text(option, "-w");
            let a = same_text(option, "-a");
            let rd = same_text(option, "-r");
            if w || a || rd {
                if args.len() < 2 {
                    let mut msg = joined("history: ", option);
                    append_text(&mut msg, ": argument required");
                    return failure(msg);
                }
                let output: Vec<u8> = Vec::new();
                let path = args[1].clone();
                let effect = if rd {
                    Effect::ReadHistory(path)
                } else {
                    Effect::WriteHistory { path, append: a, text: registry.history_text() }
                };
                return BuiltinRun { result: Ok(ShellStatus::Continue), output, effect };
            }
        }
        self.list_history(args, registry)
    }

    /// Lists the history, or its last entries.
    fn list_history(&self, args: &Vec<String>, registry: &CommandRegistry) -> (r: BuiltinRun)
        ensures
            listing_run(r, views(args@), registry.history_lines()),
    {
        let history = registry.get_history();
        let ghost h = registry.history_lines();
        let len = history.len();
        let limit = if args.len() > 0 {
            match parse_count(args[0].as_str()) {
                Some(k) => k,
                None => {
                    let mut msg = joined("history: ", args[0].as_str());
                    append_text(&mut msg, ": numeric argument required");
                    return failure(msg);
                },
            }
        } else {
            len
        };
        let start = if limit >= len {
            0
        } else {
            len - limit
        };
        let mut text = String::new();
        let mut i: usize = start;
        while i < len
            invariant
                len == history.len(),
                h == views(history@),
                start <= i <= len,
                text@ == listing(h, start as nat, i as nat),
            decreases len - i,
        {
            let ghost before = text@;
            let number = i + 1;
            let width = decimal_len(number);
            let mut pad: usize = width;
            let ghost padded_from = text@;
            while pad < 5
                invariant
                    width <= pad <= 5 || (pad == width && width > 5),
                    text@ == padded_from + spaces((pad - width) as nat),
                decreases 5 - pad,
            {
                push_char(&mut text, ' ');
                assert(text@ =~= padded_from + spaces((pad + 1 - width) as nat));
                pad = pad + 1;
            }
            let ghost spaced = text@;
            append_decimal(&mut text, number);
            append_text(&mut text, "  ");
            append_text(&mut text, history[i].as_str());
            push_char(&mut text, '\n');
            assert(text@ =~= before + history_line(i as nat, h[i as int])) by {
                if width < 5 {
                    assert(spaced =~= before + spaces((5 - width) as nat));
                } else {
                    assert(spaced =~= before);
                }
            }
            i = i + 1;
        }
        finished(Ok(ShellStatus::Continue), &text, Effect::Nothing)
    }
}


/// What the builtin `c` does.
pub open spec fn builtin_run(
    c: Command,
    r: BuiltinRun,
    args: Seq<Seq<char>>,
    registry: CommandRegistry,
    context: ShellContext,
) -> bool {
    match c {
        Command::Echo => echo_run(r, args),
        Command::Exit => exit_run(r, registry, context),
        Command::Pwd => pwd_run(r, context),
        Command::Cd => cd_run(r, args, context),
        Command::Type => type_run(r, args, registry, found_views(context.found_on_path@)),
        Command::History => history_run(r, args, registry.history_lines()),
    }
}

impl Command {
    /// Runs this builtin with `args`; its output is collected, never written
    /// anywhere by the builtin itself.
    pub fn execute(&self, args: &Vec<String>, registry: &CommandRegistry, context: &ShellContext) -> (r:
        BuiltinRun)
        requires
            *self == Command::Type ==> context.found_on_path.len() == args.len(),
        ensures
            builtin_run(*self, r, views(args@), *registry, *context),
    {
        match self {
            Command::Echo => EchoCommand.execute(args),
            Command::Exit => ExitCommand.execute(registry, context),
            Command::Pwd => PwdCommand.execute(context),
            Command::Cd => CdCommand.execute(args, context),
            Command::Type => TypeCommand.execute(args, registry, context),
            Command::History => HistoryCommand.execute(args, registry),
        }
    }
}

/// The result of a builtin whose effect could not be carried out because
/// of `cause`: `cd` reports the directory, `exit` exits all the same, and
/// the others fail with the cause.
pub open spec fn result_after_failed_effect(
    effect: Effect,
    result: Result<ShellStatus, String>,
    cause: Seq<char>,
) -> Result<ShellStatus, Seq<char>> {
    match effect {
        Effect::Nothing => match result {
            Ok(st) => Ok(st),
            Err(m) => Err(m@),
        },
        Effect::ChangeDir(dir) => Err("cd: "@ + dir@ + ": No such file or directory"@),
        _ => if result == Ok::<ShellStatus, String>(ShellStatus::Exit) {
            Ok(ShellStatus::Exit)
        } else {
            Err(cause)
        },
    }
}

impl BuiltinRun {
    /// The result once the effect has failed because of `cause`.
    pub fn effect_failed(self, cause: String) -> (r: Result<ShellStatus, String>)
        ensures
            match result_after_failed_effect(self.effect, self.result, cause@) {
                Ok(st) => r == Ok::<ShellStatus, String>(st),
                Err(m) => r is Err && r->Err_0@ == m,
            },
    {
        match self.effect {
            Effect::Nothing => self.result,
            Effect::ChangeDir(dir) => Err(CdCommand::failure_message(dir.as_str())),
            _ => match self.result {
                Ok(ShellStatus::Exit) => Ok(ShellStatus::Exit),
                _ => Err(cause),
            },
        }
    }
}

} // verus!
