pub mod text;
pub mod tokenizer;
pub mod parser;
pub mod builtins;
pub mod registry;
pub mod executor;
pub mod completion;

pub use builtins::{
    BuiltinRun, CdCommand, Command, EchoCommand, Effect, ExitCommand, HistoryCommand, PwdCommand,
    ShellContext, ShellStatus, TypeCommand,
};
pub use completion::{CustomCandidate, ShellHelper};
pub use executor::{
    Action, Delivery, Dispatch, ExecError, Phase, PipeState, PipelineRun, ShellExecutor, StreamTo,
};
pub use parser::{parse_command_line, parse_input, parse_stage, ParseError, ParsedCommand};
pub use registry::{
    first_executable, path_candidates, split_lines, split_search_path, CommandRegistry,
};
pub use tokenizer::tokenize_input;
