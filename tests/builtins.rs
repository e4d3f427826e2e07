use shell::{
    first_executable, path_candidates, split_lines, split_search_path, CdCommand, Command, CommandRegistry, Effect, HistoryCommand,
    PwdCommand, ShellContext, ShellHelper, ShellStatus, TypeCommand,
};

fn strings(v: &[&str]) -> Vec<String> {
    v.iter().map(|s| s.to_string()).collect()
}

fn context() -> ShellContext {
    ShellContext { cwd: Ok("/home/u/src".to_string()), home: "/home/u".to_string(), histfile: String::new(), found_on_path: Vec::new() }
}

fn text(out: &[u8]) -> String {
    String::from_utf8(out.to_vec()).unwrap()
}

#[test]
fn echo_joins_arguments() {
    let reg = CommandRegistry::default();
    let r = Command::Echo.execute(&strings(&["a", "b c", ""]), &reg, &context());
    assert_eq!(text(&r.output), "a b c \n");
    let r = Command::Echo.execute(&Vec::new(), &reg, &context());
    assert_eq!(text(&r.output), "\n");
    assert!(matches!(r.result, Ok(ShellStatus::Continue)));
}

#[test]
fn echo_writes_utf8_bytes() {
    let reg = CommandRegistry::default();
    let r = Command::Echo.execute(&strings(&["é"]), &reg, &context());
    assert_eq!(r.output, vec![0xc3, 0xa9, b'\n']);
}

#[test]
fn type_reports_each_name() {
    let mut reg = CommandRegistry::default();
    reg.register_executable("ls", "/bin/ls");
    let mut ctx = context();
    ctx.found_on_path = vec![None, Some("/usr/bin/ls".to_string()), None];
    let r = TypeCommand.execute(&strings(&["echo", "ls", "nope"]), &reg, &ctx);
    assert_eq!(text(&r.output), "echo is a shell builtin\nls is /usr/bin/ls\nnope: not found\n");
    let r = TypeCommand.execute(&Vec::new(), &reg, &context());
    assert_eq!(r.result, Err("type: missing argument".to_string()));
    assert!(r.output.is_empty());
}

#[test]
fn pwd_writes_directory() {
    let r = PwdCommand.execute(&context());
    assert_eq!(text(&r.output), "/home/u/src\n");
    let ctx = ShellContext { cwd: Err("gone".to_string()), home: String::new(), histfile: String::new(), found_on_path: Vec::new() };
    let r = PwdCommand.execute(&ctx);
    assert_eq!(r.result, Err("pwd: failed to get current directory: gone".to_string()));
}

#[test]
fn cd_targets() {
    let r = CdCommand.execute(&strings(&["~"]), &context());
    assert!(matches!(&r.effect, Effect::ChangeDir(d) if d == "/home/u"));
    let r = CdCommand.execute(&strings(&["/tmp"]), &context());
    assert!(matches!(&r.effect, Effect::ChangeDir(d) if d == "/tmp"));
    let failed = r.effect_failed("os".to_string());
    assert_eq!(failed, Err("cd: /tmp: No such file or directory".to_string()));
    let r = CdCommand.execute(&Vec::new(), &context());
    assert!(matches!(r.effect, Effect::Nothing));
}

#[test]
fn history_lists_numbered_entries() {
    let mut reg = CommandRegistry::default();
    reg.add_history_entry("ls");
    reg.add_history_entry("echo hi");
    reg.add_history_entry("history 2");
    let r = HistoryCommand.execute(&Vec::new(), &reg);
    assert_eq!(text(&r.output), "    1  ls\n    2  echo hi\n    3  history 2\n");
    let r = HistoryCommand.execute(&strings(&["2"]), &reg);
    assert_eq!(text(&r.output), "    2  echo hi\n    3  history 2\n");
    let r = HistoryCommand.execute(&strings(&["+10"]), &reg);
    assert_eq!(text(&r.output), "    1  ls\n    2  echo hi\n    3  history 2\n");
    let r = HistoryCommand.execute(&strings(&["0"]), &reg);
    assert_eq!(text(&r.output), "");
}

#[test]
fn history_rejects_non_numbers() {
    let reg = CommandRegistry::default();
    let r = HistoryCommand.execute(&strings(&["x1"]), &reg);
    assert_eq!(r.result, Err("history: x1: numeric argument required".to_string()));
    let r = HistoryCommand.execute(&strings(&["99999999999999999999999"]), &reg);
    assert!(r.result.is_err());
    let r = HistoryCommand.execute(&strings(&["-5"]), &reg);
    assert!(r.result.is_err());
}

#[test]
fn history_file_options() {
    let mut reg = CommandRegistry::default();
    reg.add_history_entry("a");
    reg.add_history_entry("b");
    let r = HistoryCommand.execute(&strings(&["-w", "h.txt"]), &reg);
    match &r.effect {
        Effect::WriteHistory { path, append, text } => {
            assert_eq!(path, "h.txt");
            assert!(!append);
            assert_eq!(text, "a\nb\n");
        }
        _ => panic!("expected a write"),
    }
    let r = HistoryCommand.execute(&strings(&["-a", "h.txt"]), &reg);
    assert!(matches!(&r.effect, Effect::WriteHistory { append: true, .. }));
    let r = HistoryCommand.execute(&strings(&["-r", "h.txt"]), &reg);
    assert!(matches!(&r.effect, Effect::ReadHistory(p) if p == "h.txt"));
    let r = HistoryCommand.execute(&strings(&["-w"]), &reg);
    assert_eq!(r.result, Err("history: -w: argument required".to_string()));
}

#[test]
fn exit_saves_history_when_file_set() {
    let mut reg = CommandRegistry::default();
    reg.add_history_entry("ls");
    let ctx = ShellContext { cwd: Ok("/".to_string()), home: String::new(), histfile: "/h".to_string(), found_on_path: Vec::new() };
    let r = Command::Exit.execute(&Vec::new(), &reg, &ctx);
    assert_eq!(r.result, Ok(ShellStatus::Exit));
    assert!(matches!(&r.effect, Effect::WriteHistory { path, append: true, text } if path == "/h" && text == "ls\n"));
    assert_eq!(r.effect_failed("disk".to_string()), Ok(ShellStatus::Exit));
    let r = Command::Exit.execute(&Vec::new(), &reg, &context());
    assert!(matches!(r.effect, Effect::Nothing));
}

#[test]
fn registry_first_directory_wins() {
    let mut reg = CommandRegistry::new();
    reg.register_scanned("/bin", "ls", 0o755);
    reg.register_scanned("/usr/bin", "ls", 0o755);
    reg.register_scanned("/bin", "notes", 0o644);
    reg.register_scanned("/bin", "run", 0o100);
    assert_eq!(reg.get_executable("ls").map(|s| s.as_str()), Some("/bin/ls"));
    assert!(reg.get_executable("notes").is_none());
    assert_eq!(reg.get_executable("run").map(|s| s.as_str()), Some("/bin/run"));
    assert!(reg.get_builtin("echo").is_none());
}

#[test]
fn registry_builtins_by_name() {
    let reg = CommandRegistry::default();
    for c in Command::all() {
        assert_eq!(reg.get_builtin(c.get_name()), Some(c));
        assert_eq!(c.get_type(), "shell builtin");
    }
    assert_eq!(reg.get_builtin("ech"), None);
}

#[test]
fn history_lines_round_trip() {
    let mut reg = CommandRegistry::new();
    reg.load_history_text("a\r\nb\n\nc");
    assert_eq!(reg.get_history(), strings(&["a", "b", "", "c"]));
    reg.load_history_text("");
    assert_eq!(reg.get_history().len(), 4);
    assert_eq!(reg.history_text(), "a\nb\n\nc\n");
    assert_eq!(split_lines("x\n"), strings(&["x"]));
}

#[test]
fn search_path_parts() {
    assert_eq!(split_search_path("/bin::/usr/bin"), strings(&["/bin", "", "/usr/bin"]));
    assert_eq!(split_search_path(""), strings(&[""]));
}

#[test]
fn completion_candidates() {
    let helper = ShellHelper::new(strings(&["echo", "exit", "pwd"]));
    let c = helper.complete("e");
    let shown: Vec<&str> = c.iter().map(|c| c.display()).collect();
    let replaced: Vec<&str> = c.iter().map(|c| c.replacement()).collect();
    assert_eq!(shown, vec!["echo", "exit"]);
    assert_eq!(replaced, vec!["echo ", "exit "]);
    assert!(helper.complete("").is_empty());
    assert!(helper.complete("x").is_empty());
}

#[test]
fn command_names_sorted_and_unique() {
    let mut reg = CommandRegistry::default();
    reg.register_executable("ls", "/bin/ls");
    reg.register_executable("echo", "/bin/echo");
    reg.register_executable("Zed", "/bin/Zed");
    assert_eq!(
        reg.get_command_names(),
        strings(&["Zed", "cd", "echo", "exit", "history", "ls", "pwd", "type"])
    );
}

#[test]
fn path_search_takes_first_executable() {
    let c = path_candidates("/bin::/usr/bin", "ls");
    assert_eq!(c, strings(&["/bin/ls", "/ls", "/usr/bin/ls"]));
    let modes = vec![Some(0o644), None, Some(0o755)];
    assert_eq!(first_executable(&c, &modes), Some("/usr/bin/ls".to_string()));
    assert_eq!(first_executable(&c, &vec![Some(0o711), None, None]), Some("/bin/ls".to_string()));
    assert_eq!(first_executable(&c, &vec![None, Some(0o600), None]), None);
}
