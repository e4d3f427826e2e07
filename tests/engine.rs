use shell::{
    parse_input, Action, Command, CommandRegistry, ExecError, PipeState, ShellExecutor,
    ShellStatus, StreamTo,
};

fn registry() -> CommandRegistry {
    let mut r = CommandRegistry::default();
    r.register_executable("cat", "/bin/cat");
    r.register_executable("a", "/bin/a");
    r.register_executable("b", "/bin/b");
    r.register_executable("c", "/bin/c");
    r
}

#[test]
fn three_externals_pipe_all_but_last() {
    let reg = registry();
    let exec = ShellExecutor::new(&reg);
    let stages = parse_input("a | b | c").unwrap();
    let mut run = exec.run::<u32>(&stages);
    let mut outs = Vec::new();
    for id in 0..3u32 {
        match run.next_action() {
            Action::Spawn { stdin, stdout, stderr_to_file } => {
                assert!(!stderr_to_file);
                match (id, stdin) {
                    (0, PipeState::Nothing) => {}
                    (1, PipeState::ExternalProcess(0)) => {}
                    (2, PipeState::ExternalProcess(1)) => {}
                    _ => panic!("unexpected input for stage {}", id),
                }
                outs.push(stdout);
            }
            _ => panic!("expected a spawn"),
        }
        let back = run.external_started(id);
        assert_eq!(back, if id == 2 { Some(2) } else { None });
    }
    assert_eq!(outs, vec![StreamTo::NextStage, StreamTo::NextStage, StreamTo::Terminal]);
    match run.next_action() {
        Action::Finish { result: Ok(ShellStatus::Continue), wait_for: None } => {}
        _ => panic!("expected the end"),
    }
}

#[test]
fn builtin_output_feeds_external_exactly() {
    let reg = registry();
    let exec = ShellExecutor::new(&reg);
    let stages = parse_input("echo hi there | cat").unwrap();
    let mut run = exec.run::<u32>(&stages);
    let cmd = match run.next_action() {
        Action::RunBuiltin { command } => command,
        _ => panic!("expected a builtin"),
    };
    assert_eq!(cmd, Command::Echo);
    let ctx = shell::ShellContext { cwd: Ok("/".to_string()), home: String::new(), histfile: String::new(), found_on_path: Vec::new() };
    let out = cmd.execute(&stages[0].args, &reg, &ctx);
    assert_eq!(out.output, b"hi there\n".to_vec());
    let delivery = run.builtin_finished(out.result, out.output);
    assert!(delivery.output.is_none());
    assert!(delivery.error_line.is_none());
    match run.next_action() {
        Action::Spawn { stdin: PipeState::CapturedBytes(bytes), stdout: StreamTo::Terminal, .. } => {
            assert_eq!(bytes, b"hi there\n".to_vec());
        }
        _ => panic!("expected the captured bytes"),
    }
}

#[test]
fn captured_bytes_are_not_changed() {
    let reg = registry();
    let exec = ShellExecutor::new(&reg);
    let stages = parse_input("echo x | cat").unwrap();
    let mut run = exec.run::<u32>(&stages);
    let _ = run.next_action();
    let bytes = vec![0u8, 255, 10, 13, 0];
    run.builtin_finished(Ok(ShellStatus::Continue), bytes.clone());
    match run.next_action() {
        Action::Spawn { stdin: PipeState::CapturedBytes(b), .. } => assert_eq!(b, bytes),
        _ => panic!("expected the captured bytes"),
    }
}

#[test]
fn unknown_command_stops_the_pipeline() {
    let reg = registry();
    let exec = ShellExecutor::new(&reg);
    let stages = parse_input("a | nosuch | c").unwrap();
    let mut run = exec.run::<u32>(&stages);
    assert!(matches!(run.next_action(), Action::Spawn { .. }));
    assert_eq!(run.external_started(7), None);
    match run.next_action() {
        Action::Finish { result: Err(e), wait_for: None } => {
            assert!(matches!(&e, ExecError::CommandNotFound(n) if n == "nosuch"));
            assert_eq!(e.message(), "nosuch: command not found");
        }
        _ => panic!("expected the end"),
    }
    assert_eq!(run.current(), 1);
}

#[test]
fn redirected_stage_leaves_nothing_for_next() {
    let reg = registry();
    let exec = ShellExecutor::new(&reg);
    let stages = parse_input("echo hi > f.txt | cat").unwrap();
    let mut run = exec.run::<u32>(&stages);
    let _ = run.next_action();
    let d = run.builtin_finished(Ok(ShellStatus::Continue), b"hi\n".to_vec());
    assert_eq!(d.output, Some((StreamTo::File, b"hi\n".to_vec())));
    match run.next_action() {
        Action::Spawn { stdin: PipeState::Nothing, .. } => {}
        _ => panic!("the next stage reads the shell's input"),
    }
}

#[test]
fn redirected_external_is_waited_for() {
    let reg = registry();
    let exec = ShellExecutor::new(&reg);
    let stages = parse_input("a > f.txt | b").unwrap();
    let mut run = exec.run::<u32>(&stages);
    match run.next_action() {
        Action::Spawn { stdout, .. } => assert_eq!(stdout, StreamTo::File),
        _ => panic!("expected a spawn"),
    }
    assert_eq!(run.external_started(3), Some(3));
    assert!(matches!(run.next_action(), Action::Spawn { stdin: PipeState::Nothing, .. }));
}

#[test]
fn exit_ends_the_pipeline_at_once() {
    let reg = registry();
    let exec = ShellExecutor::new(&reg);
    let stages = parse_input("exit | cat").unwrap();
    let mut run = exec.run::<u32>(&stages);
    assert!(matches!(run.next_action(), Action::RunBuiltin { command: Command::Exit }));
    run.builtin_finished(Ok(ShellStatus::Exit), Vec::new());
    assert!(matches!(
        run.next_action(),
        Action::Finish { result: Ok(ShellStatus::Exit), wait_for: None }
    ));
}

#[test]
fn builtin_error_goes_to_error_file() {
    let reg = registry();
    let exec = ShellExecutor::new(&reg);
    let stages = parse_input("type 2> err.txt").unwrap();
    let mut run = exec.run::<u32>(&stages);
    assert!(matches!(run.next_action(), Action::RunBuiltin { command: Command::Type }));
    let d = run.builtin_finished(Err("type: missing argument".to_string()), Vec::new());
    assert_eq!(d.error_line.as_deref(), Some("type: missing argument\n"));
    assert!(matches!(
        run.next_action(),
        Action::Finish { result: Ok(ShellStatus::Continue), wait_for: None }
    ));
}

#[test]
fn builtin_error_without_redirect_aborts() {
    let reg = registry();
    let exec = ShellExecutor::new(&reg);
    let stages = parse_input("type | cat").unwrap();
    let mut run = exec.run::<u32>(&stages);
    let _ = run.next_action();
    let d = run.builtin_finished(Err("type: missing argument".to_string()), Vec::new());
    assert!(d.error_line.is_none());
    match run.next_action() {
        Action::Finish { result: Err(ExecError::Builtin(m)), .. } => {
            assert_eq!(m, "type: missing argument")
        }
        _ => panic!("expected the builtin's error"),
    }
}

#[test]
fn spawn_failure_ends_the_pipeline() {
    let reg = registry();
    let exec = ShellExecutor::new(&reg);
    let stages = parse_input("a | b").unwrap();
    let mut run = exec.run::<u32>(&stages);
    let _ = run.next_action();
    run.fail(ExecError::SpawnFailed { command: "a".to_string(), cause: "denied".to_string() });
    match run.next_action() {
        Action::Finish { result: Err(e), .. } => {
            assert_eq!(e.message(), "Failed to start a: denied")
        }
        _ => panic!("expected the failure"),
    }
    let open = ExecError::OpenFailed { path: "x".to_string(), cause: "no".to_string() };
    assert_eq!(open.message(), "Failed to open x: no");
}

#[test]
fn empty_pipeline_continues() {
    let reg = registry();
    let exec = ShellExecutor::new(&reg);
    let stages = Vec::new();
    let mut run = exec.run::<u32>(&stages);
    assert!(matches!(
        run.next_action(),
        Action::Finish { result: Ok(ShellStatus::Continue), wait_for: None }
    ));
}

#[test]
fn builtins_shadow_executables() {
    let mut reg = registry();
    reg.register_executable("echo", "/bin/echo");
    let exec = ShellExecutor::new(&reg);
    assert_eq!(exec.dispatch("echo"), shell::Dispatch::Builtin(Command::Echo));
    assert_eq!(exec.dispatch("cat"), shell::Dispatch::External);
    assert_eq!(exec.dispatch("zzz"), shell::Dispatch::Unknown);
}

#[test]
fn write_then_append_to_a_file() {
    let reg = registry();
    let exec = ShellExecutor::new(&reg);
    let ctx = shell::ShellContext { cwd: Ok("/".to_string()), home: String::new(), histfile: String::new(), found_on_path: Vec::new() };
    let mut file: Vec<u8> = b"old".to_vec();
    for line in ["echo hi > /tmp/t.txt", "echo bye >> /tmp/t.txt"] {
        let stages = parse_input(line).unwrap();
        assert_eq!(stages[0].stdout_redirect.as_deref(), Some("/tmp/t.txt"));
        let mut run = exec.run::<u32>(&stages);
        let cmd = match run.next_action() {
            Action::RunBuiltin { command } => command,
            _ => panic!("expected a builtin"),
        };
        let out = cmd.execute(&stages[0].args, &reg, &ctx);
        let d = run.builtin_finished(out.result, out.output);
        let (to, bytes) = d.output.unwrap();
        assert_eq!(to, StreamTo::File);
        if !stages[0].stdout_redirect_append {
            file.clear();
        }
        file.extend(bytes);
    }
    assert_eq!(file, b"hi\nbye\n".to_vec());
}

#[test]
fn exit_with_piped_output_still_ends() {
    let reg = registry();
    let exec = ShellExecutor::new(&reg);
    let stages = parse_input("echo x | cat").unwrap();
    let mut run = exec.run::<u32>(&stages);
    let _ = run.next_action();
    let d = run.builtin_finished(Ok(ShellStatus::Exit), b"x\n".to_vec());
    assert!(d.output.is_none());
    assert!(matches!(
        run.next_action(),
        Action::Finish { result: Ok(ShellStatus::Exit), wait_for: None }
    ));
}
