use rshell::cmd::{parse_line, ShellCommand};
use rshell::pipeline::{
    cd_target, kind_of, Action, Executor, Outcome, StageKind, StdinSource, StdoutSink,
    WorkingDirectory,
};

fn executor_for(line: &str) -> Executor {
    Executor::new(parse_line(line).unwrap())
}

fn stage(name: &str, arguments: &[&str]) -> ShellCommand {
    ShellCommand {
        name: name.to_string(),
        arguments: arguments.iter().map(|a| a.to_string()).collect(),
    }
}

fn changed(path: &str) -> Outcome {
    Outcome::DirectoryChanged { path: path.to_string() }
}

/// Walks `line` with the outcomes `script`, one for each action that asks
/// for one, and counts the spawns that are asked for.
fn spawns_asked(line: &str, script: &[Outcome]) -> usize {
    let mut executor = executor_for(line);
    let mut directory = WorkingDirectory::new("/".to_string());
    let mut spawns = 0;
    for outcome in script {
        if matches!(executor.next_action(), Action::Spawn { .. }) {
            spawns += 1;
        }
        assert!(executor.advance(outcome.clone(), &mut directory));
    }
    spawns
}

#[test]
fn kinds_of_stages() {
    assert_eq!(kind_of(&stage("exit", &[])), StageKind::Exit);
    assert_eq!(kind_of(&stage("cd", &["/tmp"])), StageKind::ChangeDirectory);
    assert_eq!(kind_of(&stage("ls", &[])), StageKind::External);
    assert_eq!(kind_of(&stage("exit1", &[])), StageKind::External);
    assert_eq!(kind_of(&stage("CD", &[])), StageKind::External);
    assert_eq!(kind_of(&stage("", &[])), StageKind::External);
}

#[test]
fn cd_without_argument_goes_to_the_root() {
    assert_eq!(cd_target(&stage("cd", &[])), "/");
}

#[test]
fn cd_takes_its_first_argument() {
    assert_eq!(cd_target(&stage("cd", &["/tmp"])), "/tmp");
    assert_eq!(cd_target(&stage("cd", &["a", "b"])), "a");
}

#[test]
fn cd_without_argument_asks_for_the_root_in_any_state() {
    let mut directory = WorkingDirectory::new("/var/log".to_string());
    let mut executor = executor_for("ls | cd");
    assert!(executor.advance(Outcome::Spawned, &mut directory));
    assert!(executor.has_pending());
    assert_eq!(executor.next_action(), Action::ChangeDirectory { target: "/" });
    let executor = executor_for("cd");
    assert_eq!(executor.next_action(), Action::ChangeDirectory { target: "/" });
}

#[test]
fn single_command_inherits_both_streams() {
    let mut directory = WorkingDirectory::new("/".to_string());
    let mut executor = executor_for("ls -l");
    assert_eq!(
        executor.next_action(),
        Action::Spawn {
            command: &stage("ls", &["-l"]),
            stdin: StdinSource::Inherit,
            stdout: StdoutSink::Inherit,
        }
    );
    assert!(executor.advance(Outcome::Spawned, &mut directory));
    assert_eq!(executor.next_action(), Action::Finish { wait: true });
    assert_eq!(executor.position(), 1);
}

#[test]
fn three_stages_are_chained_by_pipes() {
    let mut directory = WorkingDirectory::new("/".to_string());
    let mut executor = executor_for("printf a | cat | cat");
    assert_eq!(
        executor.next_action(),
        Action::Spawn {
            command: &stage("printf", &["a"]),
            stdin: StdinSource::Inherit,
            stdout: StdoutSink::Pipe,
        }
    );
    assert!(executor.advance(Outcome::Spawned, &mut directory));
    assert_eq!(
        executor.next_action(),
        Action::Spawn {
            command: &stage("cat", &[]),
            stdin: StdinSource::PreviousOutput,
            stdout: StdoutSink::Pipe,
        }
    );
    assert!(executor.advance(Outcome::Spawned, &mut directory));
    assert_eq!(
        executor.next_action(),
        Action::Spawn {
            command: &stage("cat", &[]),
            stdin: StdinSource::PreviousOutput,
            stdout: StdoutSink::Inherit,
        }
    );
    assert!(executor.advance(Outcome::Spawned, &mut directory));
    assert_eq!(executor.next_action(), Action::Finish { wait: true });
    assert_eq!(directory.path(), "/");
}

#[test]
fn failed_cd_skips_the_rest_of_the_line() {
    let mut directory = WorkingDirectory::new("/home".to_string());
    let mut executor = executor_for("cd /no/such/dir | echo hi");
    assert_eq!(executor.next_action(), Action::ChangeDirectory { target: "/no/such/dir" });
    assert!(executor.advance(Outcome::DirectoryFailed, &mut directory));
    assert!(executor.is_aborted());
    assert_eq!(directory.path(), "/home");
    assert_eq!(executor.next_action(), Action::Finish { wait: false });
    assert!(!executor.advance(Outcome::Spawned, &mut directory));
    assert!(!executor.advance(changed("/tmp"), &mut directory));
    assert_eq!(executor.next_action(), Action::Finish { wait: false });
    assert_eq!(directory.path(), "/home");
    assert_eq!(executor.position(), 0);
}

#[test]
fn failed_cd_still_has_the_earlier_process_waited_for() {
    let mut directory = WorkingDirectory::new("/".to_string());
    let mut executor = executor_for("ls | cd /nowhere | wc");
    assert!(executor.advance(Outcome::Spawned, &mut directory));
    assert_eq!(executor.next_action(), Action::ChangeDirectory { target: "/nowhere" });
    assert!(executor.advance(Outcome::DirectoryFailed, &mut directory));
    assert_eq!(executor.next_action(), Action::Finish { wait: true });
}

#[test]
fn successful_cd_changes_the_directory_and_cuts_the_chain() {
    let mut directory = WorkingDirectory::new("/".to_string());
    let mut executor = executor_for("ls | cd /tmp | pwd");
    assert!(executor.advance(Outcome::Spawned, &mut directory));
    assert_eq!(executor.next_action(), Action::ChangeDirectory { target: "/tmp" });
    assert!(executor.advance(changed("/private/tmp"), &mut directory));
    assert_eq!(directory.path(), "/private/tmp");
    assert!(!executor.has_pending());
    assert_eq!(
        executor.next_action(),
        Action::Spawn {
            command: &stage("pwd", &[]),
            stdin: StdinSource::Inherit,
            stdout: StdoutSink::Inherit,
        }
    );
}

#[test]
fn cd_alone_leaves_nothing_to_wait_for() {
    let mut directory = WorkingDirectory::new("/".to_string());
    let mut executor = executor_for("cd /usr");
    assert!(executor.advance(changed("/usr"), &mut directory));
    assert_eq!(executor.next_action(), Action::Finish { wait: false });
    assert_eq!(directory.path(), "/usr");
}

#[test]
fn failed_spawn_lets_the_next_stage_run_on_inherited_input() {
    let mut directory = WorkingDirectory::new("/".to_string());
    let mut executor = executor_for("nonexistent_cmd_xyz | echo fallback");
    assert_eq!(
        executor.next_action(),
        Action::Spawn {
            command: &stage("nonexistent_cmd_xyz", &[]),
            stdin: StdinSource::Inherit,
            stdout: StdoutSink::Pipe,
        }
    );
    assert!(executor.advance(Outcome::SpawnFailed, &mut directory));
    assert!(!executor.has_pending());
    assert!(!executor.is_aborted());
    assert_eq!(
        executor.next_action(),
        Action::Spawn {
            command: &stage("echo", &["fallback"]),
            stdin: StdinSource::Inherit,
            stdout: StdoutSink::Inherit,
        }
    );
    assert!(executor.advance(Outcome::Spawned, &mut directory));
    assert_eq!(executor.next_action(), Action::Finish { wait: true });
}

#[test]
fn failed_spawn_in_the_middle_drops_the_earlier_output() {
    let mut directory = WorkingDirectory::new("/".to_string());
    let mut executor = executor_for("ls | nope | wc");
    assert!(executor.advance(Outcome::Spawned, &mut directory));
    assert!(executor.advance(Outcome::SpawnFailed, &mut directory));
    assert_eq!(
        executor.next_action(),
        Action::Spawn {
            command: &stage("wc", &[]),
            stdin: StdinSource::Inherit,
            stdout: StdoutSink::Inherit,
        }
    );
}

#[test]
fn failed_spawn_of_the_last_stage_leaves_nothing_to_wait_for() {
    let mut directory = WorkingDirectory::new("/".to_string());
    let mut executor = executor_for("ls | nope");
    assert!(executor.advance(Outcome::Spawned, &mut directory));
    assert!(executor.advance(Outcome::SpawnFailed, &mut directory));
    assert_eq!(executor.next_action(), Action::Finish { wait: false });
}

#[test]
fn exit_leaves_the_shell() {
    let executor = executor_for("exit");
    assert_eq!(executor.next_action(), Action::Exit);
}

#[test]
fn exit_does_not_wait_for_an_earlier_stage() {
    let mut directory = WorkingDirectory::new("/".to_string());
    let mut executor = executor_for("sleep 5 | exit | ls");
    assert!(executor.advance(Outcome::Spawned, &mut directory));
    assert!(executor.has_pending());
    assert_eq!(executor.next_action(), Action::Exit);
    assert!(!executor.advance(Outcome::Spawned, &mut directory));
    assert!(!executor.advance(Outcome::SpawnFailed, &mut directory));
    assert!(!executor.advance(Outcome::DirectoryFailed, &mut directory));
    assert_eq!(executor.next_action(), Action::Exit);
    assert_eq!(executor.position(), 1);
}

#[test]
fn exit_with_arguments_is_still_exit() {
    let executor = executor_for("exit now");
    assert_eq!(executor.next_action(), Action::Exit);
}

#[test]
fn exit_as_an_argument_is_no_builtin() {
    let executor = executor_for("echo exit");
    assert!(matches!(executor.next_action(), Action::Spawn { .. }));
}

#[test]
fn outcome_of_the_wrong_kind_is_refused() {
    let mut directory = WorkingDirectory::new("/".to_string());
    let mut executor = executor_for("ls | cd /tmp");
    assert!(!executor.advance(Outcome::DirectoryFailed, &mut directory));
    assert!(!executor.advance(changed("/tmp"), &mut directory));
    assert_eq!(directory.path(), "/");
    assert_eq!(executor.position(), 0);
    assert!(executor.advance(Outcome::Spawned, &mut directory));
    assert!(!executor.advance(Outcome::Spawned, &mut directory));
    assert!(!executor.advance(Outcome::SpawnFailed, &mut directory));
    assert_eq!(executor.position(), 1);
    assert!(executor.has_pending());
}

#[test]
fn finished_walk_takes_no_outcome() {
    let mut directory = WorkingDirectory::new("/".to_string());
    let mut executor = executor_for("ls");
    assert!(executor.advance(Outcome::Spawned, &mut directory));
    assert!(!executor.advance(Outcome::Spawned, &mut directory));
    assert!(!executor.advance(changed("/tmp"), &mut directory));
    assert_eq!(executor.next_action(), Action::Finish { wait: true });
    assert_eq!(directory.path(), "/");
}

#[test]
fn empty_pipeline_finishes_at_once() {
    let executor = Executor::new(Vec::new());
    assert_eq!(executor.next_action(), Action::Finish { wait: false });
    assert_eq!(executor.commands().len(), 0);
}

#[test]
fn spawns_never_outnumber_the_segments() {
    let all = [Outcome::Spawned, Outcome::Spawned, Outcome::Spawned];
    assert_eq!(spawns_asked("a | b | c", &all), 3);
    let failing = [Outcome::SpawnFailed, Outcome::Spawned, Outcome::SpawnFailed];
    assert_eq!(spawns_asked("a | b | c", &failing), 3);
    let with_cd = [Outcome::Spawned, changed("/tmp"), Outcome::Spawned];
    assert_eq!(spawns_asked("a | cd /tmp | c", &with_cd), 2);
    let aborted = [Outcome::Spawned, Outcome::DirectoryFailed];
    assert_eq!(spawns_asked("a | cd /nowhere | c | d", &aborted), 1);
    let left = [Outcome::Spawned];
    assert_eq!(spawns_asked("a | exit | c", &left), 1);
}

#[test]
fn executor_keeps_its_commands() {
    let executor = executor_for("ls -a | wc");
    assert_eq!(executor.commands(), &vec![stage("ls", &["-a"]), stage("wc", &[])]);
    assert_eq!(executor.position(), 0);
    assert!(!executor.has_pending());
    assert!(!executor.is_aborted());
}
