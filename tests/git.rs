use notes_backend::git::{
    command_succeeded, commit_start, pull_start, sequence_step, sync_start,
    ahead_behind_from_fields, ahead_behind_from_output, command_result, commit_commands,
    current_branch_command, decimal_string, initialize_plan, next_step, parse_count,
    parse_porcelain, pull_command, push_command, push_start, push_step, remote_or_default, status_from_outputs,
    status_from_parts, status_start, status_step, trim_output, upstream_probe_command, GitCommand, GitCommitOptions,
    GitConfig, GitError, PlanProgress, PushAction, RunOutcome, SequenceAction, StatusAction,
};

fn args(c: &GitCommand) -> Vec<&str> {
    c.args.iter().map(|s| s.as_str()).collect()
}

fn config(remote_url: &str) -> GitConfig {
    GitConfig {
        user_name: "Ann".to_string(),
        user_email: "ann@example.com".to_string(),
        remote_url: remote_url.to_string(),
        remote_name: "origin".to_string(),
        branch_name: "main".to_string(),
    }
}

#[test]
fn porcelain_counts_staged_and_modified() {
    let s = parse_porcelain(&"M  a.txt\n?? b.txt\n".to_string());
    assert_eq!(s.modified_count, 1);
    assert_eq!(s.staged_count, 1);
    assert_eq!(s.files, vec!["a.txt".to_string(), "b.txt".to_string()]);
}

#[test]
fn status_of_porcelain_example() {
    let st = status_from_parts("main".to_string(), &"M  a.txt\n?? b.txt\n".to_string(), 0, 0);
    assert_eq!(st.modified_count, 1);
    assert_eq!(st.staged_count, 1);
    assert!(!st.is_clean);
    assert_eq!(st.modified_files, vec!["a.txt".to_string(), "b.txt".to_string()]);
}

#[test]
fn porcelain_skips_short_lines_and_strips_crlf() {
    let s = parse_porcelain(&" M x.md\r\n\nMM\nAM y z.md".to_string());
    assert_eq!(s.files, vec!["x.md".to_string(), "y z.md".to_string()]);
    assert_eq!(s.staged_count, 1);
    assert_eq!(s.modified_count, 2);
}

#[test]
fn clean_tree_from_empty_output() {
    let st = status_from_outputs(&"main\n".to_string(), &String::new(), &None);
    assert_eq!(st.branch, "main");
    assert!(st.is_clean);
    assert_eq!((st.ahead, st.behind), (0, 0));
    assert!(st.modified_files.is_empty());
}

#[test]
fn ahead_behind_read_from_left_right_count() {
    assert_eq!(ahead_behind_from_output(&Some("3\t1\n".to_string())), (3, 1));
    assert_eq!(ahead_behind_from_output(&Some("7\n".to_string())), (0, 0));
    assert_eq!(ahead_behind_from_output(&Some("x 2".to_string())), (0, 2));
    assert_eq!(ahead_behind_from_output(&None), (0, 0));
    let fields = vec!["+4".to_string(), "5".to_string(), "9".to_string()];
    assert_eq!(ahead_behind_from_fields(&fields), (4, 5));
    let st = status_from_outputs(&" dev ".to_string(), &"A  n.md\n".to_string(), &Some("2 0".to_string()));
    assert_eq!((st.branch.as_str(), st.ahead, st.behind, st.staged_count), ("dev", 2, 0, 1));
}

#[test]
fn counts_parse_like_unsigned_integers() {
    assert_eq!(parse_count(&"42".to_string()), Some(42));
    assert_eq!(parse_count(&"+7".to_string()), Some(7));
    assert_eq!(parse_count(&"".to_string()), None);
    assert_eq!(parse_count(&"+".to_string()), None);
    assert_eq!(parse_count(&"-1".to_string()), None);
    assert_eq!(parse_count(&"12a".to_string()), None);
    assert_eq!(parse_count(&"18446744073709551615".to_string()), Some(usize::MAX));
    assert_eq!(parse_count(&"18446744073709551616".to_string()), None);
}

#[test]
fn first_push_sets_upstream_and_next_does_not() {
    let remote = remote_or_default(None);
    assert_eq!(remote, "origin");
    let first = push_command(&remote, &"main".to_string(), false);
    assert_eq!(args(&first), vec!["push", "-u", "origin", "main"]);
    assert_eq!(first.timeout_secs, 30);
    let second = push_command(&remote, &"main".to_string(), true);
    assert_eq!(args(&second), vec!["push", "origin", "main"]);
    let probe = upstream_probe_command(&"main".to_string());
    assert_eq!(args(&probe), vec!["rev-parse", "--abbrev-ref", "main@{u}"]);
    assert_eq!(remote_or_default(Some("up".to_string())), "up");
}

#[test]
fn pull_and_branch_commands() {
    assert_eq!(args(&pull_command(&"origin".to_string(), &"main".to_string())), vec!["pull", "origin", "main"]);
    let b = current_branch_command();
    assert_eq!((args(&b), b.timeout_secs), (vec!["branch", "--show-current"], 5));
    assert_eq!(trim_output(&"  main\n".to_string()), "main");
}

#[test]
fn outcomes_become_results() {
    let ok = RunOutcome::Exited { success: true, stdout: "out".to_string(), stderr: "err".to_string() };
    assert_eq!(command_result(ok, 5), Ok("out".to_string()));
    let bad = RunOutcome::Exited { success: false, stdout: "out".to_string(), stderr: "err".to_string() };
    assert_eq!(command_result(bad, 5), Err(GitError::CommandFailed("err".to_string())));
    assert_eq!(command_result(RunOutcome::TimedOut, 5), Err(GitError::TimedOut(5)));
    assert_eq!(
        command_result(RunOutcome::SpawnFailed("no such file".to_string()), 5),
        Err(GitError::SpawnFailed("no such file".to_string()))
    );
    assert_eq!(
        command_result(RunOutcome::WaitFailed("w".to_string()), 5),
        Err(GitError::WaitFailed("w".to_string()))
    );
    assert_eq!(
        command_result(RunOutcome::OutputFailed("o".to_string()), 5),
        Err(GitError::OutputFailed("o".to_string()))
    );
}

#[test]
fn timeout_message_names_the_bound() {
    assert_eq!(GitError::TimedOut(5).message(), "Git operation timed out after 5 seconds");
    assert_eq!(GitError::TimedOut(30).message(), "Git operation timed out after 30 seconds");
    assert_eq!(
        GitError::SpawnFailed("gone".to_string()).message(),
        "Failed to execute git: gone. Make sure Git is installed."
    );
    assert_eq!(GitError::CommandFailed("fatal: x".to_string()).message(), "fatal: x");
    assert_eq!(decimal_string(0), "0");
    assert_eq!(decimal_string(18446744073709551615), "18446744073709551615");
}

#[test]
fn commit_runs_identity_stage_commit_revision() {
    let options = GitCommitOptions {
        message: "note".to_string(),
        author_name: "Ann".to_string(),
        author_email: "ann@example.com".to_string(),
    };
    let cmds = commit_commands(&options);
    let all: Vec<Vec<&str>> = cmds.iter().map(args).collect();
    assert_eq!(
        all,
        vec![
            vec!["config", "user.name", "Ann"],
            vec!["config", "user.email", "ann@example.com"],
            vec!["add", "-A"],
            vec!["commit", "-m", "note"],
            vec!["rev-parse", "HEAD"],
        ]
    );
    let secs: Vec<u64> = cmds.iter().map(|c| c.timeout_secs).collect();
    assert_eq!(secs, vec![5, 5, 10, 10, 5]);
}

#[test]
fn initialize_without_remote_stops_after_branch_rename() {
    let plan = initialize_plan(&config(""));
    assert_eq!(plan.len(), 9);
    assert_eq!(args(&plan[8].command), vec!["branch", "-M", "main"]);
    let optional: Vec<bool> = plan.iter().map(|s| s.optional).collect();
    assert_eq!(optional, vec![false, false, false, true, true, true, false, false, false]);
    assert_eq!(args(&plan[4].command), vec!["lfs", "track", "workspace/.images/**"]);
}

#[test]
fn initialize_with_remote_adds_and_pushes() {
    let plan = initialize_plan(&config("git@host:n.git"));
    assert_eq!(plan.len(), 11);
    assert_eq!(args(&plan[9].command), vec!["remote", "add", "origin", "git@host:n.git"]);
    assert_eq!(args(&plan[10].command), vec!["push", "-u", "origin", "main"]);
    assert_eq!(plan[10].command.timeout_secs, 30);
}

#[test]
fn missing_lfs_skips_lfs_steps_only() {
    let plan = initialize_plan(&config(""));
    let fail = || Err(GitError::CommandFailed("git: 'lfs' is not a git command".to_string()));
    assert!(matches!(next_step(&plan, 3, fail()), PlanProgress::Continue(6)));
    assert!(matches!(next_step(&plan, 4, fail()), PlanProgress::Continue(6)));
    assert!(matches!(next_step(&plan, 5, fail()), PlanProgress::Continue(6)));
    assert!(matches!(next_step(&plan, 3, Ok(String::new())), PlanProgress::Continue(4)));
    assert!(matches!(next_step(&plan, 8, Ok(String::new())), PlanProgress::Continue(9)));
    match next_step(&plan, 6, fail()) {
        PlanProgress::Stop(e) => assert_eq!(e, GitError::CommandFailed("git: 'lfs' is not a git command".to_string())),
        PlanProgress::Continue(_) => panic!("a required step must stop the plan"),
    }
}

#[test]
fn sync_pulls_then_pushes() {
    let cmds = notes_backend::git::sync_commands(&"origin".to_string(), &"main".to_string());
    let all: Vec<Vec<&str>> = cmds.iter().map(args).collect();
    assert_eq!(all, vec![vec!["pull", "origin", "main"], vec!["push", "origin", "main"]]);
}

fn run_push(
    probe_succeeds: bool,
    branch_output: &str,
) -> (Vec<Vec<String>>, Result<(), GitError>) {
    let (mut flow, mut command) = push_start(None);
    let mut issued = Vec::new();
    loop {
        issued.push(command.args.clone());
        let outcome = match command.args[0].as_str() {
            "branch" => Ok(branch_output.to_string()),
            "rev-parse" if probe_succeeds => Ok("origin/main\n".to_string()),
            "rev-parse" => Err(GitError::CommandFailed("fatal: no upstream configured".to_string())),
            _ => Ok(String::new()),
        };
        match push_step(flow, outcome) {
            PushAction::Run(next, next_command) => {
                flow = next;
                command = next_command;
            }
            PushAction::Finish(result) => return (issued, result),
        }
    }
}

#[test]
fn push_flow_sets_upstream_only_when_missing() {
    let (issued, result) = run_push(false, "main\n");
    assert_eq!(result, Ok(()));
    assert_eq!(issued[1], vec!["rev-parse", "--abbrev-ref", "main@{u}"]);
    assert_eq!(issued[2], vec!["push", "-u", "origin", "main"]);
    let (issued, result) = run_push(true, "main\n");
    assert_eq!(result, Ok(()));
    assert_eq!(issued[2], vec!["push", "origin", "main"]);
    assert_eq!(issued.len(), 3);
}

#[test]
fn push_flow_stops_when_branch_query_fails() {
    let (flow, _) = push_start(Some("backup".to_string()));
    match push_step(flow, Err(GitError::TimedOut(5))) {
        PushAction::Finish(r) => assert_eq!(r, Err(GitError::TimedOut(5))),
        PushAction::Run(_, _) => panic!("the push must stop"),
    }
}

#[test]
fn status_flow_reads_branch_porcelain_and_counts() {
    let (flow, cmd) = status_start();
    assert_eq!(args(&cmd), vec!["branch", "--show-current"]);
    let (flow, cmd) = match status_step(flow, Ok("main\n".to_string())) {
        StatusAction::Run(f, c) => (f, c),
        StatusAction::Finish(_) => panic!("the porcelain status comes next"),
    };
    assert_eq!(args(&cmd), vec!["status", "--porcelain"]);
    let (flow, cmd) = match status_step(flow, Ok("M  a.txt\n?? b.txt\n".to_string())) {
        StatusAction::Run(f, c) => (f, c),
        StatusAction::Finish(_) => panic!("the left-right count comes next"),
    };
    assert_eq!(args(&cmd), vec!["rev-list", "--left-right", "--count", "HEAD...@{u}"]);
    match status_step(flow, Err(GitError::CommandFailed("no upstream configured".to_string()))) {
        StatusAction::Finish(Ok(st)) => {
            assert_eq!(st.branch, "main");
            assert_eq!((st.modified_count, st.staged_count, st.ahead, st.behind), (1, 1, 0, 0));
            assert!(!st.is_clean);
            assert_eq!(st.modified_files, vec!["a.txt".to_string(), "b.txt".to_string()]);
        }
        _ => panic!("a failed count still gives a status"),
    }
}

#[test]
fn status_flow_stops_when_porcelain_fails() {
    let (flow, _) = status_start();
    let flow = match status_step(flow, Ok("main".to_string())) {
        StatusAction::Run(f, _) => f,
        StatusAction::Finish(_) => panic!("the porcelain status comes next"),
    };
    match status_step(flow, Err(GitError::TimedOut(5))) {
        StatusAction::Finish(r) => assert_eq!(r.err(), Some(GitError::TimedOut(5))),
        StatusAction::Run(_, _) => panic!("the request must stop"),
    }
}

fn drive(
    start: (notes_backend::git::SequenceFlow, GitCommand),
    reply: &dyn Fn(&GitCommand) -> Result<String, GitError>,
) -> (Vec<Vec<String>>, Result<String, GitError>) {
    let (mut flow, mut command) = start;
    let mut issued = Vec::new();
    loop {
        issued.push(command.args.clone());
        match sequence_step(flow, reply(&command)) {
            SequenceAction::Run(next, next_command) => {
                flow = next;
                command = next_command;
            }
            SequenceAction::Finish(result) => return (issued, result),
        }
    }
}

#[test]
fn commit_flow_runs_all_and_returns_revision() {
    let options = GitCommitOptions {
        message: "note".to_string(),
        author_name: "Ann".to_string(),
        author_email: "ann@example.com".to_string(),
    };
    let (issued, result) = drive(commit_start(&options), &|c: &GitCommand| {
        if c.args[0] == "rev-parse" { Ok("abc123\n".to_string()) } else { Ok(String::new()) }
    });
    assert_eq!(issued.len(), 5);
    assert_eq!(issued[3], vec!["commit", "-m", "note"]);
    assert_eq!(result, Ok("abc123".to_string()));
}

#[test]
fn commit_flow_stops_at_first_failure() {
    let options = GitCommitOptions {
        message: "note".to_string(),
        author_name: "Ann".to_string(),
        author_email: "ann@example.com".to_string(),
    };
    let (issued, result) = drive(commit_start(&options), &|c: &GitCommand| {
        if c.args[0] == "commit" {
            Err(GitError::CommandFailed("nothing to commit".to_string()))
        } else {
            Ok(String::new())
        }
    });
    assert_eq!(issued.len(), 4);
    assert_eq!(result, Err(GitError::CommandFailed("nothing to commit".to_string())));
}

#[test]
fn pull_and_sync_flows_use_current_branch() {
    let reply = |c: &GitCommand| {
        if c.args[0] == "branch" { Ok(" dev\n".to_string()) } else { Ok(String::new()) }
    };
    let (issued, result) = drive(pull_start(None), &reply);
    assert!(result.is_ok());
    assert_eq!(issued, vec![vec!["branch", "--show-current"], vec!["pull", "origin", "dev"]]);
    let (issued, _) = drive(sync_start(Some("up".to_string())), &reply);
    assert_eq!(issued[1..].to_vec(), vec![vec!["pull", "up", "dev"], vec!["push", "up", "dev"]]);
    let (issued, result) = drive(pull_start(None), &|_c: &GitCommand| Err(GitError::TimedOut(5)));
    assert_eq!((issued.len(), result), (1, Err(GitError::TimedOut(5))));
}

#[test]
fn probe_success_is_the_answer() {
    assert!(command_succeeded(&Ok(".git".to_string())));
    assert!(!command_succeeded(&Err(GitError::CommandFailed("not a git repository".to_string()))));
}

#[test]
fn trimming_and_splitting_follow_unicode_white_space() {
    assert_eq!(trim_output(&"\u{3000}main\u{a0}\r\n".to_string()), "main");
    assert_eq!(trim_output(&" \t\n".to_string()), "");
    assert_eq!(trim_output(&"a b".to_string()), "a b");
    assert_eq!(ahead_behind_from_output(&Some("\u{2003}3\u{85}12 ".to_string())), (3, 12));
    assert_eq!("\u{3000}main\u{a0}\r\n".trim(), "main");
}
