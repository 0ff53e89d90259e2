use breezyvps::chain::{CommandChain, Mapping, Processor, MISSING_VALUE_COMMAND};
use breezyvps::command::{outcome_from_output, ExecError, Outcome, Result};

/// Answers a command line the way `sh -c` would for the few commands these
/// tests use: `echo` prints its argument, `true` and `false` exit with 0 and
/// 1, `exit N` exits with N, and anything else is not found.
fn fake_shell(line: &str) -> Outcome {
    let line = line.lines().next().unwrap_or("");
    if let Some(rest) = line.strip_prefix("echo ") {
        return Ok(Result::from_exit(Some(0), format!("{}\n", rest), String::new()));
    }
    if line == "echo" || line == "true" {
        return Ok(Result::from_exit(Some(0), String::from("\n"), String::new()));
    }
    if line == "false" {
        return Ok(Result::from_exit(Some(1), String::new(), String::new()));
    }
    if let Some(code) = line.strip_prefix("exit ") {
        let code: i32 = code.trim().parse().unwrap();
        return Ok(Result::from_exit(Some(code), String::new(), String::new()));
    }
    Ok(Result::from_exit(Some(127), String::new(), format!("sh: 1: {}: not found\n", line)))
}

/// Runs one pass of `chain`, answering each command with `shell`, and
/// returns the chain with the command lines it handed out.
fn drive(mut chain: CommandChain, shell: &dyn Fn(&str) -> Outcome) -> (CommandChain, Vec<String>) {
    let mut issued = Vec::new();
    while let Some(line) = chain.next_command() {
        let outcome = shell(&line);
        issued.push(line);
        chain.record(outcome);
    }
    (chain, issued)
}

fn sh(line: String) -> Outcome {
    fake_shell(&line)
}

#[test]
fn basic_fatal_test_should_succeed() {
    let res = CommandChain::new().cmd("echo hello").execute(sh);
    assert!(res.result.unwrap().success);
}

#[test]
fn basic_fatal_test_should_fail() {
    let res = CommandChain::new().cmd("echo hello").cmd("test2").cmd("test3").execute(sh);
    assert!(!res.result.unwrap().success);
}

#[test]
fn basic_nonfatal_should_succeed() {
    let res = CommandChain::new()
        .cmd_nonfatal("echo hello")
        .cmd_nonfatal("restinpeace")
        .cmd("echo yo")
        .execute(sh);
    assert!(res.result.unwrap().success);
}

#[test]
fn basic_processing_func_test() {
    let processing = Processor::AppendStdout { suffix: String::from("+processing") };
    let res = CommandChain::new()
        .cmd("echo hello")
        .result_proc(processing)
        .execute(sh)
        .execute(sh);
    let result = res.result.unwrap();
    assert!(result.success);
    assert_eq!(result.stdout, "hello\n+processing");
}

#[test]
fn basic_result_mapped_cmd_test() {
    let mapping = Mapping::Stdout { token: String::from("%stdout%") };
    let res = CommandChain::new()
        .cmd("echo hello")
        .result_mapped_cmd(mapping, "echo sup_%stdout%")
        .execute(sh);
    let stdout = &res.result.unwrap().stdout;
    let trimmed = stdout.trim();
    assert!(trimmed == "sup_hello");
}

#[test]
fn all_succeeding_commands_end_in_success() {
    let (res, issued) = drive(
        CommandChain::new().cmd("echo a").cmd_nonfatal("echo b").cmd("true"),
        &fake_shell,
    );
    assert_eq!(issued, vec!["echo a", "echo b", "true"]);
    let result = res.result.unwrap();
    assert!(result.success);
    assert_eq!(result.exit_code, Some(0));
    assert_eq!(res.fault, None);
}

#[test]
fn fatal_failure_halts_the_chain() {
    let (res, issued) = drive(
        CommandChain::new().cmd("echo hello").cmd("false").cmd("echo never"),
        &fake_shell,
    );
    assert_eq!(issued, vec!["echo hello", "false"]);
    let result = res.result.unwrap();
    assert!(!result.success);
    assert_eq!(result.exit_code, Some(1));
    assert!(res.halted);
}

#[test]
fn nonfatal_failure_continues() {
    let (res, issued) = drive(CommandChain::new().cmd_nonfatal("exit 1").cmd("echo ok"), &fake_shell);
    assert_eq!(issued, vec!["exit 1", "echo ok"]);
    let result = res.result.unwrap();
    assert!(result.success);
    assert_eq!(result.stdout, "ok\n");
}

#[test]
fn nonfatal_mapped_failure_continues() {
    let mapping = Mapping::Stdout { token: String::from("%x%") };
    let (res, issued) = drive(
        CommandChain::new()
            .cmd("echo 3")
            .result_mapped_cmd_nonfatal(mapping, "exit %x%")
            .cmd("echo done"),
        &fake_shell,
    );
    assert_eq!(issued, vec!["echo 3", "exit 3\n", "echo done"]);
    assert_eq!(res.result.unwrap().stdout, "done\n");
}

#[test]
fn processor_without_prior_result_is_a_no_op() {
    let processing = Processor::AppendStdout { suffix: String::from("!") };
    let (res, issued) = drive(CommandChain::new().result_proc(processing), &fake_shell);
    assert!(issued.is_empty());
    assert!(res.result.is_none());
}

#[test]
fn mapped_command_without_prior_result_runs_its_template() {
    let mapping = Mapping::Stdout { token: String::from("%stdout%") };
    let (res, issued) = drive(
        CommandChain::new().result_mapped_cmd(mapping, "echo raw_%stdout%"),
        &fake_shell,
    );
    assert_eq!(issued, vec!["echo raw_%stdout%"]);
    assert_eq!(res.result.unwrap().stdout, "raw_%stdout%\n");
}

#[test]
fn trimmed_stdout_is_substituted() {
    let mapping = Mapping::TrimmedStdout { token: String::from("%stdout%") };
    let (res, issued) = drive(
        CommandChain::new()
            .cmd("echo hello")
            .result_mapped_cmd(mapping, "echo got_%stdout%"),
        &fake_shell,
    );
    assert_eq!(issued, vec!["echo hello", "echo got_hello"]);
    assert_eq!(res.result.unwrap().stdout.trim(), "got_hello");
}

#[test]
fn trim_processor_trims_stdout() {
    let (res, _) = drive(
        CommandChain::new().cmd("echo   padded  ").result_proc(Processor::TrimStdout),
        &fake_shell,
    );
    assert_eq!(res.result.unwrap().stdout, "padded");
}

#[test]
fn read_only_chain_gives_the_same_result_twice() {
    let build = || CommandChain::new().cmd("echo one").cmd("echo two");
    let (first, first_issued) = drive(build(), &fake_shell);
    let (second, second_issued) = drive(build(), &fake_shell);
    assert_eq!(first_issued, second_issued);
    let a = first.result.unwrap();
    let b = second.result.unwrap();
    assert_eq!(a.stdout, b.stdout);
    assert_eq!(a.success, b.success);
}

#[test]
fn executed_chain_runs_nothing_more() {
    let (res, _) = drive(CommandChain::new().cmd("echo once"), &fake_shell);
    let (again, issued) = drive(res, &fake_shell);
    assert!(issued.is_empty());
    assert_eq!(again.result.unwrap().stdout, "once\n");
}

#[test]
fn spawn_failure_is_a_fault_not_a_failed_result() {
    let spawn_fails = |line: &str| -> Outcome {
        if line.starts_with("/no/such/shell") {
            Err(ExecError::SpawnFailure)
        } else {
            fake_shell(line)
        }
    };
    let (res, issued) = drive(
        CommandChain::new()
            .cmd_nonfatal("echo before")
            .cmd_nonfatal("/no/such/shell -c true")
            .cmd("echo after"),
        &spawn_fails,
    );
    assert_eq!(issued, vec!["echo before", "/no/such/shell -c true"]);
    assert_eq!(res.fault, Some(ExecError::SpawnFailure));
    assert!(res.halted);
    assert_eq!(res.result.unwrap().stdout, "before\n");

    let (failed, _) = drive(CommandChain::new().cmd("no-such-binary"), &fake_shell);
    assert_eq!(failed.fault, None);
    let result = failed.result.unwrap();
    assert!(!result.success);
    assert_eq!(result.exit_code, Some(127));
}

#[test]
fn decode_failure_halts_the_chain() {
    let garbled = |line: &str| -> Outcome {
        if line == "cat blob" {
            outcome_from_output(Some(0), vec![0xff, 0xfe], Vec::new())
        } else {
            fake_shell(line)
        }
    };
    let (res, issued) = drive(
        CommandChain::new().cmd_nonfatal("cat blob").cmd("echo after"),
        &garbled,
    );
    assert_eq!(issued, vec!["cat blob"]);
    assert_eq!(res.fault, Some(ExecError::DecodeFailure));
    assert!(res.result.is_none());
}

#[test]
fn lines_mapping_joins_lines() {
    let lines = |line: &str| -> Outcome {
        if line == "list" {
            Ok(Result::from_exit(Some(0), String::from("11\n22\r\n33\n"), String::new()))
        } else {
            fake_shell(line)
        }
    };
    let mapping = Mapping::Lines { token: String::from("%ids%"), separator: String::from(",") };
    let (_, issued) = drive(
        CommandChain::new().cmd("list").result_mapped_cmd(mapping, "echo keys=%ids% again=%ids%"),
        &lines,
    );
    assert_eq!(issued[1], "echo keys=11,22,33 again=11,22,33");
}

fn listing(line: &str) -> Outcome {
    if line == "list" {
        let out = "Name  ID\nweb.example.com   10.0.0.1  fe80::1  active\nweb   10.0.0.2\nbare\n";
        Ok(Result::from_exit(Some(0), String::from(out), String::new()))
    } else {
        fake_shell(line)
    }
}

#[test]
fn keyed_value_takes_second_word_of_first_matching_line() {
    let mapping = Mapping::KeyedValue { token: String::from("%ip%"), key: String::from("web") };
    let (_, issued) = drive(CommandChain::new().cmd("list").result_mapped_cmd(mapping, "ping %ip%"), &listing);
    assert_eq!(issued[1], "ping 10.0.0.1");
}

#[test]
fn keyed_value_missing_key_gives_failing_command() {
    let mapping = Mapping::KeyedValue { token: String::from("%ip%"), key: String::from("db") };
    let (res, issued) = drive(CommandChain::new().cmd("list").result_mapped_cmd(mapping, "ping %ip%"), &listing);
    assert_eq!(issued[1], MISSING_VALUE_COMMAND);
    assert_eq!(issued[1], "--will fail--");
    assert!(!res.result.unwrap().success);
}

#[test]
fn keyed_value_line_with_one_word_gives_failing_command() {
    let mapping = Mapping::KeyedValue { token: String::from("%ip%"), key: String::from("bare") };
    let (_, issued) = drive(CommandChain::new().cmd("list").result_mapped_cmd(mapping, "ping %ip%"), &listing);
    assert_eq!(issued[1], "--will fail--");
}

#[test]
fn empty_token_leaves_template_unchanged() {
    let mapping = Mapping::Stdout { token: String::new() };
    let (_, issued) = drive(CommandChain::new().cmd("echo x").result_mapped_cmd(mapping, "echo y"), &fake_shell);
    assert_eq!(issued[1], "echo y");
}

#[test]
fn result_from_exit_code() {
    let ok = Result::from_exit(Some(0), String::from("o"), String::from("e"));
    assert!(ok.success);
    assert_eq!(ok.stdout, "o");
    assert_eq!(ok.stderr, "e");
    assert!(!Result::from_exit(Some(2), String::new(), String::new()).success);
    let killed = Result::from_exit(None, String::new(), String::new());
    assert!(!killed.success);
    assert_eq!(killed.exit_code, None);
}

#[test]
fn output_decoding() {
    let r = outcome_from_output(Some(3), "héllo\n".as_bytes().to_vec(), b"warn".to_vec()).unwrap();
    assert_eq!(r.exit_code, Some(3));
    assert!(!r.success);
    assert_eq!(r.stdout, "héllo\n");
    assert_eq!(r.stderr, "warn");
    assert!(matches!(
        outcome_from_output(Some(0), Vec::new(), vec![0xc3]),
        Err(ExecError::DecodeFailure)
    ));
}

#[test]
fn execute_hands_commands_to_the_runner_in_order() {
    let seen = std::cell::RefCell::new(Vec::new());
    let res = CommandChain::new()
        .cmd("echo one")
        .cmd_nonfatal("false")
        .result_mapped_cmd(Mapping::TrimmedStdout { token: String::from("%o%") }, "echo [%o%]")
        .cmd("exit 4")
        .cmd("echo unreachable")
        .execute(|line: String| {
            seen.borrow_mut().push(line.clone());
            fake_shell(&line)
        });
    assert_eq!(*seen.borrow(), vec!["echo one", "false", "echo []", "exit 4"]);
    let result = res.result.unwrap();
    assert_eq!(result.exit_code, Some(4));
    assert!(res.halted);
    assert_eq!(res.fault, None);
}
