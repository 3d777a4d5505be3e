use rust_utils::command::{
    check_destination_pairing, decide_poll, exit_code_or_sentinel, failure_for_decision,
    no_output_message, pump_step, spawn_failure_error, spawn_plan, stdin_failure_error,
    timeout_message, CommandConfig, CommandExecutionError, CommandFailure,
    CommandNoOutputTimeoutError, CommandTimeoutExceededError, EnvMap, PollDecision, PollEvent,
    PumpEvent, StdinPlan,
};

fn strings(items: &[&str]) -> Vec<String> {
    items.iter().map(|s| s.to_string()).collect()
}

#[test]
fn natural_exit_reports_child_code() {
    // With neither timeout set, a child that exits with code N yields exactly N.
    for code in [0, 1, 7, 42, -3] {
        let d = decide_poll(None, None, 123456, 123456, PollEvent::Exited(Some(code)));
        assert!(matches!(d, PollDecision::Complete(c) if c == code));
    }
}

#[test]
fn signal_exit_reports_sentinel() {
    // A child killed by a signal has no code and is reported as -1.
    let d = decide_poll(None, None, 5, 5, PollEvent::Exited(None));
    assert!(matches!(d, PollDecision::Complete(-1)));
    assert_eq!(exit_code_or_sentinel(None), -1);
    assert_eq!(exit_code_or_sentinel(Some(9)), 9);
}

#[test]
fn no_timeouts_never_kill() {
    // Without budgets the supervisor only ever sleeps, however long it takes.
    for elapsed in [0u64, 10, 100_000, u64::MAX] {
        let d = decide_poll(None, None, elapsed, elapsed, PollEvent::Running);
        assert!(matches!(d, PollDecision::KeepWaiting));
    }
}

#[test]
fn exit_check_wins_the_tick() {
    // A child that exits in the same tick it would have timed out is a
    // normal exit, never a timeout.
    let d = decide_poll(Some(100), Some(100), 500, 500, PollEvent::Exited(Some(3)));
    assert!(matches!(d, PollDecision::Complete(3)));
}

#[test]
fn absolute_timeout_fires_strictly_past_budget() {
    let d = decide_poll(Some(100), None, 100, 0, PollEvent::Running);
    assert!(matches!(d, PollDecision::KeepWaiting));
    let d = decide_poll(Some(100), None, 101, 0, PollEvent::Running);
    assert!(matches!(d, PollDecision::KillTimeout(100)));
}

#[test]
fn absolute_timeout_simulated_poll_loop() {
    // A child that would run for 10 time-units under a budget of 0.1 units
    // (100 ms), polled every 10 ms: the kill comes at the first poll past
    // the budget, bounding the overshoot by one poll interval.
    let mut fired_at = None;
    let mut now: u64 = 0;
    while now <= 10_000 {
        match decide_poll(Some(100), None, now, now, PollEvent::Running) {
            PollDecision::KeepWaiting => now += 10,
            PollDecision::KillTimeout(budget) => {
                fired_at = Some((now, budget));
                break;
            }
            _ => panic!("unexpected decision"),
        }
    }
    assert_eq!(fired_at, Some((110, 100)));
}

#[test]
fn no_output_timeout_fires_and_kills() {
    // A child that writes once then goes silent trips the no-output budget.
    let d = decide_poll(None, Some(100), 5_000, 101, PollEvent::Running);
    assert!(matches!(d, PollDecision::KillNoOutput(100)));
}

#[test]
fn steady_output_never_trips_no_output_timeout() {
    // A child that writes faster than the budget's gap never trips it, even
    // when the total runtime far exceeds the budget.
    let mut now: u64 = 0;
    while now <= 10_000 {
        let d = decide_poll(None, Some(100), now, now % 50, PollEvent::Running);
        assert!(matches!(d, PollDecision::KeepWaiting));
        now += 10;
    }
}

#[test]
fn absolute_timeout_checked_before_no_output() {
    let d = decide_poll(Some(100), Some(50), 200, 200, PollEvent::Running);
    assert!(matches!(d, PollDecision::KillTimeout(100)));
}

#[test]
fn wait_failure_is_reported_as_execution_failure() {
    let d = decide_poll(None, None, 0, 0, PollEvent::WaitFailed("broken".to_string()));
    match d {
        PollDecision::FailWait(ref m) => assert_eq!(m, "broken"),
        _ => panic!("unexpected decision"),
    }
    let f = failure_for_decision(d).unwrap();
    match f {
        CommandFailure::Execution(e) => {
            assert_eq!(e.message, "Failed to wait for process: broken")
        }
        _ => panic!("wrong failure kind"),
    }
}

#[test]
fn timeout_messages_format_two_decimals() {
    assert_eq!(timeout_message(100), "Command timed out after 0.10 seconds");
    assert_eq!(timeout_message(2500), "Command timed out after 2.50 seconds");
    assert_eq!(timeout_message(61_230), "Command timed out after 61.23 seconds");
    assert_eq!(
        no_output_message(100),
        "Command timed out due to no output for 0.10 seconds"
    );
}

#[test]
fn failures_carry_their_budgets_message() {
    match failure_for_decision(PollDecision::KillTimeout(100)).unwrap() {
        CommandFailure::Timeout(e) => {
            assert!(e.message.contains("timed out after"));
            assert!(e.message.contains("0.10"));
        }
        _ => panic!("wrong failure kind"),
    }
    match failure_for_decision(PollDecision::KillNoOutput(250)).unwrap() {
        CommandFailure::NoOutput(e) => {
            assert!(e.message.contains("no output for"));
            assert!(e.message.contains("0.25"));
        }
        _ => panic!("wrong failure kind"),
    }
    assert!(failure_for_decision(PollDecision::Complete(0)).is_none());
    assert!(failure_for_decision(PollDecision::KeepWaiting).is_none());
}

#[test]
fn error_constructors_keep_their_text() {
    let e = CommandExecutionError::new("boom".to_string());
    assert_eq!(e.message, "boom");
    let e = CommandTimeoutExceededError::new("slow".to_string());
    assert_eq!(e.message, "slow");
    let e = CommandNoOutputTimeoutError::new("quiet".to_string());
    assert_eq!(e.message, "quiet");
    let e = spawn_failure_error("no such file");
    assert_eq!(e.message, "Failed to execute command: no such file");
    let e = stdin_failure_error("pipe closed");
    assert_eq!(e.message, "Failed to write to stdin: pipe closed");
}

#[test]
fn pump_copies_stream_to_both_destinations() {
    // Both configured destinations receive byte-identical, order-preserving
    // copies of everything the child wrote.
    let chunks: Vec<Vec<u8>> = vec![b"hello ".to_vec(), b"wor".to_vec(), b"ld".to_vec()];
    let mut captured: Vec<u8> = Vec::new();
    let mut relayed: Vec<u8> = Vec::new();
    for c in &chunks {
        let a = pump_step(true, true, PumpEvent::Chunk(c.clone()));
        assert!(a.record_activity);
        assert!(!a.stop);
        captured.extend(a.capture_write.unwrap());
        relayed.extend(a.relay_write.unwrap());
    }
    let a = pump_step(true, true, PumpEvent::Eof);
    assert!(a.stop);
    assert!(a.capture_write.is_none());
    assert_eq!(captured, relayed);
    assert_eq!(captured, b"hello world".to_vec());
}

#[test]
fn pump_records_activity_even_without_destinations() {
    let a = pump_step(false, false, PumpEvent::Chunk(b"x".to_vec()));
    assert!(a.record_activity);
    assert!(a.capture_write.is_none());
    assert!(a.relay_write.is_none());
    assert!(!a.stop);
}

#[test]
fn pump_stops_on_errors() {
    for e in [PumpEvent::Eof, PumpEvent::ReadFailed, PumpEvent::WriteFailed] {
        let a = pump_step(true, true, e);
        assert!(a.stop);
        assert!(!a.record_activity);
        assert!(a.capture_write.is_none());
        assert!(a.relay_write.is_none());
    }
}

#[test]
fn spawn_plan_splits_program_and_arguments() {
    let config = CommandConfig::new(strings(&["echo", "Hello,", "World!"]));
    let plan = spawn_plan(&config);
    assert_eq!(plan.program, "echo");
    assert_eq!(plan.arg_tail, strings(&["Hello,", "World!"]));
    assert!(matches!(plan.stdin, StdinPlan::Inherited));
    assert!(plan.cwd.is_none());
}

#[test]
fn spawn_plan_carries_full_stdin_payload_in_order() {
    // The configured payload reaches the child's input pipe whole and in
    // order, and the input is piped exactly when a payload is set.
    let payload = b"line one\nline two\n".to_vec();
    let config = CommandConfig::new(strings(&["cat"])).with_input(payload.clone());
    let plan = spawn_plan(&config);
    match plan.stdin {
        StdinPlan::Piped(bytes) => assert_eq!(bytes, payload),
        StdinPlan::Inherited => panic!("stdin should be piped"),
    }
}

#[test]
fn spawn_plan_carries_working_directory() {
    let config = CommandConfig::new(strings(&["pwd"])).with_cwd("/tmp".to_string());
    let plan = spawn_plan(&config);
    assert_eq!(plan.cwd, Some("/tmp".to_string()));

    let config = CommandConfig::new(strings(&["pwd"]));
    let plan = spawn_plan(&config);
    assert_eq!(plan.cwd, None);
}

#[test]
fn spawn_plan_carries_environment_overrides() {
    let mut env = EnvMap::new();
    env.insert("TEST_VAR".to_string(), "test_value".to_string());
    env.insert("ANOTHER_VAR".to_string(), "another_value".to_string());
    let config = CommandConfig::new(strings(&["env"])).with_env(env);
    let plan = spawn_plan(&config);
    assert_eq!(
        plan.env_overrides.get("TEST_VAR").map(|v| v.as_str()),
        Some("test_value")
    );
    assert_eq!(
        plan.env_overrides.get("ANOTHER_VAR").map(|v| v.as_str()),
        Some("another_value")
    );
    assert_eq!(plan.env_overrides.len(), 2);
}

#[test]
fn env_merge_prefers_overrides_and_keeps_the_rest() {
    // Variables present among the overrides are visible with their override
    // value; variables absent from them keep their inherited value.
    let mut base = EnvMap::new();
    base.insert("HOME".to_string(), "/root".to_string());
    base.insert("LANG".to_string(), "C".to_string());
    let mut overrides = EnvMap::new();
    overrides.insert("LANG".to_string(), "en_US.UTF-8".to_string());
    overrides.insert("TEST_VAR".to_string(), "test_value".to_string());

    let merged = overrides.merged_over(&base);
    assert_eq!(merged.get("HOME").map(|v| v.as_str()), Some("/root"));
    assert_eq!(merged.get("LANG").map(|v| v.as_str()), Some("en_US.UTF-8"));
    assert_eq!(merged.get("TEST_VAR").map(|v| v.as_str()), Some("test_value"));
    assert!(merged.get("UNSET_VAR").is_none());
}

#[test]
fn env_insert_replaces_existing_name() {
    let mut env = EnvMap::new();
    env.insert("KEY".to_string(), "one".to_string());
    env.insert("KEY".to_string(), "two".to_string());
    assert_eq!(env.len(), 1);
    assert_eq!(env.get("KEY").map(|v| v.as_str()), Some("two"));
}

#[test]
fn config_builders_fill_the_fields() {
    let mut env = EnvMap::new();
    env.insert("A".to_string(), "1".to_string());
    let config = CommandConfig::new(strings(&["prog", "arg"]))
        .with_env(env)
        .with_input(vec![1, 2, 3])
        .with_cwd("/var".to_string());
    assert_eq!(config.args, strings(&["prog", "arg"]));
    assert_eq!(config.input, Some(vec![1, 2, 3]));
    assert_eq!(config.cwd, Some("/var".to_string()));
    assert_eq!(config.env.len(), 1);
    assert!(config.timeout_ms.is_none());
    assert!(config.no_output_timeout_ms.is_none());
    assert!(config.stdout_fd.is_none());
    assert!(config.stderr_fd.is_none());
    assert!(config.sys_stdout_fd.is_none());
    assert!(config.sys_stderr_fd.is_none());
}

#[test]
fn rerunning_a_deterministic_command_is_identical() {
    // The engine's decisions are functions of the configuration and the
    // observed behaviour alone: replaying both gives the same exit code and
    // the same captured bytes.
    let run = || {
        let mut out: Vec<u8> = Vec::new();
        for chunk in [b"abc".to_vec(), b"def".to_vec()] {
            let a = pump_step(true, false, PumpEvent::Chunk(chunk));
            out.extend(a.capture_write.unwrap());
        }
        let d = decide_poll(None, None, 30, 30, PollEvent::Exited(Some(0)));
        (out, d)
    };
    let (out1, d1) = run();
    let (out2, d2) = run();
    assert_eq!(out1, out2);
    assert!(matches!(d1, PollDecision::Complete(0)));
    assert!(matches!(d2, PollDecision::Complete(0)));
}


#[test]
fn timeout_message_rounds_to_nearest_hundredth() {
    assert_eq!(timeout_message(124), "Command timed out after 0.12 seconds");
    assert_eq!(timeout_message(126), "Command timed out after 0.13 seconds");
    assert_eq!(timeout_message(995), "Command timed out after 1.00 seconds");
}

#[test]
fn destination_handles_must_come_in_pairs() {
    assert!(check_destination_pairing(None, None, None, None).is_ok());
    assert!(check_destination_pairing(Some(3), Some(4), None, None).is_ok());
    assert!(check_destination_pairing(Some(3), Some(4), Some(1), Some(2)).is_ok());
    let e = check_destination_pairing(Some(3), None, None, None).unwrap_err();
    assert_eq!(e.message, "Both stdout_fd and stderr_fd must be provided together");
    let e = check_destination_pairing(None, None, None, Some(2)).unwrap_err();
    assert_eq!(e.message, "Both sys_stdout_fd and sys_stderr_fd must be provided together");
}
