use std::cell::RefCell;

use opskit::cmd::{
    command, command_to_string, command_with_envs_to_string, exec, exec_with_envs,
    exec_with_envs_and_output, exec_with_output, run_version_command_for, Observation, ProcessSpec,
};
use opskit::error::{ExitStatus, SimpleError, SimpleErrorKind};

fn ok_status(code: i32) -> Result<ExitStatus, SimpleError> {
    Ok(ExitStatus {
        code: Some(code),
        signal: None,
    })
}

#[test]
fn command_single_token() {
    let spec = command("ls", vec!["-l"], None).unwrap();
    assert!(spec.current_dir.is_none());
    assert_eq!(spec.binary, "ls");
    assert_eq!(spec.args, vec!["-l".to_string()]);
    assert!(spec.envs.is_empty());
}

#[test]
fn command_directory_and_binary() {
    let spec = command("/tmp/work mytool", vec![], None).unwrap();
    assert_eq!(spec.current_dir.as_deref(), Some("/tmp/work"));
    assert_eq!(spec.binary, "mytool");
}

#[test]
fn command_extra_tokens_keep_first_two() {
    let spec = command("/a b c", vec![], None).unwrap();
    assert_eq!(spec.current_dir.as_deref(), Some("/a"));
    assert_eq!(spec.binary, "b");
}

#[test]
fn command_splits_on_tabs_and_repeated_whitespace() {
    let spec = command("dir\t \n tool", vec![], None).unwrap();
    assert_eq!(spec.current_dir.as_deref(), Some("dir"));
    assert_eq!(spec.binary, "tool");
}

#[test]
fn command_splits_on_unicode_whitespace() {
    let spec = command("dir\u{00A0}tool", vec![], None).unwrap();
    assert_eq!(spec.current_dir.as_deref(), Some("dir"));
    assert_eq!(spec.binary, "tool");
}

#[test]
fn command_empty_locator_is_invalid_input() {
    let err = command("", vec![], None).unwrap_err();
    assert!(matches!(err.kind, SimpleErrorKind::InvalidInput));
}

#[test]
fn command_blank_locator_is_invalid_input() {
    let err = command("   \t ", vec![], None).unwrap_err();
    assert!(matches!(err.kind, SimpleErrorKind::InvalidInput));
}

#[test]
fn command_keeps_env_overrides_in_order() {
    let spec = command("bin", vec![], Some(vec![("A", "1"), ("B", "2"), ("A", "3")])).unwrap();
    let envs: Vec<(String, String)> = vec![
        ("A".to_string(), "1".to_string()),
        ("B".to_string(), "2".to_string()),
        ("A".to_string(), "3".to_string()),
    ];
    assert_eq!(spec.envs, envs);
}

#[test]
fn command_to_string_joins_binary_and_args() {
    let r = command_to_string("ls", &vec!["-l", "-a"]);
    assert_eq!(r, "ls -l -a");
}

#[test]
fn command_to_string_without_args_keeps_separator() {
    let r = command_to_string("ls", &vec![]);
    assert_eq!(r, "ls ");
}

#[test]
fn command_with_envs_to_string_renders_pairs_first() {
    let r = command_with_envs_to_string(
        "/tmp/work mytool",
        &vec!["--flag", "x"],
        &vec![("FOO", "bar")],
    );
    assert_eq!(r, "FOO=bar /tmp/work --flag x");
}

#[test]
fn command_with_envs_to_string_one_token_locator() {
    let r = command_with_envs_to_string("/tmp/work", &vec!["--flag", "x"], &vec![("FOO", "bar")]);
    assert_eq!(r, "FOO=bar /tmp/work --flag x");
}

#[test]
fn command_to_string_renders_first_locator_token() {
    let r = command_to_string("/tmp/work mytool", &vec!["-l"]);
    assert_eq!(r, "/tmp/work -l");
}

#[test]
fn command_with_envs_to_string_joins_several_pairs() {
    let r = command_with_envs_to_string("bin", &vec!["a"], &vec![("K", "1"), ("L", "2")]);
    assert_eq!(r, "K=1 L=2 bin a");
}

#[test]
fn exec_zero_exit_is_success() {
    let r = exec("true", vec![], |_s: ProcessSpec| ok_status(0));
    assert!(r.is_ok());
}

#[test]
fn exec_nonzero_exit_carries_exact_status() {
    let r = exec("false", vec!["x"], |_s: ProcessSpec| ok_status(3));
    let err = r.unwrap_err();
    match err.kind {
        SimpleErrorKind::Command(st) => assert_eq!(st.code, Some(3)),
        _ => panic!("expected a command failure"),
    }
    assert_eq!(
        err.message.as_deref(),
        Some("error while executing an internal command")
    );
}

#[test]
fn exec_signal_termination_carries_the_signal() {
    let r = exec("tool", vec![], |_s: ProcessSpec| {
        Ok(ExitStatus {
            code: None,
            signal: Some(9),
        })
    });
    match r.unwrap_err().kind {
        SimpleErrorKind::Command(st) => {
            assert_eq!(st.code, None);
            assert_eq!(st.signal, Some(9));
        }
        _ => panic!("expected a command failure"),
    }
}

#[test]
fn exec_empty_locator_never_reaches_the_runner() {
    let called = RefCell::new(false);
    let r = exec("", vec![], |_s: ProcessSpec| {
        *called.borrow_mut() = true;
        ok_status(0)
    });
    assert!(matches!(
        r.unwrap_err().kind,
        SimpleErrorKind::InvalidInput
    ));
    assert!(!*called.borrow());
}

#[test]
fn exec_launch_error_is_handed_through() {
    let r = exec("tool", vec![], |_s: ProcessSpec| {
        Err(SimpleError::new(
            SimpleErrorKind::LaunchFailed,
            Some("no such binary"),
        ))
    });
    let err = r.unwrap_err();
    assert!(matches!(err.kind, SimpleErrorKind::LaunchFailed));
    assert_eq!(err.message.as_deref(), Some("no such binary"));
}

#[test]
fn exec_wait_error_is_handed_through() {
    let r = exec("tool", vec![], |_s: ProcessSpec| {
        Err(SimpleError::new(SimpleErrorKind::WaitFailed, None))
    });
    assert!(matches!(r.unwrap_err().kind, SimpleErrorKind::WaitFailed));
}

#[test]
fn exec_passes_the_resolved_specification() {
    let seen: RefCell<Option<ProcessSpec>> = RefCell::new(None);
    let r = exec("/tmp/work mytool", vec!["--flag", "x"], |s: ProcessSpec| {
        *seen.borrow_mut() = Some(s);
        ok_status(0)
    });
    assert!(r.is_ok());
    let spec = seen.into_inner().unwrap();
    assert_eq!(spec.current_dir.as_deref(), Some("/tmp/work"));
    assert_eq!(spec.binary, "mytool");
    assert_eq!(spec.args, vec!["--flag".to_string(), "x".to_string()]);
    assert!(spec.envs.is_empty());
}

#[test]
fn exec_with_envs_passes_overrides() {
    let seen: RefCell<Option<ProcessSpec>> = RefCell::new(None);
    let r = exec_with_envs(
        "tool",
        vec![],
        vec![("FOO", "bar")],
        |s: ProcessSpec| {
            *seen.borrow_mut() = Some(s);
            ok_status(1)
        },
    );
    assert!(r.is_err());
    let spec = seen.into_inner().unwrap();
    assert_eq!(
        spec.envs,
        vec![("FOO".to_string(), "bar".to_string())]
    );
}

#[test]
fn observed_run_dispatches_each_line_in_order() {
    let out_seen: RefCell<Vec<String>> = RefCell::new(vec![]);
    let err_seen: RefCell<Vec<String>> = RefCell::new(vec![]);
    let r = exec_with_output(
        "tool",
        vec![],
        |l: Result<String, SimpleError>| out_seen.borrow_mut().push(l.unwrap()),
        |l: Result<String, SimpleError>| err_seen.borrow_mut().push(l.unwrap()),
        |_s: ProcessSpec| Observation {
            stdout_lines: vec![
                Ok("first line".to_string()),
                Ok("second line".to_string()),
                Ok("third line".to_string()),
            ],
            stderr_lines: vec![Ok("warn a".to_string()), Ok("warn b".to_string())],
            wait: ok_status(0),
        },
    );
    assert!(r.is_ok());
    assert_eq!(
        *out_seen.borrow(),
        vec!["first line", "second line", "third line"]
    );
    assert_eq!(*err_seen.borrow(), vec!["warn a", "warn b"]);
}

#[test]
fn observed_run_reports_read_errors_in_place() {
    let kinds: RefCell<Vec<String>> = RefCell::new(vec![]);
    let r = exec_with_output(
        "tool",
        vec![],
        |l: Result<String, SimpleError>| match l {
            Ok(s) => kinds.borrow_mut().push(format!("ok:{}", s)),
            Err(_) => kinds.borrow_mut().push("err".to_string()),
        },
        |_l: Result<String, SimpleError>| {},
        |_s: ProcessSpec| Observation {
            stdout_lines: vec![
                Ok("a".to_string()),
                Err(SimpleError::new(SimpleErrorKind::Other, Some("bad read"))),
                Ok("b".to_string()),
            ],
            stderr_lines: vec![],
            wait: ok_status(7),
        },
    );
    match r.unwrap_err().kind {
        SimpleErrorKind::Command(st) => assert_eq!(st.code, Some(7)),
        _ => panic!("expected a command failure"),
    }
    assert_eq!(*kinds.borrow(), vec!["ok:a", "err", "ok:b"]);
}

#[test]
fn observed_run_with_envs_dispatches_and_concludes() {
    let out_seen: RefCell<Vec<String>> = RefCell::new(vec![]);
    let r = exec_with_envs_and_output(
        "tool",
        vec![],
        vec![("K", "v")],
        |l: Result<String, SimpleError>| out_seen.borrow_mut().push(l.unwrap()),
        |_l: Result<String, SimpleError>| {},
        |s: ProcessSpec| Observation {
            stdout_lines: vec![Ok(s.envs[0].0.clone())],
            stderr_lines: vec![],
            wait: ok_status(0),
        },
    );
    assert!(r.is_ok());
    assert_eq!(*out_seen.borrow(), vec!["K"]);
}

#[test]
fn version_output_concatenates_stdout_lines() {
    let r = run_version_command_for("git", |_s: ProcessSpec| Observation {
        stdout_lines: vec![
            Ok("git version 2.30".to_string()),
            Ok(" extra".to_string()),
        ],
        stderr_lines: vec![],
        wait: ok_status(0),
    });
    assert_eq!(r, "git version 2.30 extra");
}

#[test]
fn version_output_requests_the_version_flag() {
    let seen: RefCell<Option<ProcessSpec>> = RefCell::new(None);
    let r = run_version_command_for("git", |s: ProcessSpec| {
        *seen.borrow_mut() = Some(s);
        Observation {
            stdout_lines: vec![],
            stderr_lines: vec![],
            wait: ok_status(0),
        }
    });
    assert_eq!(r, "");
    let spec = seen.into_inner().unwrap();
    assert_eq!(spec.binary, "git");
    assert_eq!(spec.args, vec!["--version".to_string()]);
}

#[test]
fn version_output_skips_read_errors_and_stderr() {
    let r = run_version_command_for("tool", |_s: ProcessSpec| Observation {
        stdout_lines: vec![
            Ok("a".to_string()),
            Err(SimpleError::new(SimpleErrorKind::Other, Some("bad read"))),
            Ok("b".to_string()),
        ],
        stderr_lines: vec![Ok("noise".to_string())],
        wait: Err(SimpleError::new(SimpleErrorKind::WaitFailed, None)),
    });
    assert_eq!(r, "ab");
}
