use command_builder::{Command, EnvMap, Stdio, StringConversionError};

fn pair(k: &[u8], v: &[u8]) -> (Vec<u8>, Vec<u8>) {
    (k.to_vec(), v.to_vec())
}

fn argv(cmd: &Command) -> Vec<Vec<u8>> {
    cmd.arguments().iter().map(|a| a.as_bytes().to_vec()).collect()
}

fn sorted(m: &EnvMap) -> Vec<(Vec<u8>, Vec<u8>)> {
    let mut pairs = m.to_pairs();
    pairs.sort();
    pairs
}

#[test]
fn new_sets_program_and_first_argument() {
    let cmd = Command::new(b"/bin/ls").unwrap();
    assert_eq!(cmd.program(), b"/bin/ls");
    assert_eq!(argv(&cmd), vec![b"/bin/ls".to_vec()]);
    assert!(cmd.environ().is_none());
    assert!(cmd.work_dir().is_none());
    assert_eq!(cmd.stdin_config(), None);
    assert_eq!(cmd.stdout_config(), None);
    assert_eq!(cmd.stderr_config(), None);
}

#[test]
fn new_accepts_empty_program() {
    let cmd = Command::new(b"").unwrap();
    assert_eq!(cmd.program(), b"");
    assert_eq!(argv(&cmd), vec![Vec::<u8>::new()]);
}

#[test]
fn new_rejects_embedded_nul() {
    let r = Command::new(b"ec\0ho");
    assert_eq!(r.err(), Some(StringConversionError { position: 2 }));
}

#[test]
fn new_reports_first_of_several_nuls() {
    let r = Command::new(b"\0a\0");
    assert_eq!(r.err(), Some(StringConversionError { position: 0 }));
}

#[test]
fn arg_appends_in_call_order() {
    let mut cmd = Command::new(b"prog").unwrap();
    cmd.arg(b"-a").unwrap().arg(b"-b").unwrap().arg(b"file").unwrap();
    assert_eq!(
        argv(&cmd),
        vec![b"prog".to_vec(), b"-a".to_vec(), b"-b".to_vec(), b"file".to_vec()]
    );
    assert_eq!(cmd.program(), b"prog");
}

#[test]
fn arg_keeps_repeated_values() {
    let mut cmd = Command::new(b"prog").unwrap();
    cmd.arg(b"x").unwrap();
    cmd.arg(b"x").unwrap();
    assert_eq!(argv(&cmd), vec![b"prog".to_vec(), b"x".to_vec(), b"x".to_vec()]);
}

#[test]
fn arg_with_nul_fails_and_changes_nothing() {
    let mut cmd = Command::new(b"prog").unwrap();
    cmd.arg(b"one").unwrap();
    let r = cmd.arg(b"tw\0o").map(|_| ());
    assert_eq!(r, Err(StringConversionError { position: 2 }));
    assert_eq!(argv(&cmd), vec![b"prog".to_vec(), b"one".to_vec()]);
}

#[test]
fn args_equals_repeated_arg() {
    let mut together = Command::new(b"prog").unwrap();
    together.args(&[&b"a"[..], &b"bb"[..], &b"ccc"[..]]).unwrap();
    let mut one_by_one = Command::new(b"prog").unwrap();
    one_by_one.arg(b"a").unwrap();
    one_by_one.arg(b"bb").unwrap();
    one_by_one.arg(b"ccc").unwrap();
    assert_eq!(argv(&together), argv(&one_by_one));
    assert_eq!(
        argv(&together),
        vec![b"prog".to_vec(), b"a".to_vec(), b"bb".to_vec(), b"ccc".to_vec()]
    );
}

#[test]
fn args_appends_and_does_not_replace() {
    let mut cmd = Command::new(b"prog").unwrap();
    cmd.arg(b"first").unwrap();
    cmd.args(&[&b"second"[..]]).unwrap();
    cmd.args(&[]).unwrap();
    assert_eq!(
        argv(&cmd),
        vec![b"prog".to_vec(), b"first".to_vec(), b"second".to_vec()]
    );
}

#[test]
fn args_with_nul_fails_and_changes_nothing() {
    let mut cmd = Command::new(b"prog").unwrap();
    let r = cmd
        .args(&[&b"ok"[..], &b"abc\0"[..], &b"\0"[..]])
        .map(|_| ());
    assert_eq!(r, Err(StringConversionError { position: 3 }));
    assert_eq!(argv(&cmd), vec![b"prog".to_vec()]);
}

#[test]
fn env_set_then_read() {
    let mut cmd = Command::new(b"prog").unwrap();
    cmd.env(b"K", b"v", &[]).unwrap();
    assert_eq!(cmd.environ().unwrap().get(b"K"), Some(&b"v"[..]));
}

#[test]
fn env_last_write_wins() {
    let mut cmd = Command::new(b"prog").unwrap();
    cmd.env(b"K", b"v", &[]).unwrap().env(b"K", b"v2", &[]).unwrap();
    let m = cmd.environ().unwrap();
    assert_eq!(m.get(b"K"), Some(&b"v2"[..]));
    assert_eq!(sorted(m), vec![pair(b"K", b"v2")]);
}

#[test]
fn env_remove_after_set_leaves_key_absent() {
    let mut cmd = Command::new(b"prog").unwrap();
    cmd.env(b"K", b"v", &[]).unwrap().env_remove(b"K", &[]);
    let m = cmd.environ().unwrap();
    assert_eq!(m.get(b"K"), None);
    assert!(!m.contains_key(b"K"));
    assert!(m.is_empty());
}

#[test]
fn env_materializes_ambient_variables() {
    let ambient = vec![pair(b"PATH", b"/bin")];
    let mut cmd = Command::new(b"prog").unwrap();
    cmd.env(b"X", b"1", &ambient).unwrap();
    let m = cmd.environ().unwrap();
    assert_eq!(m.get(b"PATH"), Some(&b"/bin"[..]));
    assert_eq!(m.get(b"X"), Some(&b"1"[..]));
    assert_eq!(sorted(m), vec![pair(b"PATH", b"/bin"), pair(b"X", b"1")]);
}

#[test]
fn env_overrides_ambient_value() {
    let ambient = vec![pair(b"PATH", b"/bin"), pair(b"HOME", b"/root")];
    let mut cmd = Command::new(b"prog").unwrap();
    cmd.env(b"PATH", b"/usr/bin", &ambient).unwrap();
    assert_eq!(
        sorted(cmd.environ().unwrap()),
        vec![pair(b"HOME", b"/root"), pair(b"PATH", b"/usr/bin")]
    );
}

#[test]
fn env_snapshot_is_taken_once() {
    let first = vec![pair(b"A", b"1")];
    let second = vec![pair(b"B", b"2")];
    let mut cmd = Command::new(b"prog").unwrap();
    cmd.env(b"X", b"x", &first).unwrap();
    cmd.env(b"Y", b"y", &second).unwrap();
    cmd.env_remove(b"nothing", &second);
    assert_eq!(
        sorted(cmd.environ().unwrap()),
        vec![pair(b"A", b"1"), pair(b"X", b"x"), pair(b"Y", b"y")]
    );
}

#[test]
fn env_remove_materializes_and_keeps_others() {
    let ambient = vec![pair(b"PATH", b"/bin"), pair(b"HOME", b"/root")];
    let mut cmd = Command::new(b"prog").unwrap();
    cmd.env_remove(b"HOME", &ambient);
    assert_eq!(sorted(cmd.environ().unwrap()), vec![pair(b"PATH", b"/bin")]);
}

#[test]
fn env_remove_of_absent_key_only_materializes() {
    let ambient = vec![pair(b"PATH", b"/bin")];
    let mut cmd = Command::new(b"prog").unwrap();
    cmd.env_remove(b"NOPE", &ambient);
    assert_eq!(sorted(cmd.environ().unwrap()), vec![pair(b"PATH", b"/bin")]);
}

#[test]
fn env_remove_twice_is_once() {
    let ambient = vec![pair(b"PATH", b"/bin"), pair(b"HOME", b"/root")];
    let mut once = Command::new(b"prog").unwrap();
    once.env_remove(b"PATH", &ambient);
    let mut twice = Command::new(b"prog").unwrap();
    twice.env_remove(b"PATH", &ambient).env_remove(b"PATH", &ambient);
    assert_eq!(sorted(once.environ().unwrap()), sorted(twice.environ().unwrap()));
    assert_eq!(sorted(twice.environ().unwrap()), vec![pair(b"HOME", b"/root")]);
}

#[test]
fn env_clear_gives_empty_mapping() {
    let ambient = vec![pair(b"PATH", b"/bin")];
    let mut cmd = Command::new(b"prog").unwrap();
    cmd.env(b"X", b"1", &ambient).unwrap().env_clear();
    assert!(cmd.environ().unwrap().is_empty());
    assert_eq!(sorted(&cmd.effective_env(&ambient)), vec![]);
}

#[test]
fn env_clear_before_any_change_detaches_from_ambient() {
    let ambient = vec![pair(b"PATH", b"/bin")];
    let mut cmd = Command::new(b"prog").unwrap();
    cmd.env_clear();
    assert!(cmd.environ().is_some());
    assert!(cmd.effective_env(&ambient).is_empty());
}

#[test]
fn env_after_clear_has_no_ambient_leak() {
    let ambient = vec![pair(b"PATH", b"/bin"), pair(b"HOME", b"/root")];
    let mut cmd = Command::new(b"prog").unwrap();
    cmd.env_clear().env(b"ONLY", b"this", &ambient).unwrap();
    assert_eq!(sorted(cmd.environ().unwrap()), vec![pair(b"ONLY", b"this")]);
}

#[test]
fn env_clear_twice_is_once() {
    let ambient = vec![pair(b"PATH", b"/bin")];
    let mut cmd = Command::new(b"prog").unwrap();
    cmd.env(b"X", b"1", &ambient).unwrap();
    cmd.env_clear().env_clear();
    assert!(cmd.environ().unwrap().is_empty());
}

#[test]
fn env_with_nul_in_key_fails_without_materializing() {
    let ambient = vec![pair(b"PATH", b"/bin")];
    let mut cmd = Command::new(b"prog").unwrap();
    let r = cmd.env(b"K\0", b"\0", &ambient).map(|_| ());
    assert_eq!(r, Err(StringConversionError { position: 1 }));
    assert!(cmd.environ().is_none());
}

#[test]
fn env_with_nul_in_value_fails_and_changes_nothing() {
    let ambient = vec![pair(b"PATH", b"/bin")];
    let mut cmd = Command::new(b"prog").unwrap();
    cmd.env(b"K", b"v", &ambient).unwrap();
    let r = cmd.env(b"K", b"abcd\0", &ambient).map(|_| ());
    assert_eq!(r, Err(StringConversionError { position: 4 }));
    assert_eq!(
        sorted(cmd.environ().unwrap()),
        vec![pair(b"K", b"v"), pair(b"PATH", b"/bin")]
    );
}

#[test]
fn init_env_map_snapshots_once() {
    let first = vec![pair(b"A", b"1"), pair(b"A", b"2"), pair(b"B", b"3")];
    let second = vec![pair(b"C", b"4")];
    let mut cmd = Command::new(b"prog").unwrap();
    cmd.init_env_map(&first);
    cmd.init_env_map(&second);
    assert_eq!(
        sorted(cmd.environ().unwrap()),
        vec![pair(b"A", b"2"), pair(b"B", b"3")]
    );
}

#[test]
fn effective_env_is_ambient_while_inherited() {
    let ambient = vec![pair(b"PATH", b"/bin"), pair(b"HOME", b"/root")];
    let cmd = Command::new(b"prog").unwrap();
    assert!(cmd.environ().is_none());
    assert_eq!(
        sorted(&cmd.effective_env(&ambient)),
        vec![pair(b"HOME", b"/root"), pair(b"PATH", b"/bin")]
    );
}

#[test]
fn effective_env_ignores_ambient_once_materialized() {
    let ambient = vec![pair(b"PATH", b"/bin")];
    let later = vec![pair(b"OTHER", b"x")];
    let mut cmd = Command::new(b"prog").unwrap();
    cmd.env(b"X", b"1", &ambient).unwrap();
    assert_eq!(
        sorted(&cmd.effective_env(&later)),
        vec![pair(b"PATH", b"/bin"), pair(b"X", b"1")]
    );
}

#[test]
fn current_dir_records_override() {
    let mut cmd = Command::new(b"prog").unwrap();
    cmd.current_dir(b"/tmp").unwrap();
    assert_eq!(cmd.work_dir(), Some(&b"/tmp"[..]));
    cmd.current_dir(b"/var").unwrap();
    assert_eq!(cmd.work_dir(), Some(&b"/var"[..]));
    assert_eq!(argv(&cmd), vec![b"prog".to_vec()]);
}

#[test]
fn current_dir_with_nul_fails_and_keeps_previous() {
    let mut cmd = Command::new(b"prog").unwrap();
    cmd.current_dir(b"/tmp").unwrap();
    let r = cmd.current_dir(b"/a\0b").map(|_| ());
    assert_eq!(r, Err(StringConversionError { position: 2 }));
    assert_eq!(cmd.work_dir(), Some(&b"/tmp"[..]));
}

#[test]
fn stdout_leaves_other_streams_unset() {
    let mut cmd = Command::new(b"prog").unwrap();
    cmd.stdout(Stdio::Piped);
    assert_eq!(cmd.stdout_config(), Some(Stdio::Piped));
    assert_eq!(cmd.stdin_config(), None);
    assert_eq!(cmd.stderr_config(), None);
}

#[test]
fn each_stream_is_recorded_on_its_own() {
    let mut cmd = Command::new(b"prog").unwrap();
    cmd.stdin(Stdio::Null).stderr(Stdio::Fd(7));
    assert_eq!(cmd.stdin_config(), Some(Stdio::Null));
    assert_eq!(cmd.stdout_config(), None);
    assert_eq!(cmd.stderr_config(), Some(Stdio::Fd(7)));
    cmd.stdout(Stdio::Inherit).stdin(Stdio::Piped);
    assert_eq!(cmd.stdin_config(), Some(Stdio::Piped));
    assert_eq!(cmd.stdout_config(), Some(Stdio::Inherit));
    assert_eq!(cmd.stderr_config(), Some(Stdio::Fd(7)));
}

#[test]
fn echo_hello_world_with_foo() {
    let ambient = vec![pair(b"PATH", b"/bin"), pair(b"HOME", b"/root")];
    let mut cmd = Command::new(b"echo").unwrap();
    cmd.args(&[&b"hello"[..], &b"world"[..]])
        .unwrap()
        .env(b"FOO", b"bar", &ambient)
        .unwrap();
    assert_eq!(
        argv(&cmd),
        vec![b"echo".to_vec(), b"hello".to_vec(), b"world".to_vec()]
    );
    assert_eq!(
        sorted(&cmd.effective_env(&ambient)),
        vec![pair(b"FOO", b"bar"), pair(b"HOME", b"/root"), pair(b"PATH", b"/bin")]
    );
    assert_eq!(cmd.stdin_config(), None);
    assert_eq!(cmd.stdout_config(), None);
    assert_eq!(cmd.stderr_config(), None);
    assert!(cmd.work_dir().is_none());
}

#[test]
fn env_remove_of_unrepresentable_key_is_no_error() {
    let ambient = vec![pair(b"PATH", b"/bin")];
    let mut cmd = Command::new(b"prog").unwrap();
    cmd.env_remove(b"A\0B", &ambient);
    assert_eq!(sorted(cmd.environ().unwrap()), vec![pair(b"PATH", b"/bin")]);
}
