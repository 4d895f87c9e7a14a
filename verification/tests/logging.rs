//! Tests for the filter merging, the pre-initialization buffer and the file
//! lock record.

use zutil::file_lock::FileLock;
use zutil::logger::get_env_filters;
use zutil::pre_init::{PreInitLogger, PreInitOutput, PreOutputWrite};

fn defaults() -> Vec<(Option<String>, String)> {
    vec![
        (None, "info".to_owned()),
        (Some("quiet_mod".to_owned()), "warn".to_owned()),
    ]
}

#[test]
fn env_filters_from_defaults_alone() {
    assert_eq!(get_env_filters(None, defaults()), "info,quiet_mod=warn");
    assert_eq!(get_env_filters(None, vec![]), "");
}

#[test]
fn env_filters_keep_environment_precedence() {
    let var = Some("debug,quiet_mod=error".to_owned());
    assert_eq!(get_env_filters(var, defaults()), "debug,quiet_mod=error");
}

#[test]
fn env_filters_merge_missing_defaults() {
    let var = Some("noisy=trace".to_owned());
    assert_eq!(get_env_filters(var, defaults()), "noisy=trace,info,quiet_mod=warn");
}

#[test]
fn env_filters_later_entries_override_earlier() {
    let var = Some("a=x,a=y,b=z".to_owned());
    assert_eq!(get_env_filters(var, vec![]), "a=y,b=z");
}

#[test]
fn env_filters_split_only_at_first_equals() {
    let var = Some("a=b=c".to_owned());
    assert_eq!(get_env_filters(var, vec![]), "a=b=c");
}

#[test]
fn pre_init_output_captures_and_hands_over() {
    let mut logger = PreInitLogger::new();
    logger.capture(b"first ");
    logger.capture(b"second");
    let output = logger.into_output();
    let copied = output.with_bytes(|bytes: &[u8]| bytes.to_vec());
    assert_eq!(copied, b"first second".to_vec());
}

#[test]
fn pre_output_writer_appends_whole_chunks() {
    let mut w = PreOutputWrite::new(PreInitOutput::new());
    assert_eq!(w.write(b"abc"), 3);
    w.flush();
    assert_eq!(w.write(b"de"), 2);
    let out = w.into_output();
    assert_eq!(out.with_bytes(|bytes: &[u8]| bytes.to_vec()), b"abcde".to_vec());
}

#[test]
fn file_lock_returns_its_path_on_unlock() {
    let lock = FileLock::new("/tmp/app.lock".to_owned());
    assert_eq!(lock.path(), "/tmp/app.lock");
    assert_eq!(lock.unlock(), "/tmp/app.lock".to_owned());
}
