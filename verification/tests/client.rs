use sametime::file_hash::{sample_plan, sampled_digest, to_hex_lower, SAMPLE_SIZE};
use sametime::mpv::{
    ipc_keep_waiting, ipc_path, mpv_launch_args, pause_command, pipe_try_again, version_line, IPC_RETRY_MS, PIPE_ATTEMPTS,
    PIPE_RETRY_MS,
};
use sha2::Digest;

#[test]
fn sample_plan_by_size() {
    let small = sample_plan(100);
    assert!(small.middle.is_none() && small.tail.is_none());
    let one = sample_plan(SAMPLE_SIZE);
    assert!(one.middle.is_none() && one.tail.is_none());
    let mid = sample_plan(SAMPLE_SIZE + 1);
    assert_eq!(mid.tail, Some(1));
    assert!(mid.middle.is_none());
    let big = sample_plan(10 * SAMPLE_SIZE);
    assert_eq!(big.middle, Some(5 * SAMPLE_SIZE - SAMPLE_SIZE / 2));
    assert_eq!(big.tail, Some(9 * SAMPLE_SIZE));
    let two = sample_plan(2 * SAMPLE_SIZE);
    assert!(two.middle.is_none());
}

#[test]
fn digest_matches_sha256_of_samples_and_size() {
    let head = b"head bytes";
    let tail = b"tail";
    let got = sampled_digest(head, b"", tail, 123_456);
    let mut h = sha2::Sha256::new();
    h.update(head);
    h.update(tail);
    h.update(123_456u64.to_le_bytes());
    let want = format!("{:x}", h.finalize());
    assert_eq!(got, want);
    assert_eq!(got.len(), 64);
}

#[test]
fn digest_of_empty_file() {
    let got = sampled_digest(b"", b"", b"", 0);
    assert_eq!(got, "af5570f5a1810b7af78caf4bc70a660f0df51e42baf91d4de5b2328de0e83dfc");
}

#[test]
fn hex_is_lowercase_two_digits() {
    assert_eq!(to_hex_lower(&[0x00, 0x0f, 0xa0, 0xff]), "000fa0ff");
    assert_eq!(to_hex_lower(&[]), "");
}

#[test]
fn pause_commands() {
    assert_eq!(pause_command(true), r#"{ "command": ["set_property", "pause", true] }"#);
    assert_eq!(pause_command(false), r#"{ "command": ["set_property", "pause", false] }"#);
}

#[test]
fn version_line_is_first_line() {
    assert_eq!(version_line("mpv 0.37.0 Copyright\nbuilt on ...\n"), "mpv 0.37.0 Copyright");
    assert_eq!(version_line("mpv 0.36\r\nnext"), "mpv 0.36");
    assert_eq!(version_line("single"), "single");
    assert_eq!(version_line("trail\r"), "trail\r");
    assert_eq!(version_line("\nsecond"), "");
    assert_eq!(version_line(""), "unknown");
}

#[test]
fn ipc_path_by_platform() {
    assert_eq!(ipc_path(true), r"\\.\pipe\mpv-sametime");
    assert_eq!(ipc_path(false), "/tmp/mpv-sametime.sock");
}

#[test]
fn launch_args_in_order() {
    let args = mpv_launch_args("/tmp/s.sock", "/v/film.mkv");
    assert_eq!(
        args,
        vec![
            "--input-ipc-server=/tmp/s.sock",
            "--pause",
            "--keep-open=yes",
            "--idle=no",
            "--force-window=yes",
            "--ontop",
            "--no-border",
            "--autofit=70%",
            "--geometry=50%:50%",
            "/v/film.mkv",
        ]
    );
}

#[test]
fn ipc_wait_gives_up_after_five_seconds() {
    assert_eq!(IPC_RETRY_MS, 100);
    assert!(ipc_keep_waiting(0));
    assert!(ipc_keep_waiting(4_999));
    assert!(!ipc_keep_waiting(5_000));
    assert!(!ipc_keep_waiting(60_000));
}

#[test]
fn pipe_is_tried_five_times() {
    assert_eq!(PIPE_ATTEMPTS, 5);
    assert_eq!(PIPE_RETRY_MS, 50);
    let retried = (0..PIPE_ATTEMPTS).filter(|a| pipe_try_again(*a)).count();
    assert_eq!(retried, 4);
    assert!(pipe_try_again(0));
    assert!(pipe_try_again(3));
    assert!(!pipe_try_again(4));
    assert!(!pipe_try_again(u32::MAX));
}
