use yt_grab::download::{
    attempt_end, completion_payload, failure_message, is_youtube_client_error, plan_download,
    query_output, AttemptEnd, DownloadSupervisor, Phase, ProcessExit, SupervisorAction,
};
use yt_grab::registry::CancelledIds;

const HINT: &str = "\n\nYouTube may have changed its player clients. Updating the app (or its bundled yt-dlp) is recommended.";

#[test]
fn client_errors_are_recognised() {
    assert!(is_youtube_client_error("ERROR: unable to download video data: HTTP Error 403: Forbidden"));
    assert!(is_youtube_client_error("HTTP 403"));
    assert!(is_youtube_client_error("FORBIDDEN"));
    assert!(is_youtube_client_error("Sign in to confirm you’re not a bot"));
    assert!(is_youtube_client_error("I am Not A Bot"));
    assert!(is_youtube_client_error("Failed to extract any player response"));
    assert!(is_youtube_client_error("The page needs to be reloaded."));
}

#[test]
fn other_errors_are_not_client_errors() {
    assert!(!is_youtube_client_error(""));
    assert!(!is_youtube_client_error("ERROR: Unsupported URL"));
    assert!(!is_youtube_client_error("HTTP Error 404: Not Found"));
    assert!(!is_youtube_client_error("40 3"));
    assert!(!is_youtube_client_error("sign in"));
}

#[test]
fn client_error_check_agrees_with_unicode_lowercase() {
    for msg in ["FORBİDDEN", "SİGN IN TO CONFIRM", "forbidden\u{212a}", "ÄÖÜ 403", "Player Response", "NOT\u{a0}A BOT"] {
        let lower = msg.to_lowercase();
        let expected = ["403", "forbidden", "sign in to confirm", "not a bot", "player response", "needs to be reloaded"]
            .iter()
            .any(|m| lower.contains(m));
        assert_eq!(is_youtube_client_error(msg), expected, "message {:?}", msg);
    }
}

fn launch_args(a: &SupervisorAction) -> Option<Vec<String>> {
    match a {
        SupervisorAction::Launch(v) => Some(v.clone()),
        _ => None,
    }
}

#[test]
fn successful_first_attempt_ends_quietly() {
    let (mut s, first) = DownloadSupervisor::start("id1".to_string());
    assert_eq!(launch_args(&first), Some(vec![]));
    let a = s.attempt_finished(Ok(()), false);
    assert!(matches!(a, SupervisorAction::Stop));
    assert_eq!(s.phase, Phase::Finished);
}

#[test]
fn client_error_is_retried_once_with_embedded_client() {
    let (mut s, _) = DownloadSupervisor::start("id2".to_string());
    let a = s.attempt_finished(Err("HTTP Error 403: Forbidden".to_string()), false);
    assert_eq!(
        launch_args(&a),
        Some(vec!["--extractor-args".to_string(), "youtube:player_client=web_embedded".to_string()])
    );
    assert_eq!(s.phase, Phase::Retried);
    let b = s.attempt_finished(Err("HTTP Error 403: Forbidden".to_string()), false);
    match b {
        SupervisorAction::Report(p) => {
            assert_eq!(p.id, "id2");
            assert_eq!(p.error, format!("HTTP Error 403: Forbidden{}", HINT));
        }
        _ => panic!("expected a report"),
    }
    assert_eq!(s.phase, Phase::Finished);
    assert!(matches!(s.attempt_finished(Err("x".to_string()), false), SupervisorAction::Stop));
}

#[test]
fn successful_retry_ends_quietly() {
    let (mut s, _) = DownloadSupervisor::start("id3".to_string());
    assert!(launch_args(&s.attempt_finished(Err("not a bot".to_string()), false)).is_some());
    assert!(matches!(s.attempt_finished(Ok(()), false), SupervisorAction::Stop));
}

#[test]
fn other_errors_are_reported_without_retry() {
    let (mut s, _) = DownloadSupervisor::start("id4".to_string());
    match s.attempt_finished(Err("ERROR: Unsupported URL".to_string()), false) {
        SupervisorAction::Report(p) => {
            assert_eq!(p.id, "id4");
            assert_eq!(p.error, "ERROR: Unsupported URL");
        }
        _ => panic!("expected a report"),
    }
}

#[test]
fn cancelled_downloads_report_nothing() {
    let (mut s, _) = DownloadSupervisor::start("id5".to_string());
    assert!(matches!(s.attempt_finished(Err("HTTP Error 403".to_string()), true), SupervisorAction::Stop));
    let (mut t, _) = DownloadSupervisor::start("id6".to_string());
    assert!(matches!(t.attempt_finished(Err("Download was cancelled".to_string()), true), SupervisorAction::Stop));
    let (mut u, _) = DownloadSupervisor::start("id7".to_string());
    assert!(launch_args(&u.attempt_finished(Err("403".to_string()), false)).is_some());
    assert!(matches!(u.attempt_finished(Err("403".to_string()), true), SupervisorAction::Stop));
}

#[test]
fn failure_message_is_last_error_line() {
    assert_eq!(failure_message("exit status: 1", "WARNING: a\nERROR: b\n"), "ERROR: b");
    assert_eq!(failure_message("exit status: 1", "ERROR: a\r\n"), "ERROR: a");
    assert_eq!(failure_message("exit status: 1", "one\ntwo"), "two");
    assert_eq!(failure_message("exit status: 1", "one\ntwo\r"), "two\r");
    assert_eq!(failure_message("exit status: 1", "x\n\n"), "");
}

#[test]
fn failure_message_falls_back_to_exit_status() {
    assert_eq!(failure_message("exit status: 2", ""), "yt-dlp exited with code exit status: 2");
    assert_eq!(failure_message("exit status: 2", " \n\t\r\n"), "yt-dlp exited with code exit status: 2");
}

#[test]
fn failure_message_agrees_with_lines() {
    for err in ["a\nb", "a\nb\n", "a\r\nb\r\n", "x\n\ny", "x\ny\r", "only", "x\n\n"] {
        let expected = err.lines().last().unwrap_or("Unknown error").to_string();
        assert_eq!(failure_message("e", err), expected, "stderr {:?}", err);
    }
}

#[test]
fn query_output_is_trimmed() {
    assert_eq!(query_output(true, "2025.06.30\n").as_deref(), Some("2025.06.30"));
    assert_eq!(query_output(true, "  /out/Title.mp4 \r\n").as_deref(), Some("/out/Title.mp4"));
    assert_eq!(query_output(true, " \n "), None);
    assert_eq!(query_output(false, "2025.06.30"), None);
}

#[test]
fn completion_payload_names_the_file() {
    let p = completion_payload("id", "/out", Some("/out/Video.mp4".to_string()));
    assert_eq!((p.id.as_str(), p.path.as_str(), p.filename.as_str()), ("id", "/out", "/out/Video.mp4"));
    let q = completion_payload("id", "/out", None);
    assert_eq!(q.filename, "/out/download.mp4");
}

#[test]
fn planned_downloads_get_uuid_identifiers_from_their_bits() {
    let mut cancelled = CancelledIds::new();
    let a = plan_download(&mut cancelled, "/out", 0);
    assert_eq!(a.id, "00000000-0000-4000-8000-000000000000");
    assert_eq!(a.output_template, "/out/%(title)s.%(ext)s");
    let b = plan_download(&mut cancelled, "/out", u128::MAX);
    assert_eq!(b.id, "ffffffff-ffff-4fff-bfff-ffffffffffff");
    let c = plan_download(&mut cancelled, "/o", 0x0123456789abcdef0123456789abcdef);
    assert_eq!(c.id, "01234567-89ab-4def-8123-456789abcdef");
    for bits in [1u128, 0xdead_beef << 64, u128::MAX / 3] {
        let p = plan_download(&mut cancelled, "/o", bits);
        let expected = uuid::Builder::from_random_bytes(bits.to_be_bytes()).into_uuid().to_string();
        assert_eq!(p.id, expected);
    }
}

#[test]
fn planned_identifier_is_no_longer_cancelled() {
    let mut cancelled = CancelledIds::new();
    cancelled.insert("00000000-0000-4000-8000-000000000000".to_string());
    cancelled.insert("other".to_string());
    let a = plan_download(&mut cancelled, "/out", 0);
    assert!(!cancelled.contains(&a.id));
    assert!(cancelled.contains("other"));
}

#[test]
fn random_identifiers_have_the_uuid_shape() {
    let mut cancelled = CancelledIds::new();
    let a = plan_download(&mut cancelled, "/out", uuid::Uuid::new_v4().as_u128());
    let chars: Vec<char> = a.id.chars().collect();
    assert_eq!(chars.len(), 36);
    for (i, c) in chars.iter().enumerate() {
        if [8, 13, 18, 23].contains(&i) {
            assert_eq!(*c, '-');
        } else {
            assert!(c.is_ascii_hexdigit() && !c.is_ascii_uppercase());
        }
    }
    assert_eq!(chars[14], '4');
    assert!("89ab".contains(chars[19]));
}

fn exited(success: bool, status: &str, stderr: &str) -> Option<ProcessExit> {
    Some(ProcessExit::Exited { success, status: status.to_string(), stderr: stderr.to_string() })
}

#[test]
fn attempt_ends() {
    assert!(matches!(attempt_end(exited(true, "exit status: 0", ""), false), AttemptEnd::Complete));
    assert!(matches!(attempt_end(exited(true, "exit status: 0", ""), true), AttemptEnd::Quiet));
    match attempt_end(exited(false, "exit status: 1", "ERROR: x\n"), false) {
        AttemptEnd::Failed(m) => assert_eq!(m, "ERROR: x"),
        _ => panic!("expected a failure"),
    }
    match attempt_end(Some(ProcessExit::WaitFailed("boom".to_string())), false) {
        AttemptEnd::Failed(m) => assert_eq!(m, "Process error: boom"),
        _ => panic!("expected a failure"),
    }
}

#[test]
fn cancelled_before_the_run_ends_is_quiet() {
    match attempt_end(None, true) {
        AttemptEnd::Failed(m) => {
            assert_eq!(m, "Download was cancelled");
            let (mut s, _) = DownloadSupervisor::start("id".to_string());
            assert!(matches!(s.attempt_finished(Err(m), true), SupervisorAction::Stop));
        }
        _ => panic!("expected a failure"),
    }
}
