use desktop_service::data::{Payload, ServerStatus, ServiceError, StartBody};
use desktop_service::json::response_json;
use desktop_service::process::{file_stem, info, kill_candidates, record_start, stop};
use desktop_service::router::{envelope, version};

fn sleep_body() -> StartBody {
    StartBody {
        bin_path: "/bin/sleep".to_string(),
        args: vec!["5".to_string()],
        log_file: "/tmp/x.log".to_string(),
    }
}

fn unfindable_body() -> StartBody {
    StartBody {
        bin_path: "/no/such/dir/no_such_process_zz".to_string(),
        args: vec![],
        log_file: "/tmp/y.log".to_string(),
    }
}

#[test]
fn start_then_info_then_stop_scenario() {
    let mut status = ServerStatus::default();

    // POST /start: stop the previous process, spawn, record.  The spawn is
    // simulated with a fresh process identifier.
    let r = stop(&mut status);
    assert!(r.is_ok());
    record_start(&mut status, sleep_body(), 4242);
    let start_resp = response_json(&envelope(Ok(None)));
    assert_eq!(start_resp, "{\"code\":0,\"msg\":\"ok\",\"data\":null}");

    // GET /info reports the recorded specification.
    let r = info(&status);
    let body = r.unwrap();
    assert_eq!(body.bin_path, "/bin/sleep");
    assert_eq!(body.args, vec!["5".to_string()]);
    assert_eq!(body.log_file, "/tmp/x.log");
    let info_resp = response_json(&envelope(Ok(Some(Payload::Spec(body)))));
    assert_eq!(
        info_resp,
        "{\"code\":0,\"msg\":\"ok\",\"data\":{\"bin_path\":\"/bin/sleep\",\"args\":[\"5\"],\"log_file\":\"/tmp/x.log\"}}"
    );

    // POST /stop clears the record.
    let r = stop(&mut status);
    assert!(r.is_ok());
    let stop_resp = response_json(&envelope(r.map(|_| None)));
    assert_eq!(stop_resp, "{\"code\":0,\"msg\":\"ok\",\"data\":null}");

    // GET /info now fails with the fixed message.
    let r = info(&status);
    let err = r.err().unwrap();
    assert!(matches!(err, ServiceError::NotRunning));
    let info_resp = response_json(&envelope(Err(err)));
    assert_eq!(info_resp, "{\"code\":400,\"msg\":\"server not executed\",\"data\":null}");
}

#[test]
fn stop_is_idempotent() {
    let mut status = ServerStatus::default();
    assert!(stop(&mut status).is_ok());
    assert!(status.info.is_none());
    assert_eq!(status.pid, 0);

    record_start(&mut status, unfindable_body(), u32::MAX);
    assert!(stop(&mut status).is_ok());
    assert!(status.info.is_none());
    assert_eq!(status.pid, 0);
    assert!(stop(&mut status).is_ok());
    assert!(status.info.is_none());
    assert_eq!(status.pid, 0);
}

#[test]
fn start_replaces_previous_spec() {
    let mut status = ServerStatus::default();
    record_start(&mut status, sleep_body(), 11);
    record_start(&mut status, unfindable_body(), 12);
    let body = info(&status).unwrap();
    assert_eq!(body.bin_path, "/no/such/dir/no_such_process_zz");
    assert_eq!(status.pid, 12);
}

#[test]
fn kill_candidates_match_tracked_pid_only() {
    let cands = vec![7, 11, 7, 42];
    assert_eq!(kill_candidates(&cands, 7), vec![7, 7]);
    assert_eq!(kill_candidates(&cands, 42), vec![42]);
    assert_eq!(kill_candidates(&cands, 5), Vec::<u32>::new());
}

#[test]
fn file_stem_strips_directory_and_extension() {
    assert_eq!(file_stem("/bin/sleep"), Some("sleep".to_string()));
    assert_eq!(file_stem("app.exe"), Some("app".to_string()));
    assert_eq!(file_stem("/usr/bin/tool.tar.gz"), Some("tool.tar".to_string()));
    assert_eq!(file_stem(".bashrc"), Some(".bashrc".to_string()));
    assert_eq!(file_stem("C:\\tools\\app.exe"), Some("app".to_string()));
    assert_eq!(file_stem(""), None);
    assert_eq!(file_stem("/bin/"), None);
}

#[test]
fn version_reports_service_name() {
    let v = version().unwrap();
    assert_eq!(v.service, "Desktop Service");
    assert_eq!(v.version, "1.0.0");
    let resp = response_json(&envelope(Ok(Some(Payload::Version(v)))));
    assert_eq!(
        resp,
        "{\"code\":0,\"msg\":\"ok\",\"data\":{\"service\":\"Desktop Service\",\"version\":\"1.0.0\"}}"
    );
}
