use localsend_core::device::{Device, DeviceType};
use localsend_core::dto::{FileDto, FileType, PrepareUploadRequestDto, RegisterDto};
use localsend_core::files::{FileStatus, SendingFiles};
use localsend_core::receive::{ReceiveError, ReceiveSessionStatus};
use localsend_core::send::{SendError, SendSession, UploadProgress};
use localsend_core::server::{
    cancel_v1, cancel_v2, cleanup_waiting, prepare_upload_finish, prepare_upload_start,
    upload_begin, upload_finish, ClientMessage, ServerState,
};

fn sender_info() -> RegisterDto {
    RegisterDto {
        alias: "phone".to_string(),
        version: Some("2.0".to_string()),
        device_model: Some("Pixel".to_string()),
        device_type: Some(DeviceType::Mobile),
        fingerprint: "sender-fp".to_string(),
        port: Some(53317),
        protocol: None,
        download: None,
    }
}

fn one_file_request() -> PrepareUploadRequestDto {
    PrepareUploadRequestDto {
        info: sender_info(),
        files: vec![FileDto {
            id: "F".to_string(),
            file_name: "hello.txt".to_string(),
            size: 5,
            file_type: FileType::Text,
            hash: None,
            preview: None,
        }],
    }
}

fn own_device() -> Device {
    Device {
        ip: "192.168.1.5".to_string(),
        version: "2.0".to_string(),
        port: 53318,
        https: false,
        fingerprint: "own-fp".to_string(),
        alias: "desk".to_string(),
        device_model: None,
        device_type: DeviceType::Headless,
        download: false,
    }
}

#[test]
fn happy_path_v2() {
    let mut state = ServerState::new();
    state.settings.quick_save = true;
    let (quick_save, files) =
        prepare_upload_start(&mut state, "10.0.0.2", &one_file_request()).unwrap();
    assert!(quick_save);
    assert_eq!(files.len(), 1);
    {
        let s = state.receive_session.as_ref().unwrap();
        assert_eq!(s.status, ReceiveSessionStatus::Waiting);
        assert_eq!(s.sender.ip, "10.0.0.2");
        assert_eq!(s.sender.fingerprint, "sender-fp");
        assert_eq!(s.destination_directory, ".");
    }
    let resp =
        prepare_upload_finish(&mut state, Some(ClientMessage::FilesSelected(files))).unwrap();
    assert_eq!(resp.files.len(), 1);
    assert_eq!(resp.files[0].0, "F");
    let session_id = resp.session_id.clone();
    let token = resp.files[0].1.clone();
    assert_eq!(session_id.len(), 36);
    assert_eq!(token.len(), 36);
    assert_eq!(
        state.receive_session.as_ref().unwrap().status,
        ReceiveSessionStatus::Sending
    );

    let task = upload_begin(
        &mut state,
        "10.0.0.2",
        Some("F".to_string()),
        Some(token.clone()),
        Some(session_id.clone()),
        true,
    )
    .unwrap();
    assert_eq!(task.file_name, "hello.txt");
    assert_eq!(task.size, 5);
    assert_eq!(task.destination_directory, ".");

    // five bytes in one chunk: position 5, finished
    let p: UploadProgress =
        localsend_core::send::progress_step(&"F".to_string(), 0, 5, 5);
    assert_eq!(p.position, 5);
    assert!(p.finish);

    upload_finish(&mut state, &"F".to_string(), true, false).unwrap();
    // all files terminal: the session is destroyed
    assert!(state.receive_session.is_none());
}

#[test]
fn busy_second_prepare_blocked() {
    let mut state = ServerState::new();
    state.settings.quick_save = true;
    prepare_upload_start(&mut state, "10.0.0.2", &one_file_request()).unwrap();
    let second = prepare_upload_start(&mut state, "10.0.0.3", &one_file_request());
    match second {
        Err(ReceiveError::SessionBlocked) => {}
        other => panic!("expected SessionBlocked, got {:?}", other),
    }
    assert_eq!(ReceiveError::SessionBlocked.http_status(), 409);
}

#[test]
fn empty_files_rejected() {
    let mut state = ServerState::new();
    let dto = PrepareUploadRequestDto { info: sender_info(), files: vec![] };
    match prepare_upload_start(&mut state, "10.0.0.2", &dto) {
        Err(ReceiveError::EmptyFiles) => {}
        other => panic!("expected EmptyFiles, got {:?}", other),
    }
    assert_eq!(ReceiveError::EmptyFiles.http_status(), 400);
    assert!(state.receive_session.is_none());
}

#[test]
fn declined_removes_session() {
    let mut state = ServerState::new();
    prepare_upload_start(&mut state, "10.0.0.2", &one_file_request()).unwrap();
    match prepare_upload_finish(&mut state, Some(ClientMessage::Declined)) {
        Err(ReceiveError::SessionDeclined) => {}
        other => panic!("expected SessionDeclined, got {:?}", other),
    }
    assert_eq!(ReceiveError::SessionDeclined.http_status(), 403);
    assert!(state.receive_session.is_none());
}

#[test]
fn empty_selection_removes_session() {
    let mut state = ServerState::new();
    prepare_upload_start(&mut state, "10.0.0.2", &one_file_request()).unwrap();
    match prepare_upload_finish(&mut state, Some(ClientMessage::FilesSelected(vec![]))) {
        Err(ReceiveError::NothingSelected) => {}
        other => panic!("expected NothingSelected, got {:?}", other),
    }
    assert_eq!(ReceiveError::NothingSelected.http_status(), 204);
    assert!(state.receive_session.is_none());
}

#[test]
fn abandoned_waiting_session_is_cleaned_up() {
    let mut state = ServerState::new();
    prepare_upload_start(&mut state, "10.0.0.2", &one_file_request()).unwrap();
    // the reply channel closed: nothing selected, the session stays Waiting
    match prepare_upload_finish(&mut state, None) {
        Err(ReceiveError::NothingSelected) => {}
        other => panic!("expected NothingSelected, got {:?}", other),
    }
    assert!(state.receive_session.is_some());
    cleanup_waiting(&mut state);
    assert!(state.receive_session.is_none());
}

fn accepted_session(state: &mut ServerState) -> (String, String) {
    let (_qs, files) = prepare_upload_start(state, "10.0.0.2", &one_file_request()).unwrap();
    let resp = prepare_upload_finish(state, Some(ClientMessage::FilesSelected(files))).unwrap();
    (resp.session_id, resp.files[0].1.clone())
}

#[test]
fn token_replay_rejected() {
    let mut state = ServerState::new();
    let (sid, token) = accepted_session(&mut state);
    upload_begin(
        &mut state,
        "10.0.0.2",
        Some("F".to_string()),
        Some(token.clone()),
        Some(sid.clone()),
        true,
    )
    .unwrap();
    // the first upload succeeded with status 200
    upload_finish(&mut state, &"F".to_string(), true, false).unwrap();
    // a second attempt with the same token is refused
    let replay = upload_begin(
        &mut state,
        "10.0.0.2",
        Some("F".to_string()),
        Some(token),
        Some(sid),
        true,
    );
    match replay {
        // the session was destroyed when its only file finished
        Err(ReceiveError::SessionNotExists) => {}
        other => panic!("expected SessionNotExists, got {:?}", other),
    }
}

#[test]
fn tokens_are_pairwise_distinct() {
    let mut state = ServerState::new();
    let mut dto = one_file_request();
    for k in 0..20 {
        dto.files.push(FileDto {
            id: format!("extra-{}", k),
            file_name: format!("f{}.bin", k),
            size: 1,
            file_type: FileType::Other,
            hash: None,
            preview: None,
        });
    }
    let (_qs, files) = prepare_upload_start(&mut state, "10.0.0.2", &dto).unwrap();
    let resp =
        prepare_upload_finish(&mut state, Some(ClientMessage::FilesSelected(files))).unwrap();
    assert_eq!(resp.files.len(), 21);
    for a in 0..resp.files.len() {
        for b in 0..resp.files.len() {
            if a != b {
                assert_ne!(resp.files[a].1, resp.files[b].1);
            }
        }
    }
}

#[test]
fn token_replay_rejected_while_session_lives() {
    let mut state = ServerState::new();
    let mut dto = one_file_request();
    dto.files.push(FileDto {
        id: "G".to_string(),
        file_name: "b.bin".to_string(),
        size: 1,
        file_type: FileType::Other,
        hash: None,
        preview: None,
    });
    let (_qs, files) = prepare_upload_start(&mut state, "10.0.0.2", &dto).unwrap();
    let resp =
        prepare_upload_finish(&mut state, Some(ClientMessage::FilesSelected(files))).unwrap();
    let sid = resp.session_id.clone();
    let token_f = resp.files[0].1.clone();
    upload_begin(
        &mut state,
        "10.0.0.2",
        Some("F".to_string()),
        Some(token_f.clone()),
        Some(sid.clone()),
        true,
    )
    .unwrap();
    upload_finish(&mut state, &"F".to_string(), true, false).unwrap();
    // G is still owed, so the session lives; replaying F's token gives 403
    let replay = upload_begin(
        &mut state,
        "10.0.0.2",
        Some("F".to_string()),
        Some(token_f),
        Some(sid),
        true,
    );
    match replay {
        Err(ReceiveError::InvalidToken) => {}
        other => panic!("expected InvalidToken, got {:?}", other),
    }
    assert_eq!(ReceiveError::InvalidToken.http_status(), 403);
}

#[test]
fn ip_mismatch_rejected() {
    let mut state = ServerState::new();
    let (sid, token) = accepted_session(&mut state);
    let r = upload_begin(
        &mut state,
        "10.0.0.3",
        Some("F".to_string()),
        Some(token),
        Some(sid),
        true,
    );
    match r {
        Err(ReceiveError::InvalidIp(ip)) => assert_eq!(ip, "10.0.0.3"),
        other => panic!("expected InvalidIp, got {:?}", other),
    }
    assert_eq!(
        ReceiveError::InvalidIp("10.0.0.3".to_string()).http_status(),
        403
    );
    assert_eq!(
        ReceiveError::InvalidIp("10.0.0.3".to_string()).message(),
        "Invalid IP address: 10.0.0.3"
    );
}

#[test]
fn v2_session_id_checked_v1_not() {
    let mut state = ServerState::new();
    let (_sid, token) = accepted_session(&mut state);
    let wrong = upload_begin(
        &mut state,
        "10.0.0.2",
        Some("F".to_string()),
        Some(token.clone()),
        Some("not-the-session".to_string()),
        true,
    );
    match wrong {
        Err(ReceiveError::InvalidSessionId) => {}
        other => panic!("expected InvalidSessionId, got {:?}", other),
    }
    let missing = upload_begin(
        &mut state,
        "10.0.0.2",
        Some("F".to_string()),
        Some(token.clone()),
        None,
        true,
    );
    match missing {
        Err(ReceiveError::InvalidParameters) => {}
        other => panic!("expected InvalidParameters, got {:?}", other),
    }
    // version 1 must not check the session id
    let v1 = upload_begin(
        &mut state,
        "10.0.0.2",
        Some("F".to_string()),
        Some(token),
        None,
        false,
    );
    assert!(v1.is_ok());
}

#[test]
fn stream_break_reports_cancelled_with_200() {
    let mut state = ServerState::new();
    let (sid, token) = accepted_session(&mut state);
    upload_begin(
        &mut state,
        "10.0.0.2",
        Some("F".to_string()),
        Some(token),
        Some(sid),
        true,
    )
    .unwrap();
    // the sender aborted mid-stream: the partial file was deleted by the
    // caller, the endpoint answers 200 Cancelled, the file is terminal
    let r = upload_finish(&mut state, &"F".to_string(), false, true);
    match r {
        Err(ReceiveError::Cancelled) => {}
        other => panic!("expected Cancelled, got {:?}", other),
    }
    assert_eq!(ReceiveError::Cancelled.http_status(), 200);
    assert!(state.receive_session.is_none());
}

#[test]
fn mixed_version_v1_sender() {
    // a version 1 peer: route and bare response body
    assert_eq!(
        localsend_core::route::ApiRoute::PrepareUpload.v1(),
        "/api/localsend/v1/send-request"
    );
    let mut state = ServerState::new();
    let mut dto = one_file_request();
    dto.info.version = None;
    let (_qs, files) = prepare_upload_start(&mut state, "10.0.0.2", &dto).unwrap();
    // an absent version degrades the stored sender to "1.0"
    assert_eq!(state.receive_session.as_ref().unwrap().sender.version, "1.0");
    let resp =
        prepare_upload_finish(&mut state, Some(ClientMessage::FilesSelected(files))).unwrap();
    // the version 1 body is the bare token map, no envelope
    let body = localsend_core::json::serialize_token_map(&resp.files);
    assert!(body.starts_with("{\"F\":\""));
    assert!(!body.contains("sessionId"));
}

#[test]
fn cancel_endpoints_operate_on_send_session() {
    let mut state = ServerState::new();
    // no active send session: no permission
    match cancel_v1(&mut state) {
        Err(SendError::NoPermission) => {}
        other => panic!("expected NoPermission, got {:?}", other),
    }
    assert_eq!(SendError::NoPermission.http_status(), 403);

    let mut files = SendingFiles::default();
    files.add_text("hi", true);
    let mut session = SendSession::new(&own_device(), own_device(), &files);
    session.remote_session_id = Some("remote-1".to_string());
    session.worker_started = true;
    state.send_session = Some(session);

    // a wrong remote session id is refused
    match cancel_v2(&mut state, Some(&"other".to_string())) {
        Err(SendError::NoPermission) => {}
        other => panic!("expected NoPermission, got {:?}", other),
    }
    assert!(state.send_session.is_some());
    // the matching one takes the session
    let taken = cancel_v2(&mut state, Some(&"remote-1".to_string())).unwrap();
    assert!(state.send_session.is_none());
    // receiver-initiated cancel: no remote call, just abort
    assert_eq!(taken.cancel_plan(false).unwrap(), None);
}

#[test]
fn send_session_prepare_and_tokens() {
    let mut files = SendingFiles::default();
    files.add_text("hello", true);
    files.add_file("/tmp/b.png", 9, None);
    let target = Device {
        ip: "192.168.1.9".to_string(),
        version: "2.0".to_string(),
        port: 53317,
        https: false,
        fingerprint: "peer-fp".to_string(),
        alias: "peer".to_string(),
        device_model: None,
        device_type: DeviceType::Desktop,
        download: false,
    };
    let mut session = SendSession::new(&own_device(), target, &files);
    assert_eq!(session.session_id.len(), 36);
    assert!(session.remote_session_id.is_none());

    let req = session.prepare_request();
    assert_eq!(req.files.len(), 2);
    assert_eq!(req.info.fingerprint, "own-fp");

    // the receiver accepted only the first file
    let first_id = req.files[0].id.clone();
    let body = format!(
        "{{\"sessionId\":\"remote-sid\",\"files\":{{\"{}\":\"tok-1\"}}}}",
        first_id
    );
    session.handle_prepare_response(200, &body).unwrap();
    assert_eq!(session.remote_session_id, Some("remote-sid".to_string()));
    let accepted = session.files.get(&first_id).unwrap();
    assert_eq!(accepted.status, FileStatus::Sending);
    assert_eq!(accepted.token, Some("tok-1".to_string()));
    let skipped = session.files.get(&req.files[1].id).unwrap();
    assert_eq!(skipped.status, FileStatus::Skipped);

    // the upload URL carries file id, token and the remote session id
    let url = session.upload_url(accepted);
    assert_eq!(
        url,
        format!(
            "http://192.168.1.9:53317/api/localsend/v2/upload?fileId={}&token=tok-1&sessionId=remote-sid",
            first_id
        )
    );
    // a sender-initiated cancel posts to the cancel route
    session.worker_started = true;
    assert_eq!(
        session.cancel_plan(true).unwrap(),
        Some("http://192.168.1.9:53317/api/localsend/v2/cancel?sessionId=remote-sid".to_string())
    );
}

#[test]
fn prepare_response_codes_classified() {
    let mut files = SendingFiles::default();
    files.add_text("x", true);
    let mut session = SendSession::new(&own_device(), own_device(), &files);
    match session.handle_prepare_response(204, "") {
        Err(SendError::NothingSelected) => {}
        other => panic!("expected NothingSelected, got {:?}", other),
    }
    match session.handle_prepare_response(403, "") {
        Err(SendError::Rejected) => {}
        other => panic!("expected Rejected, got {:?}", other),
    }
    match session.handle_prepare_response(409, "") {
        Err(SendError::Busy) => {}
        other => panic!("expected Busy, got {:?}", other),
    }
    match session.handle_prepare_response(500, "") {
        Err(SendError::Unknown(500)) => {}
        other => panic!("expected Unknown(500), got {:?}", other),
    }
    assert_eq!(
        SendError::Unknown(500).message(),
        "Unknown response status code: 500"
    );
    // an empty token map means nothing was selected
    match session.handle_prepare_response(200, "{\"sessionId\":\"s\",\"files\":{}}") {
        Err(SendError::NothingSelected) => {}
        other => panic!("expected NothingSelected, got {:?}", other),
    }
    // a version 1 peer answers with the bare map
    let mut files2 = SendingFiles::default();
    files2.add_text("y", true);
    let mut target1 = own_device();
    target1.version = "1.0".to_string();
    let mut session1 = SendSession::new(&own_device(), target1, &files2);
    let id = session1.prepare_request().files[0].id.clone();
    let body = format!("{{\"{}\":\"tok-9\"}}", id);
    session1.handle_prepare_response(200, &body).unwrap();
    assert!(session1.remote_session_id.is_none());
    assert_eq!(
        session1.files.get(&id).unwrap().token,
        Some("tok-9".to_string())
    );
}

#[test]
fn upload_during_waiting_is_wrong_state() {
    let mut state = ServerState::new();
    prepare_upload_start(&mut state, "10.0.0.2", &one_file_request()).unwrap();
    // the session has not been accepted yet: still Waiting
    let r = upload_begin(
        &mut state,
        "10.0.0.2",
        Some("F".to_string()),
        Some("tok".to_string()),
        None,
        false,
    );
    match r {
        Err(ReceiveError::InvalidRecipient) => {}
        other => panic!("expected InvalidRecipient, got {:?}", other),
    }
    assert_eq!(ReceiveError::InvalidRecipient.http_status(), 409);
}

#[test]
fn upload_without_session_and_missing_params() {
    let mut state = ServerState::new();
    let r = upload_begin(&mut state, "10.0.0.2", None, None, None, false);
    match r {
        Err(ReceiveError::SessionNotExists) => {}
        other => panic!("expected SessionNotExists, got {:?}", other),
    }
    assert_eq!(ReceiveError::SessionNotExists.http_status(), 409);
    let (_sid, _token) = accepted_session(&mut state);
    let r2 = upload_begin(&mut state, "10.0.0.2", Some("F".to_string()), None, None, false);
    match r2 {
        Err(ReceiveError::InvalidParameters) => {}
        other => panic!("expected InvalidParameters, got {:?}", other),
    }
    assert_eq!(ReceiveError::InvalidParameters.http_status(), 400);
}

#[test]
fn finish_without_session_is_server_error() {
    let mut state = ServerState::new();
    let r = prepare_upload_finish(
        &mut state,
        Some(ClientMessage::FilesSelected(one_file_request().files)),
    );
    match r {
        Err(ReceiveError::InvalidServerState) => {}
        other => panic!("expected InvalidServerState, got {:?}", other),
    }
    assert_eq!(ReceiveError::InvalidServerState.http_status(), 500);
}

#[test]
fn save_failure_reports_500() {
    let mut state = ServerState::new();
    let (sid, token) = accepted_session(&mut state);
    upload_begin(
        &mut state,
        "10.0.0.2",
        Some("F".to_string()),
        Some(token),
        Some(sid),
        true,
    )
    .unwrap();
    // the stream finished but the file could not be flushed
    let r = upload_finish(&mut state, &"F".to_string(), false, false);
    match r {
        Err(ReceiveError::SaveFileFailed) => {}
        other => panic!("expected SaveFileFailed, got {:?}", other),
    }
    assert_eq!(ReceiveError::SaveFileFailed.http_status(), 500);
}

#[test]
fn bad_response_body_is_invalid() {
    let mut files = SendingFiles::default();
    files.add_text("x", true);
    let mut session = SendSession::new(&own_device(), own_device(), &files);
    match session.handle_prepare_response(200, "not json at all") {
        Err(SendError::InvalidBody) => {}
        other => panic!("expected InvalidBody, got {:?}", other),
    }
}

#[test]
fn error_messages_match_taxonomy() {
    assert_eq!(
        ReceiveError::EmptyFiles.message(),
        "Request must contain at least one file"
    );
    assert_eq!(ReceiveError::SessionBlocked.message(), "Blocked by another session");
    assert_eq!(SendError::Busy.message(), "The recipient is busy with another request");
    assert_eq!(SendError::Rejected.message(), "The recipient has rejected the request");
}
