use nyanpasu_ipc::envelope::{
    encode_response, encode_start_request, parse_start_request, start_response, StartRequest,
    StartResponse, STATUS_INTERNAL_ERROR, STATUS_OK,
};

#[test]
fn start_success_is_200_with_success_envelope() {
    let (status, resp) = start_response(Ok(()));
    assert_eq!(status, STATUS_OK);
    assert!(matches!(resp, StartResponse::Success));
    let body = encode_response(&resp);
    assert_eq!(body, b"{\"type\":\"success\"}".to_vec());
}

#[test]
fn start_failure_is_500_with_error_envelope() {
    let (status, resp) = start_response(Err(b"already running".to_vec()));
    assert_eq!(status, STATUS_INTERNAL_ERROR);
    let body = encode_response(&resp);
    assert_eq!(
        body,
        b"{\"type\":\"error\",\"message\":\"already running\"}".to_vec()
    );
}

#[test]
fn status_is_200_only_on_success() {
    let (ok_status, _) = start_response(Ok(()));
    let (err_status, _) = start_response(Err(b"x".to_vec()));
    assert_eq!(ok_status, 200);
    assert_eq!(err_status, 500);
}

#[test]
fn error_message_is_escaped() {
    let msg = b"a\"b\\c\nd".to_vec();
    let (_, resp) = start_response(Err(msg));
    let body = encode_response(&resp);
    assert_eq!(
        body,
        b"{\"type\":\"error\",\"message\":\"a\\\"b\\\\c\\u000ad\"}".to_vec()
    );
}

#[test]
fn success_envelope_is_valid_json() {
    let (_, resp) = start_response(Ok(()));
    let body = encode_response(&resp);
    let v: serde_json::Value = serde_json::from_slice(&body).unwrap();
    assert_eq!(v["type"], "success");
}

#[test]
fn error_envelope_is_valid_json_with_cause() {
    let (_, resp) = start_response(Err(b"already running".to_vec()));
    let body = encode_response(&resp);
    let v: serde_json::Value = serde_json::from_slice(&body).unwrap();
    assert_eq!(v["type"], "error");
    assert_eq!(v["message"], "already running");
}

#[test]
fn escaped_error_envelope_survives_a_json_parser() {
    let (_, resp) = start_response(Err(b"tab\there \"quoted\" back\\slash".to_vec()));
    let body = encode_response(&resp);
    let v: serde_json::Value = serde_json::from_slice(&body).unwrap();
    assert_eq!(v["message"], "tab\there \"quoted\" back\\slash");
}

#[test]
fn request_encoding_is_canonical() {
    let req = StartRequest {
        core_type: b"clash".to_vec(),
        config_file: b"/etc/app/config.yaml".to_vec(),
    };
    let bytes = encode_start_request(&req);
    assert_eq!(
        bytes,
        b"{\"core_type\":\"clash\",\"config_file\":\"/etc/app/config.yaml\"}".to_vec()
    );
}

#[test]
fn request_encoding_is_valid_json() {
    let req = StartRequest {
        core_type: b"clash".to_vec(),
        config_file: b"/etc/app/config.yaml".to_vec(),
    };
    let bytes = encode_start_request(&req);
    let v: serde_json::Value = serde_json::from_slice(&bytes).unwrap();
    assert_eq!(v["core_type"], "clash");
    assert_eq!(v["config_file"], "/etc/app/config.yaml");
}

#[test]
fn request_round_trips_through_parser() {
    let req = StartRequest {
        core_type: b"clash".to_vec(),
        config_file: b"/etc/app/config.yaml".to_vec(),
    };
    let bytes = encode_start_request(&req);
    let back = parse_start_request(&bytes).unwrap();
    assert_eq!(back.core_type, b"clash".to_vec());
    assert_eq!(back.config_file, b"/etc/app/config.yaml".to_vec());
}

#[test]
fn request_with_escapes_round_trips() {
    let req = StartRequest {
        core_type: b"cl\"ash\\x".to_vec(),
        config_file: b"/tmp/a\nb.yaml".to_vec(),
    };
    let bytes = encode_start_request(&req);
    let back = parse_start_request(&bytes).unwrap();
    assert_eq!(back.core_type, req.core_type);
    assert_eq!(back.config_file, req.config_file);
}

#[test]
fn empty_fields_round_trip() {
    let req = StartRequest {
        core_type: Vec::new(),
        config_file: Vec::new(),
    };
    let bytes = encode_start_request(&req);
    assert_eq!(bytes, b"{\"core_type\":\"\",\"config_file\":\"\"}".to_vec());
    let back = parse_start_request(&bytes).unwrap();
    assert!(back.core_type.is_empty());
    assert!(back.config_file.is_empty());
}

#[test]
fn parser_refuses_trailing_bytes() {
    let bytes = b"{\"core_type\":\"clash\",\"config_file\":\"a\"} ".to_vec();
    assert!(parse_start_request(&bytes).is_none());
}

#[test]
fn parser_refuses_whitespace_variants() {
    let bytes = b"{ \"core_type\": \"clash\", \"config_file\": \"a\" }".to_vec();
    assert!(parse_start_request(&bytes).is_none());
}

#[test]
fn parser_refuses_missing_field() {
    let bytes = b"{\"core_type\":\"clash\"}".to_vec();
    assert!(parse_start_request(&bytes).is_none());
}

#[test]
fn parser_refuses_swapped_fields() {
    let bytes = b"{\"config_file\":\"a\",\"core_type\":\"clash\"}".to_vec();
    assert!(parse_start_request(&bytes).is_none());
}

#[test]
fn parser_refuses_raw_control_byte() {
    let bytes = b"{\"core_type\":\"cl\nash\",\"config_file\":\"a\"}".to_vec();
    assert!(parse_start_request(&bytes).is_none());
}

#[test]
fn parser_refuses_non_canonical_escape() {
    // \u0041 is 'A', which must stand for itself in canonical form.
    let bytes = b"{\"core_type\":\"\\u0041\",\"config_file\":\"a\"}".to_vec();
    assert!(parse_start_request(&bytes).is_none());
    // Uppercase hex digits are not canonical either.
    let bytes = b"{\"core_type\":\"\\u000A\",\"config_file\":\"a\"}".to_vec();
    assert!(parse_start_request(&bytes).is_none());
}

#[test]
fn parser_accepts_canonical_control_escape() {
    let bytes = b"{\"core_type\":\"\\u000a\",\"config_file\":\"a\"}".to_vec();
    let back = parse_start_request(&bytes).unwrap();
    assert_eq!(back.core_type, b"\n".to_vec());
}

#[test]
fn parser_refuses_empty_and_garbage() {
    assert!(parse_start_request(&Vec::new()).is_none());
    assert!(parse_start_request(&b"start".to_vec()).is_none());
}
