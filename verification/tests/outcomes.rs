use process_gateway::outcome::{conclude, settle, ExitStatus, GatewayError, ProcessResult, Stream};

#[test]
fn success_is_exit_code_zero_only() {
    assert!(ExitStatus { code: Some(0) }.success());
    assert!(!ExitStatus { code: Some(1) }.success());
    assert!(!ExitStatus { code: Some(-1) }.success());
    assert!(!ExitStatus { code: Some(i32::MIN) }.success());
    assert!(!ExitStatus { code: None }.success());
}

#[test]
fn settle_returns_the_result_on_success() {
    let status = ExitStatus { code: Some(0) };
    assert_eq!(
        settle(status, Ok("text".to_string()), vec![1, 2], "ignored".to_string()),
        Ok(ProcessResult { status, stdout: "text".to_string(), stderr: vec![1, 2] })
    );
}

#[test]
fn settle_reports_the_error_text_on_failure() {
    assert_eq!(
        settle(ExitStatus { code: Some(7) }, Ok("text".to_string()), vec![1, 2], "why".to_string()),
        Err(GatewayError::NonZeroExit { stderr_text: "why".to_string() })
    );
}

#[test]
fn settle_reports_undecodable_output_first() {
    for code in [Some(0), Some(1), None] {
        assert_eq!(
            settle(ExitStatus { code }, Err("cause".to_string()), vec![], "why".to_string()),
            Err(GatewayError::NonUtf8Output { stream: Stream::Stdout, cause: "cause".to_string() })
        );
    }
}

#[test]
fn conclude_decodes_standard_output() {
    let status = ExitStatus { code: Some(0) };
    assert_eq!(
        conclude(status, "héllo 世界".as_bytes().to_vec(), vec![0xff]),
        Ok(ProcessResult { status, stdout: "héllo 世界".to_string(), stderr: vec![0xff] })
    );
    assert_eq!(
        conclude(status, Vec::new(), Vec::new()),
        Ok(ProcessResult { status, stdout: String::new(), stderr: Vec::new() })
    );
}

#[test]
fn conclude_rejects_malformed_standard_output() {
    for bytes in [&b"\x80"[..], b"\xc0\xaf", b"\xed\xa0\x80", b"\xf4\x90\x80\x80", b"abc\xe2\x82"] {
        let cause = String::from_utf8(bytes.to_vec()).unwrap_err().to_string();
        assert_eq!(
            conclude(ExitStatus { code: Some(0) }, bytes.to_vec(), Vec::new()),
            Err(GatewayError::NonUtf8Output { stream: Stream::Stdout, cause })
        );
    }
}

#[test]
fn conclude_replaces_malformed_standard_error() {
    assert_eq!(
        conclude(ExitStatus { code: Some(1) }, Vec::new(), b"a\xffb\xc3".to_vec()),
        Err(GatewayError::NonZeroExit { stderr_text: "a\u{fffd}b\u{fffd}".to_string() })
    );
    assert_eq!(
        conclude(ExitStatus { code: Some(1) }, Vec::new(), "größe".as_bytes().to_vec()),
        Err(GatewayError::NonZeroExit { stderr_text: "größe".to_string() })
    );
}

#[test]
fn messages_name_what_failed_and_why() {
    assert_eq!(
        GatewayError::SpawnFailed { candidate: "python".to_string(), cause: "not found".to_string() }
            .message(),
        "failed to start python: not found"
    );
    assert_eq!(
        GatewayError::StdinWriteFailed { cause: "Broken pipe".to_string() }.message(),
        "failed to write to standard input: Broken pipe"
    );
    assert_eq!(
        GatewayError::WaitFailed { cause: "interrupted".to_string() }.message(),
        "failed to wait for the process: interrupted"
    );
    assert_eq!(
        GatewayError::NonUtf8Output { stream: Stream::Stdout, cause: "invalid".to_string() }
            .message(),
        "standard output is not valid UTF-8: invalid"
    );
    assert_eq!(
        GatewayError::NonUtf8Output { stream: Stream::Stderr, cause: "invalid".to_string() }
            .message(),
        "standard error is not valid UTF-8: invalid"
    );
    assert_eq!(
        GatewayError::NonZeroExit { stderr_text: "Traceback\n".to_string() }.message(),
        "process failed: Traceback\n"
    );
}
