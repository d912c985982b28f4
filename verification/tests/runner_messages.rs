use engine_core::language::Language;
use engine_core::outbound::{
    DecodeError, OutboundFromRunnerMsg, OutboundFromRunnerMsgPayload, PayloadType,
    RunnerOutboundEnvelope, WirePayload, WireTaskCancelled,
};
use engine_core::runner_error::{
    runner_errors_from_wire, runner_warnings_from_wire, RunnerError, SendableRunnerError,
    WireRunnerError, WireRunnerWarning,
};
use engine_core::task_id::task_id_from_bytes;

type Payload = OutboundFromRunnerMsgPayload<String>;
type Message = OutboundFromRunnerMsg<String>;

const TASK_ID_BYTES: [u8; 16] = [
    0x00, 0x11, 0x22, 0x33, 0x44, 0x55, 0x66, 0x77, 0x88, 0x99, 0xaa, 0xbb, 0xcc, 0xdd, 0xee, 0xff,
];

fn decode(payload: WirePayload<String>) -> Result<Payload, DecodeError> {
    Payload::try_from(payload)
}

fn envelope(sim_sid: u32, payload: WirePayload<String>) -> RunnerOutboundEnvelope<String> {
    RunnerOutboundEnvelope { sim_sid, payload }
}

fn error_with(message: Option<&str>) -> RunnerError {
    RunnerError {
        message: message.map(|text| text.to_string()),
        details: None,
        file_name: None,
        line_number: None,
    }
}

#[test]
fn envelope_without_payload_is_refused() {
    assert_eq!(decode(WirePayload::NoPayload), Err(DecodeError::EmptyPayload));
    for sim_sid in [0, 1, u32::MAX] {
        let decoded = Message::try_from(Ok(envelope(sim_sid, WirePayload::NoPayload)));
        assert_eq!(decoded, Err(DecodeError::EmptyPayload));
    }
    assert_eq!(DecodeError::EmptyPayload.message(), "Message from runner had no payload");
}

#[test]
fn task_cancelled_carries_the_identity_as_a_number() {
    let payload =
        WirePayload::TaskCancelled(Some(WireTaskCancelled { task_id: Some(TASK_ID_BYTES.to_vec()) }));
    let expected = 0x0011_2233_4455_6677_8899_aabb_ccdd_eeff_u128;
    assert_eq!(decode(payload), Ok(Payload::TaskCancelled(expected)));
    let parsed = uuid::Uuid::parse_str("00112233-4455-6677-8899-aabbccddeeff").unwrap();
    assert_eq!(parsed.as_u128(), expected);
}

#[test]
fn task_identity_is_read_big_endian() {
    let mut bytes = [0u8; 16];
    bytes[15] = 1;
    assert_eq!(task_id_from_bytes(&bytes), Ok(1));
    bytes[15] = 0;
    bytes[0] = 1;
    assert_eq!(task_id_from_bytes(&bytes), Ok(1u128 << 120));
    assert_eq!(task_id_from_bytes(&[0u8; 16]), Ok(0));
    assert_eq!(task_id_from_bytes(&[0xffu8; 16]), Ok(u128::MAX));
    assert_eq!(task_id_from_bytes(&TASK_ID_BYTES), Ok(u128::from_be_bytes(TASK_ID_BYTES)));
}

#[test]
fn task_identity_of_another_length_is_malformed() {
    for len in [0usize, 1, 15, 17, 32] {
        let bytes = vec![7u8; len];
        assert_eq!(task_id_from_bytes(&bytes), Err(len));
        let payload =
            WirePayload::TaskCancelled(Some(WireTaskCancelled { task_id: Some(bytes.clone()) }));
        let error = decode(payload).unwrap_err();
        assert_eq!(error, DecodeError::MalformedTaskId { len });
        let from_uuid = uuid::Uuid::from_slice(&bytes).unwrap_err();
        assert_eq!(error.message(), from_uuid.to_string());
    }
}

#[test]
fn task_cancelled_without_identity_is_refused() {
    let payload = WirePayload::TaskCancelled(Some(WireTaskCancelled { task_id: None }));
    let error = decode(payload).unwrap_err();
    assert_eq!(error, DecodeError::MissingTaskId);
    assert_eq!(
        error.message(),
        "Message from runner should have had a task_id but it was missing"
    );
}

#[test]
fn empty_batch_of_errors_is_no_failure() {
    assert_eq!(decode(WirePayload::RunnerErrors(Some(Vec::new()))), Ok(Payload::RunnerErrors(Vec::new())));
    assert_eq!(
        decode(WirePayload::RunnerWarnings(Some(Vec::new()))),
        Ok(Payload::RunnerWarnings(Vec::new()))
    );
    let decoded = Message::try_from(Ok(envelope(3, WirePayload::RunnerErrors(Some(Vec::new())))));
    assert_eq!(
        decoded,
        Ok(Message { source: Language::Python, sim_id: 3, payload: Payload::RunnerErrors(Vec::new()) })
    );
}

#[test]
fn unimplemented_kinds_are_refused_by_name() {
    let cases = [
        (WirePayload::PackageError { present: true }, PayloadType::PackageError, "PackageError"),
        (WirePayload::UserErrors { present: true }, PayloadType::UserErrors, "UserErrors"),
        (WirePayload::UserWarnings { present: true }, PayloadType::UserWarnings, "UserWarnings"),
    ];
    for (payload, kind, name) in cases {
        let error = decode(payload).unwrap_err();
        assert_eq!(error, DecodeError::UnimplementedPayload(kind));
        assert_eq!(
            error.message(),
            format!("Message from runner had a {name} payload, which is not implemented")
        );
    }
    let decoded = Message::try_from(Ok(envelope(9, WirePayload::PackageError { present: true })));
    assert_eq!(decoded, Err(DecodeError::UnimplementedPayload(PayloadType::PackageError)));
}

#[test]
fn every_kind_needs_its_body() {
    let cases: Vec<(WirePayload<String>, PayloadType, &str)> = vec![
        (WirePayload::TaskMsg(None), PayloadType::TaskMsg, "TaskMsg"),
        (WirePayload::TaskCancelled(None), PayloadType::TaskCancelled, "TaskCancelled"),
        (WirePayload::RunnerError(None), PayloadType::RunnerError, "RunnerError"),
        (WirePayload::RunnerErrors(None), PayloadType::RunnerErrors, "RunnerErrors"),
        (WirePayload::RunnerWarning(None), PayloadType::RunnerWarning, "RunnerWarning"),
        (WirePayload::RunnerWarnings(None), PayloadType::RunnerWarnings, "RunnerWarnings"),
        (WirePayload::PackageError { present: false }, PayloadType::PackageError, "PackageError"),
        (WirePayload::UserErrors { present: false }, PayloadType::UserErrors, "UserErrors"),
        (WirePayload::UserWarnings { present: false }, PayloadType::UserWarnings, "UserWarnings"),
    ];
    for (payload, kind, name) in cases {
        assert_eq!(payload.payload_type(), kind);
        let error = decode(payload).unwrap_err();
        assert_eq!(error, DecodeError::MissingSubpayload(kind));
        assert_eq!(
            error.message(),
            format!("Message from runner should have had a {name} payload but it was missing")
        );
    }
}

#[test]
fn payload_kinds_have_their_wire_names() {
    assert_eq!(PayloadType::NoPayload.as_str(), "NONE");
    assert_eq!(PayloadType::TaskMsg.as_str(), "TaskMsg");
    assert_eq!(PayloadType::TaskCancelled.as_str(), "TaskCancelled");
    assert_eq!(PayloadType::RunnerError.as_str(), "RunnerError");
    assert_eq!(PayloadType::RunnerErrors.as_str(), "RunnerErrors");
    assert_eq!(PayloadType::RunnerWarning.as_str(), "RunnerWarning");
    assert_eq!(PayloadType::RunnerWarnings.as_str(), "RunnerWarnings");
    assert_eq!(PayloadType::PackageError.as_str(), "PackageError");
    assert_eq!(PayloadType::UserErrors.as_str(), "UserErrors");
    assert_eq!(PayloadType::UserWarnings.as_str(), "UserWarnings");
    assert_eq!(WirePayload::<String>::NoPayload.payload_type(), PayloadType::NoPayload);
}

#[test]
fn task_message_is_handed_through() {
    let payload = WirePayload::TaskMsg(Some(Ok("task".to_string())));
    assert_eq!(decode(payload), Ok(Payload::TaskMsg("task".to_string())));
}

#[test]
fn task_message_that_did_not_convert_is_malformed() {
    let payload = WirePayload::TaskMsg(Some(Err("no target".to_string())));
    let error = decode(payload).unwrap_err();
    assert_eq!(error, DecodeError::MalformedTaskMsg("no target".to_string()));
    assert_eq!(error.message(), "no target");
}

#[test]
fn single_error_keeps_its_message() {
    let with_message = WireRunnerError { msg: Some("boom".to_string()) };
    assert_eq!(
        decode(WirePayload::RunnerError(Some(with_message))),
        Ok(Payload::RunnerError(error_with(Some("boom"))))
    );
    let without_message = WireRunnerError { msg: None };
    assert_eq!(
        decode(WirePayload::RunnerError(Some(without_message))),
        Ok(Payload::RunnerError(error_with(None)))
    );
}

#[test]
fn single_warning_keeps_message_and_details() {
    let warning = WireRunnerWarning { msg: "careful".to_string(), details: Some("line 3".to_string()) };
    let expected = RunnerError {
        message: Some("careful".to_string()),
        details: Some("line 3".to_string()),
        file_name: None,
        line_number: None,
    };
    assert_eq!(decode(WirePayload::RunnerWarning(Some(warning))), Ok(Payload::RunnerWarning(expected)));
    let bare = WireRunnerWarning { msg: String::new(), details: None };
    assert_eq!(
        decode(WirePayload::RunnerWarning(Some(bare))),
        Ok(Payload::RunnerWarning(error_with(Some(""))))
    );
}

#[test]
fn batches_are_converted_entry_by_entry_in_order() {
    let errors = vec![
        WireRunnerError { msg: Some("first".to_string()) },
        WireRunnerError { msg: None },
        WireRunnerError { msg: Some("third".to_string()) },
    ];
    assert_eq!(
        decode(WirePayload::RunnerErrors(Some(errors.clone()))),
        Ok(Payload::RunnerErrors(vec![
            error_with(Some("first")),
            error_with(None),
            error_with(Some("third")),
        ]))
    );
    assert_eq!(runner_errors_from_wire(errors).len(), 3);
    let warnings = vec![
        WireRunnerWarning { msg: "one".to_string(), details: None },
        WireRunnerWarning { msg: "two".to_string(), details: Some("more".to_string()) },
    ];
    let converted = runner_warnings_from_wire(warnings.clone());
    assert_eq!(converted[0], error_with(Some("one")));
    assert_eq!(converted[1].message.as_deref(), Some("two"));
    assert_eq!(converted[1].details.as_deref(), Some("more"));
    assert_eq!(
        decode(WirePayload::RunnerWarnings(Some(warnings))),
        Ok(Payload::RunnerWarnings(converted))
    );
}

#[test]
fn parser_complaint_becomes_malformed_envelope() {
    let decoded = Message::try_from(Err("Range [0, 4) is out of bounds.".to_string()));
    let error = decoded.unwrap_err();
    assert_eq!(error, DecodeError::MalformedEnvelope("Range [0, 4) is out of bounds.".to_string()));
    assert_eq!(
        error.message(),
        "Flatbuffers failed to parse message bytes as a RunnerOutboundMsg: Range [0, 4) is out of bounds."
    );
}

#[test]
fn decoded_message_keeps_the_simulation_and_reports_python() {
    for sim_sid in [0, 17, u32::MAX] {
        let payload = WirePayload::RunnerError(Some(WireRunnerError { msg: Some("x".to_string()) }));
        let decoded = Message::try_from(Ok(envelope(sim_sid, payload))).unwrap();
        assert_eq!(decoded.source, Language::Python);
        assert_eq!(decoded.sim_id, sim_sid);
        assert_eq!(decoded.payload, Payload::RunnerError(error_with(Some("x"))));
    }
}

#[test]
fn payload_errors_pass_through_the_envelope() {
    let decoded = Message::try_from(Ok(envelope(5, WirePayload::TaskCancelled(None))));
    assert_eq!(decoded, Err(DecodeError::MissingSubpayload(PayloadType::TaskCancelled)));
    let short = WirePayload::TaskCancelled(Some(WireTaskCancelled { task_id: Some(vec![1, 2, 3]) }));
    assert_eq!(
        Message::try_from(Ok(envelope(5, short))),
        Err(DecodeError::MalformedTaskId { len: 3 })
    );
}

#[test]
fn into_sendable_stamps_the_warning_flag() {
    let error = RunnerError {
        message: Some("m".to_string()),
        details: Some("d".to_string()),
        file_name: Some("f.js".to_string()),
        line_number: Some(-3),
    };
    for is_warning in [false, true] {
        assert_eq!(
            error.clone().into_sendable(is_warning),
            SendableRunnerError {
                message: Some("m".to_string()),
                code: None,
                line_number: Some(-3),
                file_name: Some("f.js".to_string()),
                details: Some("d".to_string()),
                is_warning,
                is_internal: false,
            }
        );
    }
}

#[test]
fn default_runner_error_is_empty() {
    assert_eq!(RunnerError::default(), error_with(None));
    let sendable = RunnerError::default().into_sendable(true);
    assert_eq!(sendable.message, None);
    assert_eq!(sendable.code, None);
    assert!(sendable.is_warning);
    assert!(!sendable.is_internal);
}

#[test]
fn wire_shapes_convert_to_one_error_shape() {
    let from_error = RunnerError::from(WireRunnerError { msg: Some("same".to_string()) });
    let from_warning =
        RunnerError::from(WireRunnerWarning { msg: "same".to_string(), details: None });
    assert_eq!(from_error, from_warning);
    assert_eq!(from_error.file_name, None);
    assert_eq!(from_error.line_number, None);
}
