use lyra_client::decode::{
    decode_body, decode_frame, decode_lines, is_success_status, line_event, resolve_error,
    split_lines, ApiError,
};
use lyra_client::event::{ContentBlock, FrameError, ResponseEvent, TextDelta, Usage};

#[test]
fn ping_frame_decodes_to_ping() {
    let r = line_event("data: {\"type\":\"ping\"}");
    assert_eq!(r, Some(Ok(ResponseEvent::Ping)));
}

#[test]
fn lines_without_prefix_are_skipped() {
    let lines = vec![
        "data: {\"type\":\"ping\"}".to_string(),
        "".to_string(),
        "event: something".to_string(),
        "data:{\"type\":\"ping\"}".to_string(),
        "data: {\"type\":\"ping\"}".to_string(),
    ];
    let out = decode_lines(&lines);
    assert_eq!(out.len(), 2);
    assert_eq!(out[0], Ok(ResponseEvent::Ping));
    assert_eq!(out[1], Ok(ResponseEvent::Ping));
}

#[test]
fn unknown_variant_is_an_error_and_decoding_resumes() {
    let lines = vec![
        "data: {\"type\":\"listening\"}".to_string(),
        "data: {\"type\":\"ping\"}".to_string(),
    ];
    let out = decode_lines(&lines);
    assert_eq!(out.len(), 2);
    assert_eq!(out[0], Err(FrameError::UnknownVariant));
    assert_eq!(out[1], Ok(ResponseEvent::Ping));
}

#[test]
fn bad_json_is_a_syntax_error() {
    assert_eq!(decode_frame("{oops"), Err(FrameError::Syntax));
    assert_eq!(decode_frame(""), Err(FrameError::Syntax));
    assert_eq!(
        line_event("data: {\"type\""),
        Some(Err(FrameError::Syntax))
    );
}

#[test]
fn wrong_shapes_are_malformed() {
    assert_eq!(decode_frame("[1,2]"), Err(FrameError::Malformed));
    assert_eq!(decode_frame("{\"type\":5}"), Err(FrameError::Malformed));
    assert_eq!(decode_frame("{\"kind\":\"ping\"}"), Err(FrameError::Malformed));
    assert_eq!(
        decode_frame("{\"type\":\"content_block_stop\"}"),
        Err(FrameError::Malformed)
    );
    assert_eq!(
        decode_frame(
            "{\"type\":\"content_block_start\",\"index\":0,\"content_block\":{\"type\":\"image\"}}"
        ),
        Err(FrameError::Malformed)
    );
}

#[test]
fn index_counts_must_fit() {
    assert_eq!(
        decode_frame("{\"type\":\"content_block_stop\",\"index\":4294967295}"),
        Ok(ResponseEvent::ContentBlockStop { index: 4294967295 })
    );
    assert_eq!(
        decode_frame("{\"type\":\"content_block_stop\",\"index\":4294967296}"),
        Err(FrameError::Malformed)
    );
    assert_eq!(
        decode_frame("{\"type\":\"content_block_stop\",\"index\":-1}"),
        Err(FrameError::Malformed)
    );
    assert_eq!(
        decode_frame("{\"type\":\"content_block_stop\",\"index\":1.5}"),
        Err(FrameError::Malformed)
    );
}

#[test]
fn content_block_start_decodes() {
    let r = decode_frame(
        "{\"type\":\"content_block_start\",\"index\":2,\"content_block\":{\"type\":\"text\",\"text\":\"hi\"}}",
    );
    assert_eq!(
        r,
        Ok(ResponseEvent::ContentBlockStart {
            index: 2,
            content_block: ContentBlock::Text {
                text: "hi".to_string()
            },
        })
    );
}

#[test]
fn text_delta_unescapes_its_text() {
    let r = decode_frame(
        "{\"type\":\"content_block_delta\",\"index\":0,\"delta\":{\"type\":\"text_delta\",\"text\":\"a\\nb\\\"c\\\\d\"}}",
    );
    assert_eq!(
        r,
        Ok(ResponseEvent::ContentBlockDelta {
            index: 0,
            delta: TextDelta::TextDelta {
                text: "a\nb\"c\\d".to_string()
            },
        })
    );
}

#[test]
fn message_delta_carries_usage() {
    let r = decode_frame(
        "{\"type\":\"message_delta\",\"delta\":{\"stop_reason\":\"end_turn\"},\"usage\":{\"input_tokens\":3,\"output_tokens\":7}}",
    );
    match r {
        Ok(ResponseEvent::MessageDelta { delta, usage }) => {
            assert_eq!(delta.stop_reason, Some("end_turn".to_string()));
            assert_eq!(delta.id, None);
            assert_eq!(
                usage,
                Usage {
                    input_tokens: Some(3),
                    output_tokens: Some(7),
                }
            );
        }
        other => panic!("unexpected decode result: {:?}", other),
    }
}

#[test]
fn message_start_populates_known_fields() {
    let r = decode_frame(
        "{\"type\":\"message_start\",\"message\":{\"id\":\"msg_1\",\"role\":\"assistant\",\"model\":\"lyra-3-altair-20240229\",\"content\":[\"x\",\"y\"],\"usage\":{\"input_tokens\":10}}}",
    );
    match r {
        Ok(ResponseEvent::MessageStart { message }) => {
            assert_eq!(message.id, Some("msg_1".to_string()));
            assert_eq!(message.role, Some("assistant".to_string()));
            assert_eq!(message.model, Some("lyra-3-altair-20240229".to_string()));
            assert_eq!(
                message.content,
                Some(vec!["x".to_string(), "y".to_string()])
            );
            assert_eq!(
                message.usage,
                Some(Usage {
                    input_tokens: Some(10),
                    output_tokens: None,
                })
            );
            assert_eq!(message.message_type, None);
            assert_eq!(message.stop_reason, None);
            assert_eq!(message.stop_sequence, None);
        }
        other => panic!("unexpected decode result: {:?}", other),
    }
}

#[test]
fn single_json_object_body_yields_no_events() {
    let body = "{\"type\":\"message_start\",\"message\":{\"id\":\"msg_1\"}}";
    let out = decode_body(body);
    assert!(out.is_empty());
}

#[test]
fn three_line_stream_yields_three_events_in_order() {
    let body = "data: {\"type\":\"message_start\",\"message\":{\"id\":\"msg_1\",\"role\":\"assistant\"}}\ndata: {\"type\":\"content_block_delta\",\"index\":0,\"delta\":{\"type\":\"text_delta\",\"text\":\"pong\"}}\ndata: {\"type\":\"message_stop\"}\n";
    let out = decode_body(body);
    assert_eq!(out.len(), 3);
    match &out[0] {
        Ok(ResponseEvent::MessageStart { message }) => {
            assert_eq!(message.id, Some("msg_1".to_string()));
        }
        other => panic!("unexpected first event: {:?}", other),
    }
    assert_eq!(
        out[1],
        Ok(ResponseEvent::ContentBlockDelta {
            index: 0,
            delta: TextDelta::TextDelta {
                text: "pong".to_string()
            },
        })
    );
    assert_eq!(out[2], Ok(ResponseEvent::MessageStop));
}

#[test]
fn error_status_with_error_body_resolves_to_status_error() {
    let body = "{\"error\":{\"message\":\"rate limited\"}}";
    let e = resolve_error(429, body);
    assert_eq!(
        e,
        ApiError::HttpStatus {
            status: 429,
            body: body.to_string(),
        }
    );
}

#[test]
fn error_status_with_event_shaped_body_is_anomalous() {
    let body = "{\"type\":\"ping\"}";
    let e = resolve_error(500, body);
    assert_eq!(
        e,
        ApiError::AnomalousResponse {
            body: body.to_string(),
        }
    );
}

#[test]
fn status_classification() {
    assert!(is_success_status(200));
    assert!(is_success_status(204));
    assert!(is_success_status(299));
    assert!(!is_success_status(199));
    assert!(!is_success_status(300));
    assert!(!is_success_status(429));
    assert!(!is_success_status(500));
}

#[test]
fn split_lines_matches_stream_reader() {
    let empty: Vec<String> = vec![];
    assert_eq!(split_lines(""), empty);
    assert_eq!(split_lines("a\nb"), vec!["a".to_string(), "b".to_string()]);
    assert_eq!(split_lines("a\nb\n"), vec!["a".to_string(), "b".to_string()]);
    assert_eq!(
        split_lines("a\r\nb\r\n"),
        vec!["a".to_string(), "b".to_string()]
    );
    assert_eq!(
        split_lines("a\n\nb"),
        vec!["a".to_string(), "".to_string(), "b".to_string()]
    );
    assert_eq!(split_lines("a\r"), vec!["a\r".to_string()]);
}

#[test]
fn whitespace_inside_frames_is_tolerated() {
    let r = decode_frame(" { \"type\" : \"ping\" } ");
    assert_eq!(r, Ok(ResponseEvent::Ping));
}

#[test]
fn trailing_garbage_after_frame_is_a_syntax_error() {
    assert_eq!(
        decode_frame("{\"type\":\"ping\"} x"),
        Err(FrameError::Syntax)
    );
}
