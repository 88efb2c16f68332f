use wand::pusher::{
    deserialize_double_encoded_json_data, try_deserialize_double_encoded_json_data,
    data_with_decoded_message, data_from_message_fields,
    terminal_layout, Block, DataError, Output, PusherData, PusherResponse, Reaction, StepError,
};

fn response(event: &str, message: Option<&str>, name: Option<&str>) -> PusherResponse {
    PusherResponse {
        event: event.to_string(),
        data: PusherData {
            message: message.map(String::from),
            name: name.map(String::from),
        },
    }
}

#[test]
fn layout_of_a_block() {
    assert_eq!(terminal_layout("x", 1, 255, "name", "body"), "x [1/255] name\n\nbody\n");
    assert_eq!(terminal_layout("", 0, 10, "", ""), " [0/10] \n\n\n");
}

#[test]
fn append_to_body_extends_body() {
    let mut block = Block {
        name: "n".to_string(),
        body: "a".to_string(),
        step_num: 1,
        num_steps: 1,
        complete: false,
    };
    block.append_to_body("bc");
    assert_eq!(block.body, "abc");
    assert_eq!(block.name, "n");
}

#[test]
fn confirmations_change_nothing() {
    let mut out = Output::new();
    assert_eq!(out.handle_response(&response("pusher:connection_established", None, None)), Ok(Reaction::Ignored));
    assert_eq!(
        out.handle_response(&response("pusher_internal:subscription_succeeded", None, None)),
        Ok(Reaction::Ignored)
    );
    assert_eq!(out.blocks().len(), 0);
}

#[test]
fn unknown_events_are_reported() {
    let mut out = Output::new();
    assert_eq!(out.handle_response(&response("other", Some("m"), Some("n"))), Ok(Reaction::UnknownEvent));
    assert_eq!(out.blocks().len(), 0);
}

#[test]
fn first_message_opens_a_step() {
    let mut out = Output::new();
    assert_eq!(out.handle_response(&response("message", Some("hello\n"), Some("Build"))), Ok(Reaction::Redraw));
    let blocks = out.blocks();
    assert_eq!(blocks.len(), 2);
    assert_eq!(blocks[0].name, "Test first one");
    assert_eq!(blocks[0].body, "Test body here \nHere is some more output: 1\nAnd more: 2\n");
    assert_eq!((blocks[0].step_num, blocks[0].num_steps, blocks[0].complete), (1, 2, true));
    assert_eq!(blocks[1].name, "Build");
    assert_eq!(blocks[1].body, "hello\n");
    assert_eq!((blocks[1].step_num, blocks[1].num_steps, blocks[1].complete), (2, 2, false));
}

#[test]
fn later_messages_accumulate() {
    let mut out = Output::new();
    out.handle_response(&response("message", Some("a"), Some("Build"))).unwrap();
    out.handle_response(&response("message", Some("b"), None)).unwrap();
    out.handle_response(&response("pusher:connection_established", None, None)).unwrap();
    out.handle_response(&response("message", Some("c"), Some("ignored"))).unwrap();
    let blocks = out.blocks();
    assert_eq!(blocks.len(), 2);
    assert_eq!(blocks[1].name, "Build");
    assert_eq!(blocks[1].body, "abc");
}

#[test]
fn message_without_fields_is_refused() {
    let mut out = Output::new();
    assert_eq!(out.handle_response(&response("message", Some("a"), None)), Err(StepError::MissingName));
    assert_eq!(out.handle_response(&response("message", None, Some("n"))), Err(StepError::MissingMessage));
    assert_eq!(out.blocks().len(), 0);
    out.handle_response(&response("message", Some("a"), Some("n"))).unwrap();
    assert_eq!(out.handle_response(&response("message", None, Some("n"))), Err(StepError::MissingMessage));
    assert_eq!(out.blocks()[1].body, "a");
}

#[test]
fn base64_message_is_decoded() {
    let data = deserialize_double_encoded_json_data("{\"message\":\"aGVsbG8=\",\"name\":\"step\"}");
    assert_eq!(data.message.as_deref(), Some("hello"));
    assert_eq!(data.name.as_deref(), Some("step"));
}

#[test]
fn non_base64_message_stays() {
    let data = deserialize_double_encoded_json_data("{\"message\":\"hi there\",\"name\":3}");
    assert_eq!(data.message.as_deref(), Some("hi there"));
    assert_eq!(data.name, None);
}

#[test]
fn missing_message_stays_missing() {
    let data = try_deserialize_double_encoded_json_data("{\"message\":5,\"name\":\"n\"}").unwrap();
    assert_eq!(data.message, None);
    assert_eq!(data.name.as_deref(), Some("n"));
    let data = deserialize_double_encoded_json_data("[1, 2]");
    assert_eq!((data.message, data.name), (None, None));
}

#[test]
fn invalid_json_is_refused() {
    assert_eq!(try_deserialize_double_encoded_json_data("{not json").err(), Some(DataError::InvalidJson));
}

#[test]
fn base64_of_invalid_utf8_is_refused() {
    assert_eq!(
        try_deserialize_double_encoded_json_data("{\"message\":\"/w==\"}").err(),
        Some(DataError::InvalidUtf8)
    );
}

#[test]
fn decoded_message_replaces_raw() {
    let d = data_with_decoded_message("raw".to_string(), Some(b"text".to_vec()), Some("n".to_string())).unwrap();
    assert_eq!(d.message.as_deref(), Some("text"));
    assert_eq!(d.name.as_deref(), Some("n"));
    let d = data_with_decoded_message("raw".to_string(), None, None).unwrap();
    assert_eq!(d.message.as_deref(), Some("raw"));
    assert_eq!(
        data_with_decoded_message("raw".to_string(), Some(vec![0xc3]), None).err(),
        Some(DataError::InvalidUtf8)
    );
}

#[test]
fn message_fields_are_decoded() {
    let d = data_from_message_fields(Some("d29ybGQ=".to_string()), Some("n".to_string())).unwrap();
    assert_eq!(d.message.as_deref(), Some("world"));
    let d = data_from_message_fields(None, Some("n".to_string())).unwrap();
    assert_eq!(d.message, None);
}

#[test]
fn subscribe_frame() {
    let channel = "private-\"run\"\n\t\u{1}\u{1f}\\/\u{7f}é";
    let mut data = ureq::serde_json::Map::new();
    data.insert("channel".to_string(), ureq::serde_json::Value::String(channel.to_string()));
    let mut frame = ureq::serde_json::Map::new();
    frame.insert("event".to_string(), ureq::serde_json::Value::String("pusher:subscribe".to_string()));
    frame.insert("data".to_string(), ureq::serde_json::Value::Object(data));
    let expected = ureq::serde_json::Value::Object(frame).to_string();
    assert_eq!(wand::pusher::subscribe_message(channel), expected);
    assert_eq!(
        wand::pusher::subscribe_message("\u{1b}"),
        "{\"data\":{\"channel\":\"\\u001b\"},\"event\":\"pusher:subscribe\"}"
    );
    assert_eq!(
        wand::pusher::subscribe_message("abc"),
        "{\"data\":{\"channel\":\"abc\"},\"event\":\"pusher:subscribe\"}"
    );
}

/// Every test that sets `colored`'s process-wide override stands here, one
/// after the other, so that no two of them race.
#[test]
fn terminal_output_with_and_without_colour() {
    colored::control::set_override(false);
    let block = Block {
        name: "Deploy".to_string(),
        body: "line 1\n".to_string(),
        step_num: 2,
        num_steps: 2,
        complete: false,
    };
    assert_eq!(block.as_terminal_output(), "\u{1F3C3} [2/2] Deploy\n\nline 1\n\n");
    let done = Block { complete: true, ..block };
    assert_eq!(done.as_terminal_output(), "\u{2713} [2/2] Deploy\n\nline 1\n\n");

    let mut out = Output::new();
    assert_eq!(out.render(), "");
    out.handle_response(&response("message", Some("x"), Some("Step"))).unwrap();
    assert_eq!(
        out.render(),
        "\u{2713} [1/2] Test first one\n\nTest body here \nHere is some more output: 1\nAnd more: 2\n\n\u{1F3C3} [2/2] Step\n\nx\n"
    );

    colored::control::set_override(true);
    let block = Block {
        name: "Deploy".to_string(),
        body: "out".to_string(),
        step_num: 1,
        num_steps: 3,
        complete: true,
    };
    let text = block.as_terminal_output();
    assert!(text.starts_with("\x1b[32m\u{2713}\x1b[0m [1/3] \x1b[1;97mDeploy\x1b[0m\n\n\x1b["));
    assert!(text.ends_with("mout\x1b[0m\n"));
    colored::control::unset_override();
}
