use onec_debug_adapter::dap::{error_response, event, frame, response, Frame, Message, Reader, Writer};
use onec_debug_adapter::json::Json;

fn json(text: &str) -> Json {
    convert(&serde_json::from_str::<serde_json::Value>(text).unwrap())
}

fn convert(value: &serde_json::Value) -> Json {
    match value {
        serde_json::Value::Null => Json::Null,
        serde_json::Value::Bool(b) => Json::Bool(*b),
        serde_json::Value::Number(n) => match (n.as_u64(), n.as_i64()) {
            (Some(n), _) => Json::Unsigned(n),
            (None, Some(n)) => Json::Negative(n),
            _ => Json::Float(n.to_string()),
        },
        serde_json::Value::String(s) => Json::Str(s.clone()),
        serde_json::Value::Array(items) => Json::Array(items.iter().map(convert).collect()),
        serde_json::Value::Object(members) => Json::Object(
            members.iter().map(|(k, v)| (k.clone(), convert(v))).collect(),
        ),
    }
}

fn payload(frame: Frame) -> Vec<u8> {
    match frame {
        Frame::Payload(payload) => payload,
        _ => panic!("no payload"),
    }
}

fn refusal(input: &[u8], ended: bool) -> String {
    let mut reader = Reader::new(());
    reader.feed(input);
    match reader.read(ended) {
        Frame::Invalid(message) => message,
        _ => panic!("the input is accepted"),
    }
}

#[test]
fn frames_round_trip() {
    let payload_text = r#"{"command":"test"}"#;
    let source = format!("Content-Length: {}\r\n\r\n{payload_text}", payload_text.len());
    let mut reader = Reader::new(());
    reader.feed(source.as_bytes());
    let bytes = payload(reader.read(true));
    let received = Message(json(std::str::from_utf8(&bytes).unwrap()));
    assert_eq!(received.0.get("command").unwrap().as_str(), Some("test"));

    let mut writer = Writer::new(Vec::new());
    writer.output.extend(frame(&bytes));
    let mut again = Reader::new(());
    again.feed(&writer.output);
    let bytes = payload(again.read(true));
    assert_eq!(Message(json(std::str::from_utf8(&bytes).unwrap())), received);
}

#[test]
fn a_frame_is_the_length_and_the_payload() {
    assert_eq!(frame(b"{}"), b"Content-Length: 2\r\n\r\n{}".to_vec());
    assert_eq!(frame(b""), b"Content-Length: 0\r\n\r\n".to_vec());
}

#[test]
fn frames_may_arrive_in_pieces_and_together() {
    let mut reader = Reader::new(());
    reader.feed(b"Content-Length: 3\r\n");
    assert!(matches!(reader.read(false), Frame::Incomplete));
    reader.feed(b"Content-Type: json\r\n\r\nab");
    assert!(matches!(reader.read(false), Frame::Incomplete));
    reader.feed(b"cContent-Length: 1\r\n\r\nd");
    assert_eq!(payload(reader.read(false)), b"abc".to_vec());
    assert_eq!(payload(reader.read(false)), b"d".to_vec());
    assert!(matches!(reader.read(false), Frame::Incomplete));
    assert!(matches!(reader.read(true), Frame::End));
}

#[test]
fn frames_without_a_length_are_refused() {
    assert_eq!(
        refusal(b"Content-Type: json\r\n\r\n{}", false),
        "DAP message has no Content-Length header"
    );
    assert_eq!(
        refusal(b"Content-Length: 5\r\n\r\n{}", true),
        "failed to fill whole buffer"
    );
}

#[test]
fn answers_repeat_the_number_and_the_command_of_the_request() {
    let request = json(r#"{"seq":9,"type":"request","command":"pause"}"#);
    assert_eq!(
        response(&request, 3, Json::Object(Vec::new())),
        Json::Object(vec![
            ("seq".to_owned(), Json::Unsigned(3)),
            ("type".to_owned(), Json::Str("response".to_owned())),
            ("request_seq".to_owned(), Json::Unsigned(9)),
            ("success".to_owned(), Json::Bool(true)),
            ("command".to_owned(), Json::Str("pause".to_owned())),
            ("body".to_owned(), Json::Object(Vec::new())),
        ])
    );
    let refused = error_response(&request, 4, "no");
    assert_eq!(refused.get("success"), Some(&Json::Bool(false)));
    assert_eq!(refused.get("request_seq"), Some(&Json::Unsigned(9)));
    assert_eq!(refused.get("message").unwrap().as_str(), Some("no"));
    assert_eq!(error_response(&Json::Null, 1, "no").get("request_seq"), Some(&Json::Null));
    assert_eq!(
        event(5, "stopped", Json::Null).get("event").unwrap().as_str(),
        Some("stopped")
    );
}
