use serde_json::Value;
use translator::api::{
    is_success, read_chunk, read_text, test_connection, test_request, translate_request,
    translate_stream, ChatChunk, ChunkChoice, Delta, SendError, StreamInput, StreamState,
    StreamStep, TestInput, TestStep, TranslateEvent,
};

fn optional(v: Option<&Value>) -> Option<Option<String>> {
    match v {
        None | Some(Value::Null) => Some(None),
        Some(Value::String(s)) => Some(Some(s.clone())),
        Some(_) => None,
    }
}

/// A parser of messages over `serde_json`'s values.
fn parse(json: String) -> Option<ChatChunk> {
    let value: Value = serde_json::from_str(&json).ok()?;
    let mut choices = Vec::new();
    for choice in value.get("choices")?.as_array()? {
        let delta = choice.get("delta")?;
        choices.push(ChunkChoice {
            delta: Delta { content: optional(delta.get("content"))? },
            finish_reason: optional(choice.get("finish_reason"))?,
        });
    }
    Some(ChatChunk { choices })
}

fn choice(content: Option<&str>, finish: Option<&str>) -> ChunkChoice {
    ChunkChoice {
        delta: Delta { content: content.map(str::to_string) },
        finish_reason: finish.map(str::to_string),
    }
}

fn shown(events: &[TranslateEvent]) -> Vec<String> {
    events
        .iter()
        .map(|e| match e {
            TranslateEvent::Chunk(s) => format!("+{}", s),
            TranslateEvent::Done => "done".to_string(),
            TranslateEvent::Error(s) => format!("!{}", s),
        })
        .collect()
}

fn failure(connect: bool, timeout: bool) -> SendError {
    SendError { connect, timeout, text: "boom".to_string() }
}

fn receive(bytes: &[u8]) -> StreamStep {
    translate_stream(StreamState::Reading, StreamInput::Received(bytes.to_vec()), parse)
}

fn message(content: &str) -> Value {
    let mut m = serde_json::Map::new();
    m.insert("role".to_string(), Value::from("user"));
    m.insert("content".to_string(), Value::from(content));
    Value::Array(vec![Value::Object(m)])
}

#[test]
fn request_for_a_translation() {
    let r = translate_request("sk-1", "https://h/v1//", "m\"1", "说\\明", "a\tb\u{1}\n中");
    assert_eq!(r.url, "https://h/v1/chat/completions");
    assert_eq!(r.authorization, "Bearer sk-1");
    assert_eq!(r.content_type, "application/json");
    assert_eq!(r.timeout_secs, 60);
    let mut body = serde_json::Map::new();
    body.insert("model".to_string(), Value::from("m\"1"));
    body.insert("stream".to_string(), Value::from(true));
    body.insert("messages".to_string(), message("说\\明\n\na\tb\u{1}\n中"));
    assert_eq!(r.body, Value::Object(body).to_string());
    assert_eq!(
        r.body,
        "{\"messages\":[{\"content\":\"说\\\\明\\n\\na\\tb\\u0001\\n中\",\"role\":\"user\"}],\
         \"model\":\"m\\\"1\",\"stream\":true}"
    );
}

#[test]
fn every_character_reaches_the_service() {
    let mut text = String::new();
    for u in (0..0x300u32).chain([0x2028, 0x2029, 0xfffd, 0x1f600]) {
        text.push(char::from_u32(u).unwrap());
    }
    let r = translate_request("", "", "m", "", &text);
    let body: Value = serde_json::from_str(&r.body).unwrap();
    let mut expected = serde_json::Map::new();
    expected.insert("model".to_string(), Value::from("m"));
    expected.insert("stream".to_string(), Value::from(true));
    expected.insert("messages".to_string(), message(&format!("\n\n{}", text)));
    assert_eq!(body, Value::Object(expected.clone()));
    assert_eq!(r.body, Value::Object(expected).to_string());
}

#[test]
fn request_for_a_test() {
    let r = test_request("k", "http://localhost:1/", "gpt");
    assert_eq!(r.url, "http://localhost:1/chat/completions");
    assert_eq!(r.authorization, "Bearer k");
    assert_eq!(r.content_type, "application/json");
    assert_eq!(r.timeout_secs, 15);
    let mut body = serde_json::Map::new();
    body.insert("model".to_string(), Value::from("gpt"));
    body.insert("max_tokens".to_string(), Value::from(5));
    body.insert("messages".to_string(), message("Hi"));
    assert_eq!(r.body, Value::Object(body).to_string());
}

#[test]
fn slashes_after_the_address_do_not_matter() {
    let with = translate_request("k", "http://h/", "m", "p", "t");
    let without = translate_request("k", "http://h", "m", "p", "t");
    assert_eq!(with.url, without.url);
    assert_eq!(test_request("k", "///", "m").url, "/chat/completions");
}

#[test]
fn status_codes() {
    for status in [200, 204, 299] {
        assert!(is_success(status));
    }
    for status in [0, 101, 199, 300, 404, 500] {
        assert!(!is_success(status));
    }
}

#[test]
fn outcomes_of_a_connection_test() {
    let end = |input| match test_connection(input) {
        TestStep::Finished(result) => result,
        TestStep::ReadBody(status) => panic!("{}", status),
    };
    assert_eq!(
        end(TestInput::ClientFailed("tls".to_string())),
        Err("构建客户端失败: tls".to_string())
    );
    assert_eq!(
        end(TestInput::SendFailed(failure(true, true))),
        Err("无法连接到服务器，请检查 Base URL。".to_string())
    );
    assert_eq!(
        end(TestInput::SendFailed(failure(false, true))),
        Err("连接超时。".to_string())
    );
    assert_eq!(
        end(TestInput::SendFailed(failure(false, false))),
        Err("连接失败: boom".to_string())
    );
    assert_eq!(
        end(TestInput::Responded(200)),
        Ok("连接成功！API 配置有效。".to_string())
    );
    assert!(matches!(test_connection(TestInput::Responded(401)), TestStep::ReadBody(401)));
    assert_eq!(
        end(TestInput::Refused(401, "bad key".to_string())),
        Err("API 返回错误 (401): bad key".to_string())
    );
}

#[test]
fn message_of_several_choices() {
    let step = read_chunk(ChatChunk {
        choices: vec![
            choice(Some("a"), None),
            choice(Some(""), None),
            choice(None, None),
            choice(Some("b"), None),
        ],
    });
    assert_eq!(shown(&step.events), ["+a", "+b"]);
    assert!(!step.done);
}

#[test]
fn finish_reason_ends_the_stream() {
    let step = read_chunk(ChatChunk {
        choices: vec![
            choice(Some("a"), None),
            choice(Some("dropped"), Some("stop")),
            choice(Some("b"), None),
        ],
    });
    assert_eq!(shown(&step.events), ["+a", "done"]);
    assert!(step.done);
    let step = read_chunk(ChatChunk { choices: vec![choice(None, Some(""))] });
    assert_eq!(shown(&step.events), ["done"]);
}

#[test]
fn empty_message() {
    let step = read_chunk(ChatChunk { choices: Vec::new() });
    assert!(step.events.is_empty() && !step.done);
}

#[test]
fn text_of_a_stream() {
    let text = ": comment\r\n\
                data: {\"choices\":[{\"delta\":{\"content\":\"Hel\"}}]}\r\n\r\n\
                event: x\n  data: {\"choices\":[{\"delta\":{\"content\":\"lo\"}}]}  \n\
                data: not json\n\
                data: {\"choices\":[{\"delta\":{\"content\":1}}]}\n\
                data:{\"choices\":[{\"delta\":{\"content\":\"no space\"}}]}\n\
                data: {\"choices\":[{\"delta\":{},\"finish_reason\":null}]}\n\
                data: [DONE]\n\
                data: {\"choices\":[{\"delta\":{\"content\":\"late\"}}]}\n";
    let step = read_text(text, parse);
    assert_eq!(shown(&step.events), ["+Hel", "+lo", "done"]);
    assert!(step.done);
}

#[test]
fn parser_sees_the_payload_only() {
    let seen = std::cell::RefCell::new(Vec::new());
    let step = read_text("x\n data: one \ndata: two\ndata: [DONE]\ndata: three", |json: String| {
        seen.borrow_mut().push(json);
        None
    });
    assert_eq!(*seen.borrow(), ["one", "two"]);
    assert_eq!(shown(&step.events), ["done"]);
}

#[test]
fn cut_after_a_line_feed() {
    let a = "data: {\"choices\":[{\"delta\":{\"content\":\"a\"}}]}\n";
    let b = "data: {\"choices\":[{\"delta\":{\"content\":\"b\"}}]}";
    let whole = read_text(&format!("{}{}", a, b), parse);
    let mut parts = shown(&read_text(a, parse).events);
    parts.extend(shown(&read_text(b, parse).events));
    assert_eq!(shown(&whole.events), parts);
    assert_eq!(parts, ["+a", "+b"]);
}

#[test]
fn request_without_an_answer() {
    let say = |e| {
        let step = translate_stream(StreamState::Sending, StreamInput::SendFailed(e), parse);
        assert_eq!(step.state, StreamState::Closed);
        shown(&step.events)
    };
    assert_eq!(
        say(failure(true, true)),
        ["!无法连接到 API 服务器，请检查网络或 Base URL 设置。"]
    );
    assert_eq!(say(failure(false, true)), ["!请求超时，请稍后重试。"]);
    assert_eq!(say(failure(false, false)), ["!请求异常: boom"]);
}

#[test]
fn refused_request() {
    let step = translate_stream(StreamState::Sending, StreamInput::Responded(429), parse);
    assert_eq!(step.state, StreamState::Refused(429));
    assert!(step.events.is_empty());
    let body = StreamInput::RefusalBody("slow down".to_string());
    let step = translate_stream(step.state, body, parse);
    assert_eq!(step.state, StreamState::Closed);
    assert_eq!(shown(&step.events), ["!API 返回错误 (429): slow down"]);
}

#[test]
fn granted_request() {
    let step = translate_stream(StreamState::Sending, StreamInput::Responded(200), parse);
    assert_eq!(step.state, StreamState::Reading);
    assert!(step.events.is_empty());

    let step = receive("data: {\"choices\":[{\"delta\":{\"content\":\"你好\"}}]}\n\n".as_bytes());
    assert_eq!(step.state, StreamState::Reading);
    assert_eq!(shown(&step.events), ["+你好"]);

    let step = receive(b"data: [DONE]\n\n");
    assert_eq!(step.state, StreamState::Closed);
    assert_eq!(shown(&step.events), ["done"]);
}

#[test]
fn bytes_that_are_not_utf8() {
    let step = receive(b"data: {\"choices\":[{\"delta\":{\"content\":\"a\xffb\"}}]}");
    assert_eq!(shown(&step.events), ["+a\u{fffd}b"]);
    assert_eq!(step.state, StreamState::Reading);
    let half = &"中".as_bytes()[..2];
    let mut bytes = b"data: {\"choices\":[{\"delta\":{\"content\":\"".to_vec();
    bytes.extend_from_slice(half);
    bytes.extend_from_slice(b"\"}}]}\ndata: [DONE]");
    assert_eq!(shown(&receive(&bytes).events), ["+\u{fffd}", "done"]);
}

#[test]
fn ends_of_a_stream() {
    let step = translate_stream(StreamState::Reading, StreamInput::Ended, parse);
    assert_eq!((step.state, shown(&step.events)), (StreamState::Closed, vec!["done".to_string()]));
    let broken = StreamInput::ReadFailed("reset".to_string());
    let step = translate_stream(StreamState::Reading, broken, parse);
    assert_eq!(step.state, StreamState::Closed);
    assert_eq!(shown(&step.events), ["!请求异常: reset"]);
    let step = translate_stream(StreamState::Reading, StreamInput::Cancelled, parse);
    assert_eq!(step.state, StreamState::Closed);
    assert!(step.events.is_empty());
}

#[test]
fn what_does_not_belong_to_the_state() {
    for state in [StreamState::Sending, StreamState::Refused(500), StreamState::Closed] {
        let step = translate_stream(state, StreamInput::Ended, parse);
        assert_eq!(step.state, state);
        assert!(step.events.is_empty());
    }
    let late = StreamInput::Received(b"data: [DONE]".to_vec());
    assert!(translate_stream(StreamState::Closed, late, parse).events.is_empty());
    let step = translate_stream(StreamState::Reading, StreamInput::Responded(200), parse);
    assert_eq!(step.state, StreamState::Reading);
}

#[test]
fn terminal_events() {
    assert!(!TranslateEvent::Chunk("x".to_string()).is_terminal());
    assert!(TranslateEvent::Done.is_terminal());
    assert!(TranslateEvent::Error(String::new()).is_terminal());
    assert_eq!(shown(&[TranslateEvent::Chunk("x".to_string()).clone()]), ["+x"]);
}

#[test]
fn whole_run_is_orderly() {
    let mut state = StreamState::Sending;
    let mut events = Vec::new();
    for input in [
        StreamInput::Responded(200),
        StreamInput::Received(
            b"data: {\"choices\":[{\"delta\":{\"content\":\"a\"}},{\"delta\":{\"content\":\"\"}}]}"
                .to_vec(),
        ),
        StreamInput::Received(b"data: [DONE]\ndata: [DONE]".to_vec()),
        StreamInput::Ended,
    ] {
        let step = translate_stream(state, input, parse);
        state = step.state;
        events.extend(step.events);
    }
    assert_eq!(state, StreamState::Closed);
    assert_eq!(shown(&events), ["+a", "done"]);
}
