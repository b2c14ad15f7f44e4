use gradient_codec::errors::GcError;
use gradient_codec::reply::{
    anthropic_reply, ollama_reply, openai_reply, read_reply, reply_fields, Json, ReplyFormat,
};

fn obj(members: Vec<(&str, Json)>) -> Json {
    Json::Obj(members.into_iter().map(|(k, v)| (k.to_string(), v)).collect())
}

fn text(s: &str) -> Json {
    Json::Str(s.to_string())
}

#[test]
fn openai_reply_reads_first_choice_and_usage() {
    let j = obj(vec![
        (
            "choices",
            Json::Arr(vec![
                obj(vec![("message", obj(vec![("role", text("assistant")), ("content", text("hi"))]))]),
                obj(vec![("message", obj(vec![("content", text("second"))]))]),
            ]),
        ),
        ("usage", obj(vec![("prompt_tokens", Json::Num(Some(12))), ("completion_tokens", Json::Num(Some(34)))])),
    ]);
    let f = openai_reply(&j);
    assert_eq!(f.text, "hi");
    assert_eq!(f.usage.input_tokens, 12);
    assert_eq!(f.usage.output_tokens, 34);
}

#[test]
fn anthropic_reply_reads_first_content_block() {
    let j = obj(vec![
        ("content", Json::Arr(vec![obj(vec![("type", text("text")), ("text", text("hello"))])])),
        ("usage", obj(vec![("input_tokens", Json::Num(Some(7))), ("output_tokens", Json::Num(Some(9)))])),
    ]);
    let f = anthropic_reply(&j);
    assert_eq!(f.text, "hello");
    assert_eq!(f.usage.input_tokens, 7);
    assert_eq!(f.usage.output_tokens, 9);
}

#[test]
fn ollama_reply_reads_eval_counts() {
    let j = obj(vec![
        ("message", obj(vec![("content", text("local"))])),
        ("prompt_eval_count", Json::Num(Some(5))),
        ("eval_count", Json::Num(Some(6))),
    ]);
    let f = ollama_reply(&j);
    assert_eq!(f.text, "local");
    assert_eq!(f.usage.input_tokens, 5);
    assert_eq!(f.usage.output_tokens, 6);
}

#[test]
fn missing_or_mistyped_fields_read_as_empty_and_zero() {
    let j = obj(vec![
        ("message", obj(vec![("content", Json::Num(Some(3)))])),
        ("prompt_eval_count", text("5")),
        ("eval_count", Json::Num(None)),
    ]);
    let f = ollama_reply(&j);
    assert_eq!(f.text, "");
    assert_eq!(f.usage.input_tokens, 0);
    assert_eq!(f.usage.output_tokens, 0);
    let f = reply_fields(ReplyFormat::OpenAi, &Json::Null);
    assert_eq!(f.text, "");
    assert_eq!(f.usage.input_tokens, 0);
    let f = anthropic_reply(&obj(vec![("content", Json::Arr(vec![]))]));
    assert_eq!(f.text, "");
}

#[test]
fn large_counts_wrap_to_u32() {
    let j = obj(vec![("eval_count", Json::Num(Some((1u64 << 32) + 7)))]);
    let f = ollama_reply(&j);
    assert_eq!(f.usage.output_tokens, 7);
}

#[test]
fn read_reply_parses_openai_body() {
    let body = br#"{"id":"x","choices":[{"index":0,"message":{"role":"assistant","content":"Paris"}}],"usage":{"prompt_tokens":10,"completion_tokens":2,"total_tokens":12}}"#;
    let r = read_reply(ReplyFormat::OpenAi, body, 42).unwrap();
    assert_eq!(r.text, "Paris");
    assert_eq!(r.usage.input_tokens, 10);
    assert_eq!(r.usage.output_tokens, 2);
    assert_eq!(r.latency_ms, 42);
    assert!(matches!(r.raw_provider_response, Some(Json::Obj(_))));
}

#[test]
fn read_reply_parses_anthropic_and_ollama_bodies() {
    let body = br#"{"content":[{"type":"text","text":"Hi there"}],"usage":{"input_tokens":4,"output_tokens":3}}"#;
    let r = read_reply(ReplyFormat::Anthropic, body, 1).unwrap();
    assert_eq!(r.text, "Hi there");
    assert_eq!((r.usage.input_tokens, r.usage.output_tokens), (4, 3));
    let body = br#"{"message":{"role":"assistant","content":"ok"},"prompt_eval_count":8,"eval_count":-1}"#;
    let r = read_reply(ReplyFormat::Ollama, body, 1).unwrap();
    assert_eq!(r.text, "ok");
    assert_eq!((r.usage.input_tokens, r.usage.output_tokens), (8, 0));
}

#[test]
fn read_reply_of_non_json_is_malformed_output() {
    match read_reply(ReplyFormat::Anthropic, b"<html>oops</html>", 5) {
        Err(GcError::MalformedOutput { provider, detail }) => {
            assert_eq!(provider, "anthropic");
            assert!(detail.starts_with("Anthropic parse failed: "));
            assert!(detail.len() > "Anthropic parse failed: ".len());
        }
        other => panic!("unexpected: {:?}", other.map(|r| r.text)),
    }
    assert!(matches!(
        read_reply(ReplyFormat::OpenAi, b"", 5),
        Err(GcError::MalformedOutput { .. })
    ));
}

#[test]
fn read_reply_of_other_json_reads_defaults() {
    let r = read_reply(ReplyFormat::OpenAi, b"[1, 2, 3]", 0).unwrap();
    assert_eq!(r.text, "");
    assert_eq!((r.usage.input_tokens, r.usage.output_tokens), (0, 0));
}
