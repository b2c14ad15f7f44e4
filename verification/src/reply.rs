//! Provider replies: the JSON body of a successful completion, and the text
//! and token counts the router reads from it at each provider's fixed paths.
//!
//! A missing or mistyped field reads as `serde_json`'s indexing does: an
//! absent key or index gives `null`, text that is not a string reads as
//! empty, and a count that is not a whole number in `u64` range reads as 0.
use vstd::prelude::*;
use crate::adapter::{usage_from_counts, CompletionResponse, TokenUsage};
use crate::errors::GcError;

verus! {

/// A JSON value. Numbers keep only what the router reads of them: their value
/// where it is a whole number in `u64` range (`Number::as_u64`).
#[derive(Debug)]
pub enum Json {
    Null,
    Bool(bool),
    Num(Option<u64>),
    Str(String),
    Arr(Vec<Json>),
    /// An object's members, each key once.
    Obj(Vec<(String, Json)>),
}

/// What `serde_json::from_slice` makes of `body`, as a [`Json`]; `None` where
/// the bytes are not one JSON value.
pub uninterp spec fn parsed_json(body: Seq<u8>) -> Option<Json>;

/// The one-for-one rendering of a `serde_json::Value` as a [`Json`]: each
/// variant to its counterpart, a number by `Number::as_u64`, arrays and
/// objects member by member in the order `serde_json` holds them.
#[verifier::external_body]
fn json_of_value(v: serde_json::Value) -> Json {
    match v {
        serde_json::Value::Null => Json::Null,
        serde_json::Value::Bool(b) => Json::Bool(b),
        serde_json::Value::Number(n) => Json::Num(n.as_u64()),
        serde_json::Value::String(s) => Json::Str(s),
        serde_json::Value::Array(a) => Json::Arr(a.into_iter().map(json_of_value).collect()),
        serde_json::Value::Object(m) => Json::Obj(m.into_iter().map(|(k, x)| (k, json_of_value(x))).collect()),
    }
}

/// `serde_json::from_slice` into a `serde_json::Value`, rendered as a
/// [`Json`]. Claimed: it succeeds exactly when [`parsed_json`] is `Some`, and
/// then gives that value; the result depends on the bytes alone. On failure
/// the error's message (its `Display` text) is handed back, and nothing is
/// stated of that text.
#[verifier::external_body]
fn parse_json(body: &[u8]) -> (r: Result<Json, String>)
    ensures
        match r {
            Ok(j) => parsed_json(body@) == Some(j),
            Err(_) => parsed_json(body@) is None,
        },
{
    match serde_json::from_slice::<serde_json::Value>(body) {
        Ok(v) => Ok(json_of_value(v)),
        Err(e) => Err(e.to_string()),
    }
}

// ─────────────────────────── reading by path ───────────────────────────

/// The value of the first member of `es` under key `k`, or `Null`.
pub open spec fn member(es: Seq<(String, Json)>, k: Seq<char>) -> Json
    decreases es.len(),
{
    if es.len() == 0 {
        Json::Null
    } else if es[0].0@ == k {
        es[0].1
    } else {
        member(es.drop_first(), k)
    }
}

/// `j[k]`: an object's member under `k`; `Null` for a missing key or where
/// `j` is no object.
pub open spec fn json_field(j: Json, k: Seq<char>) -> Json {
    match j {
        Json::Obj(es) => member(es@, k),
        _ => Json::Null,
    }
}

/// `j[i]`: an array's item at `i`; `Null` past the end or where `j` is no
/// array.
pub open spec fn json_item(j: Json, i: int) -> Json {
    match j {
        Json::Arr(v) => if 0 <= i < v@.len() {
            v@[i]
        } else {
            Json::Null
        },
        _ => Json::Null,
    }
}

/// `j.as_str().unwrap_or("")`.
pub open spec fn json_text(j: Json) -> Seq<char> {
    match j {
        Json::Str(s) => s@,
        _ => Seq::empty(),
    }
}

/// `j.as_u64()`.
pub open spec fn json_count(j: Json) -> Option<u64> {
    match j {
        Json::Num(n) => n,
        _ => None,
    }
}

/// A reference read as a value, `None` standing for `Null`.
pub open spec fn or_null(o: Option<&Json>) -> Json {
    match o {
        Some(v) => *v,
        None => Json::Null,
    }
}

fn field<'a>(j: Option<&'a Json>, k: &str) -> (r: Option<&'a Json>)
    ensures
        or_null(r) == json_field(or_null(j), k@),
{
    let v: &'a Json = match j {
        Some(v) => v,
        None => return None,
    };
    let es: &'a Vec<(String, Json)> = match v {
        Json::Obj(es) => es,
        _ => return None,
    };
    let mut i: usize = 0;
    assert(es@.subrange(0, es@.len() as int) =~= es@);
    while i < es.len()
        invariant
            i <= es@.len(),
            json_field(or_null(j), k@) == member(es@, k@),
            member(es@, k@) == member(es@.subrange(i as int, es@.len() as int), k@),
        decreases es@.len() - i,
    {
        let ghost rest = es@.subrange(i as int, es@.len() as int);
        assert(rest.drop_first() =~= es@.subrange(i + 1, es@.len() as int));
        assert(rest[0] == es@[i as int]);
        let entry = &es[i];
        if crate::text::str_eq(entry.0.as_str(), k) {
            return Some(&entry.1);
        }
        i = i + 1;
    }
    assert(es@.subrange(i as int, es@.len() as int).len() == 0);
    None
}

fn item<'a>(j: Option<&'a Json>, i: usize) -> (r: Option<&'a Json>)
    ensures
        or_null(r) == json_item(or_null(j), i as int),
{
    match j {
        Some(Json::Arr(v)) => if i < v.len() {
            Some(&v[i])
        } else {
            None
        },
        _ => None,
    }
}

fn text_of(j: Option<&Json>) -> (s: String)
    ensures
        s@ == json_text(or_null(j)),
{
    match j {
        Some(Json::Str(s)) => s.clone(),
        _ => String::new(),
    }
}

fn count_of(j: Option<&Json>) -> (n: Option<u64>)
    ensures
        n == json_count(or_null(j)),
{
    match j {
        Some(Json::Num(n)) => *n,
        _ => None,
    }
}

// ─────────────────────────── provider formats ───────────────────────────

/// The reply formats of the supported providers.
#[derive(Debug, Clone, Copy, PartialEq, Eq, Structural)]
pub enum ReplyFormat {
    OpenAi,
    Anthropic,
    Ollama,
}

/// What the router reads from a reply: the completion text and the billed
/// tokens.
#[derive(Debug)]
pub struct ReplyFields {
    pub text: String,
    pub usage: TokenUsage,
}

/// A token count as billed: absent counts are 0, and a count is kept modulo
/// 2^32 (`as u32`).
pub open spec fn billed(n: Option<u64>) -> u32 {
    match n {
        Some(v) => v as u32,
        None => 0,
    }
}

/// The text of a reply in the given format.
pub open spec fn reply_text(f: ReplyFormat, j: Json) -> Seq<char> {
    match f {
        ReplyFormat::OpenAi => json_text(
            json_field(json_field(json_item(json_field(j, "choices"@), 0), "message"@), "content"@),
        ),
        ReplyFormat::Anthropic => json_text(json_field(json_item(json_field(j, "content"@), 0), "text"@)),
        ReplyFormat::Ollama => json_text(json_field(json_field(j, "message"@), "content"@)),
    }
}

/// The input-token count of a reply in the given format.
pub open spec fn reply_input(f: ReplyFormat, j: Json) -> Option<u64> {
    match f {
        ReplyFormat::OpenAi => json_count(json_field(json_field(j, "usage"@), "prompt_tokens"@)),
        ReplyFormat::Anthropic => json_count(json_field(json_field(j, "usage"@), "input_tokens"@)),
        ReplyFormat::Ollama => json_count(json_field(j, "prompt_eval_count"@)),
    }
}

/// The output-token count of a reply in the given format.
pub open spec fn reply_output(f: ReplyFormat, j: Json) -> Option<u64> {
    match f {
        ReplyFormat::OpenAi => json_count(json_field(json_field(j, "usage"@), "completion_tokens"@)),
        ReplyFormat::Anthropic => json_count(json_field(json_field(j, "usage"@), "output_tokens"@)),
        ReplyFormat::Ollama => json_count(json_field(j, "eval_count"@)),
    }
}

/// The fields read from a reply in the given format.
pub open spec fn read_as(f: ReplyFormat, j: Json, r: ReplyFields) -> bool {
    &&& r.text@ == reply_text(f, j)
    &&& r.usage.input_tokens == billed(reply_input(f, j))
    &&& r.usage.output_tokens == billed(reply_output(f, j))
}

/// An OpenAI chat completion: `choices[0].message.content`, with
/// `usage.prompt_tokens` and `usage.completion_tokens`.
pub fn openai_reply(j: &Json) -> (r: ReplyFields)
    ensures
        read_as(ReplyFormat::OpenAi, *j, r),
{
    let root = Some(j);
    let text = text_of(field(field(item(field(root, "choices"), 0), "message"), "content"));
    let usage = field(root, "usage");
    let input = count_of(field(usage, "prompt_tokens"));
    let output = count_of(field(usage, "completion_tokens"));
    ReplyFields { text, usage: usage_from_counts(input, output) }
}

/// An Anthropic message: `content[0].text`, with `usage.input_tokens` and
/// `usage.output_tokens`.
pub fn anthropic_reply(j: &Json) -> (r: ReplyFields)
    ensures
        read_as(ReplyFormat::Anthropic, *j, r),
{
    let root = Some(j);
    let text = text_of(field(item(field(root, "content"), 0), "text"));
    let usage = field(root, "usage");
    let input = count_of(field(usage, "input_tokens"));
    let output = count_of(field(usage, "output_tokens"));
    ReplyFields { text, usage: usage_from_counts(input, output) }
}

/// An Ollama chat reply: `message.content`, with `prompt_eval_count` as the
/// input tokens and `eval_count` as the output tokens.
pub fn ollama_reply(j: &Json) -> (r: ReplyFields)
    ensures
        read_as(ReplyFormat::Ollama, *j, r),
{
    let root = Some(j);
    let text = text_of(field(field(root, "message"), "content"));
    let input = count_of(field(root, "prompt_eval_count"));
    let output = count_of(field(root, "eval_count"));
    ReplyFields { text, usage: usage_from_counts(input, output) }
}

/// The fields of a reply in the given format.
pub fn reply_fields(format: ReplyFormat, j: &Json) -> (r: ReplyFields)
    ensures
        read_as(format, *j, r),
{
    match format {
        ReplyFormat::OpenAi => openai_reply(j),
        ReplyFormat::Anthropic => anthropic_reply(j),
        ReplyFormat::Ollama => ollama_reply(j),
    }
}

/// The provider a format belongs to, as named in errors.
pub open spec fn format_provider(f: ReplyFormat) -> Seq<char> {
    match f {
        ReplyFormat::OpenAi => "openai"@,
        ReplyFormat::Anthropic => "anthropic"@,
        ReplyFormat::Ollama => "ollama"@,
    }
}

/// The start of the error detail for a body that is no JSON.
pub open spec fn parse_failure_prefix(f: ReplyFormat) -> Seq<char> {
    match f {
        ReplyFormat::OpenAi => "OpenAI parse failed: "@,
        ReplyFormat::Anthropic => "Anthropic parse failed: "@,
        ReplyFormat::Ollama => "Ollama parse failed: "@,
    }
}

fn provider_label(format: ReplyFormat) -> (r: (&'static str, &'static str))
    ensures
        r.0@ == format_provider(format),
        r.1@ == parse_failure_prefix(format),
{
    match format {
        ReplyFormat::OpenAi => ("openai", "OpenAI parse failed: "),
        ReplyFormat::Anthropic => ("anthropic", "Anthropic parse failed: "),
        ReplyFormat::Ollama => ("ollama", "Ollama parse failed: "),
    }
}

/// The completion a successful reply's body carries, `latency_ms` after the
/// request went out. A body that is no JSON is a `MalformedOutput` of the
/// provider, its detail the parser's message after the provider's prefix;
/// any JSON body is a completion, read at the format's paths, with the parsed
/// body kept as the raw response.
pub fn read_reply(format: ReplyFormat, body: &[u8], latency_ms: u64) -> (r: Result<
    CompletionResponse,
    GcError,
>)
    ensures
        match parsed_json(body@) {
            Some(j) => match r {
                Ok(c) => c.text@ == reply_text(format, j) && c.usage.input_tokens == billed(
                    reply_input(format, j),
                ) && c.usage.output_tokens == billed(reply_output(format, j)) && c.latency_ms
                    == latency_ms && c.raw_provider_response == Some(j),
                Err(_) => false,
            },
            None => match r {
                Err(GcError::MalformedOutput { provider, detail }) => provider@ == format_provider(
                    format,
                ) && parse_failure_prefix(format).is_prefix_of(detail@),
                _ => false,
            },
        },
{
    let (provider, prefix) = provider_label(format);
    match parse_json(body) {
        Ok(j) => {
            let f = reply_fields(format, &j);
            Ok(
                CompletionResponse {
                    text: f.text,
                    usage: f.usage,
                    latency_ms,
                    raw_provider_response: Some(j),
                },
            )
        },
        Err(e) => {
            let mut detail = String::from_str(prefix);
            detail.append(e.as_str());
            Err(GcError::MalformedOutput { provider: String::from_str(provider), detail })
        },
    }
}

} // verus!
