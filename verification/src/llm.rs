//! Framing of the chat-completion exchange that parses intents remotely.
//!
//! The request is the system prompt, the conversation so far and the new
//! sentence; the reply's first choice holds the intent as JSON, possibly
//! wrapped in a markdown code fence. Sending and JSON decoding are done by
//! the caller; the decisions around them are here.
use vstd::prelude::*;
use crate::text::{
    append_chars, append_str, chars_of, owned, string_of, trim, trim_chars, trim_end_matches,
    trim_end_matches_str, trim_start_matches, trim_start_matches_str,
};
use crate::num::{decimal, decimal_u64};
use crate::intent::{IntentResult, ParsedIntent, result_of};
use crate::parse::make_result;

verus! {

broadcast use vstd::string::group_string_axioms;

/// Why a remote parse failed.
#[derive(Debug)]
pub enum IntentError {
    /// The request could not be sent or the reply not read.
    Network(String),
    /// A body could not be encoded or decoded.
    Serialization(String),
    /// The service answered with an error.
    LlmApi(String),
}

/// The message shown for an error.
pub open spec fn error_text(e: IntentError) -> Seq<char> {
    match e {
        IntentError::Network(m) => "网络错误: "@ + m@,
        IntentError::Serialization(m) => "解析错误: "@ + m@,
        IntentError::LlmApi(m) => "AI 服务错误: "@ + m@,
    }
}

impl IntentError {
    /// The message shown for this error.
    pub fn message(&self) -> (r: String)
        ensures
            r@ == error_text(*self),
    {
        let mut v: Vec<char> = Vec::new();
        match self {
            IntentError::Network(m) => {
                append_str(&mut v, "网络错误: ");
                append_str(&mut v, m.as_str());
            },
            IntentError::Serialization(m) => {
                append_str(&mut v, "解析错误: ");
                append_str(&mut v, m.as_str());
            },
            IntentError::LlmApi(m) => {
                append_str(&mut v, "AI 服务错误: ");
                append_str(&mut v, m.as_str());
            },
        }
        string_of(&v)
    }
}

/// Where the chat-completion service is and which model it runs.
#[derive(Clone, Debug)]
pub struct LlmConfig {
    /// Base URL, such as "http://localhost:11434/v1".
    pub api_base: String,
    /// Key sent as a bearer token, when there is one.
    pub api_key: Option<String>,
    /// Model name.
    pub model: String,
}

impl Default for LlmConfig {
    fn default() -> (r: LlmConfig)
        ensures
            r.api_base@ == "http://localhost:11434/v1"@,
            r.api_key is None,
            r.model@ == "qwen2:1.5b-instruct"@,
    {
        LlmConfig {
            api_base: owned("http://localhost:11434/v1"),
            api_key: None,
            model: owned("qwen2:1.5b-instruct"),
        }
    }
}

/// One message of a chat-completion request.
#[derive(Clone, Debug)]
pub struct LlmMessage {
    pub role: String,
    pub content: String,
}

/// The system prompt that asks the model for an intent as JSON.
pub const INTENT_SYSTEM_PROMPT: &'static str = "你是一个企业组织管理系统的意图解析引擎。你的任务是将用户的自然语言输入解析为结构化意图。\n\n支持的操作类型：\n1. **员工调岗** (transfer)：将员工从一个部门调到另一个部门\n2. **新建部门** (create_department)：创建新的部门/团队\n3. **搜索** (search)：搜索员工、部门信息\n4. **取消** (cancel)：取消当前操作\n5. **未知** (unknown)：无法识别的输入\n\n你必须返回严格的 JSON 格式（不要 markdown 代码块），格式如下：\n\n调岗：\n{\"type\":\"transfer\",\"employee_name\":\"张三\",\"from_department\":\"市场部\",\"to_department\":\"产品部\"}\n缺少信息时对应字段设为 null。\n\n新建部门：\n{\"type\":\"create_department\",\"department_name\":\"AI实验室\",\"parent_department\":\"技术中心\"}\n缺少信息时对应字段设为 null。\n\n搜索：\n{\"type\":\"search\",\"keyword\":\"张三\",\"scope\":\"employee\"}\nscope 可选值：employee, department, all\n\n取消：\n{\"type\":\"cancel\"}\n\n无法识别：\n{\"type\":\"unknown\",\"message\":\"用户原始输入\"}\n\n只返回 JSON，不要任何其他文字。如果用户提供了多轮对话上下文，合并之前的信息来补全缺失字段。";

/// The endpoint for chat completions under `api_base`: the base without
/// trailing '/' followed by "/chat/completions".
pub fn chat_completions_url(api_base: &str) -> (r: String)
    ensures
        r@ == trim_end_matches(api_base@, seq!['/']) + "/chat/completions"@,
{
    let b = chars_of(api_base);
    let mut slash: Vec<char> = Vec::new();
    slash.push('/');
    assert(slash@ =~= seq!['/']);
    let mut v = crate::text::trim_end_matches_chars(&b, &slash);
    append_str(&mut v, "/chat/completions");
    string_of(&v)
}

/// The messages of a request: the system prompt, then `history` as
/// (role, content) pairs, then the user's `input`.
pub fn chat_messages(history: &Vec<(String, String)>, input: &str) -> (r: Vec<LlmMessage>)
    ensures
        r.len() == history.len() + 2,
        r[0].role@ == "system"@,
        r[0].content@ == INTENT_SYSTEM_PROMPT@,
        forall|i: int|
            0 <= i < history.len() ==> #[trigger] r[i + 1].role@ == history[i].0@ && r[i
                + 1].content@ == history[i].1@,
        r[r.len() - 1].role@ == "user"@,
        r[r.len() - 1].content@ == input@,
{
    let mut r: Vec<LlmMessage> = Vec::new();
    r.push(LlmMessage { role: owned("system"), content: owned(INTENT_SYSTEM_PROMPT) });
    let mut i: usize = 0;
    while i < history.len()
        invariant
            i <= history.len(),
            r.len() == i + 1,
            r[0].role@ == "system"@,
            r[0].content@ == INTENT_SYSTEM_PROMPT@,
            forall|k: int|
                0 <= k < i ==> #[trigger] r[k + 1].role@ == history[k].0@ && r[k + 1].content@
                    == history[k].1@,
        decreases history.len() - i,
    {
        let (role, content) = &history[i];
        r.push(LlmMessage { role: role.clone(), content: content.clone() });
        i = i + 1;
    }
    r.push(LlmMessage { role: owned("user"), content: owned(input) });
    r
}

/// The authorization header value for `api_key`: "Bearer " and the key.
pub fn bearer_header(api_key: &Option<String>) -> (r: Option<String>)
    ensures
        match api_key {
            Some(k) => r matches Some(h) && h@ == "Bearer "@ + k@,
            None => r is None,
        },
{
    match api_key {
        Some(k) => {
            let mut v = chars_of("Bearer ");
            append_str(&mut v, k.as_str());
            Some(string_of(&v))
        },
        None => None,
    }
}

/// Whether an HTTP status is a success (200 to 299).
pub fn llm_status_ok(status: u16) -> (r: bool)
    ensures
        r == (200 <= status < 300),
{
    200 <= status && status < 300
}

/// The error for a failed HTTP status: "HTTP {status}: {body}".
pub fn llm_status_error(status: u16, body: &str) -> (r: IntentError)
    ensures
        r matches IntentError::LlmApi(m) && m@ == "HTTP "@ + decimal(status as nat) + ": "@ + body@,
{
    let mut v = chars_of("HTTP ");
    let d = decimal_u64(status as u64);
    append_chars(&mut v, &d);
    append_str(&mut v, ": ");
    append_str(&mut v, body);
    IntentError::LlmApi(string_of(&v))
}

/// The content of the first choice of a reply, or the error for a reply without choices.
pub fn first_choice(contents: Vec<String>) -> (r: Result<String, IntentError>)
    ensures
        contents.len() > 0 ==> (r matches Ok(c) && c@ == contents[0]@),
        contents.len() == 0 ==> (r matches Err(IntentError::LlmApi(m)) && m@
            == "No choices in response"@),
{
    if contents.len() > 0 {
        Ok(contents[0].clone())
    } else {
        Err(IntentError::LlmApi(owned("No choices in response")))
    }
}

/// The JSON text of a reply without surrounding white space and without a
/// markdown code fence ("```json" or "```" before, "```" after).
pub open spec fn cleaned_json(s: Seq<char>) -> Seq<char> {
    trim(
        trim_end_matches(
            trim_start_matches(trim_start_matches(trim(s), "```json"@), "```"@),
            "```"@,
        ),
    )
}

/// Removes the white space and code fence around a reply's JSON.
pub fn clean_llm_json(json_str: &str) -> (r: String)
    ensures
        r@ == cleaned_json(json_str@),
{
    let s = chars_of(json_str);
    let a = trim_chars(&s);
    let b = trim_start_matches_str(&a, "```json");
    let c = trim_start_matches_str(&b, "```");
    let d = trim_end_matches_str(&c, "```");
    let e = trim_chars(&d);
    string_of(&e)
}

/// The result for an intent decoded from a reply: confidence 95 when
/// nothing is missing, 75 otherwise.
pub fn llm_intent_result(intent: ParsedIntent) -> (r: IntentResult)
    ensures
        r@ == result_of(intent@, 95, 75),
{
    make_result(intent, 95, 75)
}

/// The error for a reply whose JSON is not an intent:
/// "Invalid intent JSON: {reason}\nRaw: {cleaned}".
pub fn invalid_intent_json(reason: &str, cleaned: &str) -> (r: IntentError)
    ensures
        r matches IntentError::Serialization(m) && m@ == "Invalid intent JSON: "@ + reason@
            + "\nRaw: "@ + cleaned@,
{
    let mut v = chars_of("Invalid intent JSON: ");
    append_str(&mut v, reason);
    append_str(&mut v, "\nRaw: ");
    append_str(&mut v, cleaned);
    IntentError::Serialization(string_of(&v))
}

/// The error for a reply body that is not a chat-completion response:
/// "Failed to parse LLM response: {reason}".
pub fn unreadable_reply(reason: &str) -> (r: IntentError)
    ensures
        r matches IntentError::Serialization(m) && m@ == "Failed to parse LLM response: "@
            + reason@,
{
    let mut v = chars_of("Failed to parse LLM response: ");
    append_str(&mut v, reason);
    IntentError::Serialization(string_of(&v))
}

} // verus!
