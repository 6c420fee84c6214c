//! The logic behind the AI proxy's HTTP interface: the cache key of a request,
//! the simulated backend response, and the checks on a registration.
use crate::ai_proxy::{AiServiceEndpoint, text_seq};
use crate::kdf::hex_lower;
use crate::text::{decimal, decimal_string, push_text};
use vstd::prelude::*;

verus! {

/// A message of a conversation.
#[derive(Debug, Clone)]
pub struct Message {
    pub role: String,
    pub content: String,
}

/// Token counts of a response.
#[derive(Debug, Clone, Copy)]
pub struct Usage {
    pub prompt_tokens: u32,
    pub completion_tokens: u32,
    pub total_tokens: u32,
}

/// One choice of a response.
#[derive(Debug, Clone)]
pub struct Choice {
    pub index: u32,
    pub message: Message,
    pub finish_reason: String,
}

/// A response of an AI service.
#[derive(Debug, Clone)]
pub struct AiResponse {
    pub id: String,
    pub model: String,
    pub choices: Vec<Choice>,
    pub usage: Usage,
}

/// The messages as (role, content) texts.
pub open spec fn message_texts(messages: Seq<Message>) -> Seq<(Seq<char>, Seq<char>)> {
    messages.map_values(|m: Message| (m.role@, m.content@))
}

/// The text `format!("{:?}", messages)` writes for a list of messages with
/// these roles and contents (Rust's debug notation).
pub uninterp spec fn messages_debug_text(messages: Seq<(Seq<char>, Seq<char>)>) -> Seq<char>;

/// `format!("{:?}", messages)`: the debug text named above.
#[verifier::external_body]
fn debug_text(messages: &Vec<Message>) -> (s: String)
    ensures
        s@ == messages_debug_text(message_texts(messages@)),
{
    format!("{:?}", messages)
}

/// The MD5 digest (16 bytes) of a byte string.
pub uninterp spec fn md5_digest(data: Seq<u8>) -> Seq<u8>;

/// `format!("{:x}", md5::compute(data))`: the digest named above as 32
/// lowercase hex digits (the crate formats each byte as two digits).
#[verifier::external_body]
fn md5_hex(data: &[u8]) -> (s: String)
    ensures
        s@ == hex_lower(md5_digest(data@)),
{
    format!("{:x}", md5::compute(data))
}

/// The cache key of a request: the MD5 digest, in hex, of the UTF-8 debug text
/// of its messages.
pub open spec fn request_hash_spec(messages: Seq<Message>) -> Seq<char> {
    hex_lower(md5_digest(vstd::utf8::encode_utf8(messages_debug_text(message_texts(messages)))))
}

/// See `request_hash_spec`.
pub fn request_hash(messages: &Vec<Message>) -> (h: String)
    ensures
        h@ == request_hash_spec(messages@),
{
    let text = debug_text(messages);
    md5_hex(text.as_str().as_bytes())
}

/// Byte length of a message's content, truncated to 32 bits.
pub open spec fn content_tokens(m: Message) -> int {
    (vstd::utf8::encode_utf8(m.content@).len() as int) % 0x1_0000_0000
}

/// Sum of the content lengths of the first `n` messages.
pub open spec fn prompt_token_sum(messages: Seq<Message>, n: int) -> int
    decreases n,
{
    if n <= 0 {
        0
    } else {
        prompt_token_sum(messages, n - 1) + content_tokens(messages[n - 1])
    }
}

/// The simulated backend's answer to a request: id "chatcmpl-<n>", the
/// requested model, one assistant message "This is a simulated response from
/// the AI model." that stops, 10 completion tokens, and one prompt token per
/// byte of the messages' contents (each length taken modulo 2^32).
pub fn simulated_response(model: &String, messages: &Vec<Message>, id_number: u64) -> (r: AiResponse)
    requires
        forall|k: int| 0 <= k <= messages@.len() ==> #[trigger] prompt_token_sum(messages@, k) + 10 <= u32::MAX,
    ensures
        r.id@ == "chatcmpl-"@ + decimal(id_number as nat),
        r.model@ == model@,
        r.choices@.len() == 1,
        r.choices@[0].index == 0,
        r.choices@[0].message.role@ == "assistant"@,
        r.choices@[0].message.content@ == "This is a simulated response from the AI model."@,
        r.choices@[0].finish_reason@ == "stop"@,
        r.usage.prompt_tokens == prompt_token_sum(messages@, messages@.len() as int),
        r.usage.completion_tokens == 10,
        r.usage.total_tokens == 10 + prompt_token_sum(messages@, messages@.len() as int),
{
    let mut prompt: u32 = 0;
    let mut i: usize = 0;
    while i < messages.len()
        invariant
            i <= messages@.len(),
            forall|k: int| 0 <= k <= messages@.len() ==> #[trigger] prompt_token_sum(messages@, k) + 10 <= u32::MAX,
            prompt == prompt_token_sum(messages@, i as int),
        decreases messages@.len() - i,
    {
        let len = messages[i].content.as_str().as_bytes().len();
        let l64 = len as u64;
        let t = (l64 % 0x1_0000_0000) as u32;
        proof {
            assert(prompt_token_sum(messages@, i + 1) + 10 <= u32::MAX);
        }
        prompt = prompt + t;
        i = i + 1;
    }
    let mut id = "chatcmpl-".to_owned();
    let n = decimal_string(id_number);
    push_text(&mut id, n.as_str());
    let message = Message {
        role: "assistant".to_owned(),
        content: "This is a simulated response from the AI model.".to_owned(),
    };
    let choice = Choice { index: 0, message, finish_reason: "stop".to_owned() };
    AiResponse {
        id,
        model: model.clone(),
        choices: vec![choice],
        usage: Usage { prompt_tokens: prompt, completion_tokens: 10, total_tokens: 10 + prompt },
    }
}

/// "Missing required fields".
pub open spec fn missing_fields_message() -> Seq<char> {
    "Missing required fields"@
}

/// The endpoint a registration describes; refused when the id, the URL or the
/// model list is empty.
pub fn endpoint_from_fields(id: String, url: String, model_types: Vec<String>) -> (r: Result<AiServiceEndpoint, String>)
    ensures
        (id@.len() == 0 || url@.len() == 0 || model_types@.len() == 0) ==> (r matches Err(m) && m@
            == missing_fields_message()),
        !(id@.len() == 0 || url@.len() == 0 || model_types@.len() == 0) ==> (r matches Ok(e) && e == AiServiceEndpoint::new_spec(
            id,
            url,
            model_types,
        )),
{
    if id.as_str().unicode_len() == 0 || url.as_str().unicode_len() == 0 || model_types.len() == 0 {
        return Err("Missing required fields".to_owned());
    }
    Ok(AiServiceEndpoint::new(id, url, model_types))
}

} // verus!
