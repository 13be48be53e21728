//! The generator's side of the pipeline: how its client is set up, how often
//! it is asked again, and how the matrix is cut out of what it answers.

pub mod prompt;

use vstd::prelude::*;
use crate::assoc::lookup;
use crate::text::{
    chars_of, string_of, slice_chars, trim, trim_chars, find_from, find, rfind, find_chars,
    rfind_chars, concat_strs, append_chars, str_eq,
};
use crate::value::{
    Value, Json, Entry, entries_view, values_view, json_get, get_entry, lemma_view_object,
    lemma_view_array,
};

verus! {

/// The most tokens that a client asks for unless told otherwise.
pub const DEFAULT_MAX_TOKENS: u32 = 1024;

/// How often a generation is attempted.
pub const DEFAULT_MAX_RETRIES: u32 = 3;

/// The delay between two attempts, in milliseconds.
pub const RETRY_DELAY_MS: u64 = 1000;

/// Errors of the generator.
#[derive(Debug, PartialEq)]
pub enum AiError {
    MissingApiKey(String),
    RequestFailed(String),
    InvalidJson(String),
    ApiError(String),
    ParseError(String),
}

impl AiError {
    /// The text of the error.
    pub open spec fn text(&self) -> Seq<char> {
        match self {
            AiError::MissingApiKey(m) => "Missing API key: "@ + m@,
            AiError::RequestFailed(m) => "HTTP request failed: "@ + m@,
            AiError::InvalidJson(m) => "Invalid JSON response: "@ + m@,
            AiError::ApiError(m) => "API error: "@ + m@,
            AiError::ParseError(m) => "Failed to parse matrix: "@ + m@,
        }
    }

    /// The error as one line of text.
    pub fn to_string(&self) -> (r: String)
        ensures
            r@ == self.text(),
    {
        match self {
            AiError::MissingApiKey(m) => concat_strs("Missing API key: ", m.as_str()),
            AiError::RequestFailed(m) => concat_strs("HTTP request failed: ", m.as_str()),
            AiError::InvalidJson(m) => concat_strs("Invalid JSON response: ", m.as_str()),
            AiError::ApiError(m) => concat_strs("API error: ", m.as_str()),
            AiError::ParseError(m) => concat_strs("Failed to parse matrix: ", m.as_str()),
        }
    }
}

/// How a client of the generator is set up.
#[derive(Debug, PartialEq)]
pub struct AiClient {
    api_key: String,
    model: String,
    max_tokens: u32,
}

impl AiClient {
    /// The key that the client holds.
    pub closed spec fn key_text(&self) -> Seq<char> {
        self.api_key@
    }

    /// The model that the client asks.
    pub closed spec fn model_text(&self) -> Seq<char> {
        self.model@
    }

    /// The most tokens that the client asks for.
    pub closed spec fn token_limit(&self) -> u32 {
        self.max_tokens
    }

    /// A client with the given key and the default limit. It names no model
    /// yet: `with_model` does.
    pub fn new(api_key: String) -> (r: Self)
        ensures
            r.key_text() == api_key@,
            r.model_text() == Seq::<char>::empty(),
            r.token_limit() == DEFAULT_MAX_TOKENS,
    {
        AiClient { api_key, model: String::new(), max_tokens: DEFAULT_MAX_TOKENS }
    }

    /// The client, asking another model.
    pub fn with_model(self, model: &str) -> (r: Self)
        ensures
            r.key_text() == self.key_text(),
            r.model_text() == model@,
            r.token_limit() == self.token_limit(),
    {
        let mut r = self;
        r.model = model.to_string();
        r
    }

    /// The client, asking for at most so many tokens.
    pub fn with_max_tokens(self, max_tokens: u32) -> (r: Self)
        ensures
            r.key_text() == self.key_text(),
            r.model_text() == self.model_text(),
            r.token_limit() == max_tokens,
    {
        let mut r = self;
        r.max_tokens = max_tokens;
        r
    }

    /// The key.
    pub fn api_key(&self) -> (r: &str)
        ensures
            r@ == self.key_text(),
    {
        self.api_key.as_str()
    }

    /// The model.
    pub fn model(&self) -> (r: &str)
        ensures
            r@ == self.model_text(),
    {
        self.model.as_str()
    }

    /// The token limit.
    pub fn max_tokens(&self) -> (r: u32)
        ensures
            r == self.token_limit(),
    {
        self.max_tokens
    }
}

impl Clone for AiClient {
    fn clone(&self) -> (r: Self)
        ensures
            r.key_text() == self.key_text(),
            r.model_text() == self.model_text(),
            r.token_limit() == self.token_limit(),
    {
        AiClient {
            api_key: self.api_key.clone(),
            model: self.model.clone(),
            max_tokens: self.max_tokens,
        }
    }
}

/// What to do after an attempt at generation has failed.
#[derive(Debug, Clone, Copy, PartialEq, Eq, Structural)]
pub enum RetryDecision {
    /// Wait so many milliseconds, then try again.
    RetryAfter(u64),
    /// Give up with the last error.
    GiveUp,
}

/// After the failure of attempt number `attempt`, counted from one: try
/// again after the fixed delay while attempts are left, else give up.
pub fn after_failed_attempt(attempt: u32) -> (r: RetryDecision)
    ensures
        r == if attempt < DEFAULT_MAX_RETRIES {
            RetryDecision::RetryAfter(RETRY_DELAY_MS)
        } else {
            RetryDecision::GiveUp
        },
{
    if attempt < DEFAULT_MAX_RETRIES {
        RetryDecision::RetryAfter(RETRY_DELAY_MS)
    } else {
        RetryDecision::GiveUp
    }
}

/// The opening fence of a block of JSON.
pub open spec fn json_fence() -> Seq<char> {
    seq!['`', '`', '`', 'j', 's', 'o', 'n']
}

/// A fence.
pub open spec fn fence() -> Seq<char> {
    seq!['`', '`', '`']
}

/// A fence at the end of a line.
pub open spec fn fence_line() -> Seq<char> {
    seq!['`', '`', '`', '\n']
}

/// The inside of a block that opens with a JSON fence at `start`: up to the
/// first fence that ends a line, or else up to the last fence; trimmed. None
/// where no fence closes the block behind its opening.
pub open spec fn json_block(text: Seq<char>, start: int) -> Option<Seq<char>> {
    let rest = text.subrange(start, text.len() as int);
    let end = match find(rest, fence_line()) {
        Some(e) => Some(e),
        None => rfind(rest, fence()),
    };
    match end {
        Some(e) => if 7 < e {
            Some(trim(text.subrange(start + 7, start + e)))
        } else {
            None
        },
        None => None,
    }
}

/// The inside of a block that opens with a fence at `start`: from the line
/// after the fence, or from right behind it where the text has no further
/// line, up to the next fence; trimmed.
pub open spec fn plain_block(text: Seq<char>, start: int) -> Option<Seq<char>> {
    let after = start + 3;
    let content_start = match find_from(text, seq!['\n'], after) {
        Some(i) => i + 1,
        None => after,
    };
    match find_from(text, fence(), content_start) {
        Some(e) => Some(trim(text.subrange(content_start, e))),
        None => None,
    }
}

/// From the first opening brace to the last closing one.
pub open spec fn braces(text: Seq<char>) -> Option<Seq<char>> {
    match (find(text, seq!['{']), rfind(text, seq!['}'])) {
        (Some(s), Some(e)) => if s < e {
            Some(text.subrange(s, e + 1))
        } else {
            None
        },
        _ => None,
    }
}

/// The first of two options that holds something.
pub open spec fn or_else<T>(a: Option<T>, b: Option<T>) -> Option<T> {
    match a {
        Some(x) => Some(x),
        None => b,
    }
}

/// The JSON in an answer: the inside of a fenced JSON block, else of any
/// fenced block, else what stands between the outermost braces, else the
/// answer as it is.
pub open spec fn extracted_json(text: Seq<char>) -> Seq<char> {
    let fenced = match find(text, json_fence()) {
        Some(start) => json_block(text, start),
        None => None,
    };
    let plain = match find(text, fence()) {
        Some(start) => plain_block(text, start),
        None => None,
    };
    match or_else(or_else(fenced, plain), braces(text)) {
        Some(json) => json,
        None => text,
    }
}

fn fence_chars() -> (r: Vec<char>)
    ensures
        r@ == fence(),
{
    let mut v: Vec<char> = Vec::new();
    v.push('`');
    v.push('`');
    v.push('`');
    assert(v@ =~= fence());
    v
}

fn one_char(c: char) -> (r: Vec<char>)
    ensures
        r@ == seq![c],
{
    let mut v: Vec<char> = Vec::new();
    v.push(c);
    assert(v@ =~= seq![c]);
    v
}

/// Extract the JSON from an answer that may wrap it in a fenced block.
pub fn extract_json(text: &str) -> (r: String)
    ensures
        r@ == extracted_json(text@),
{
    let chars = chars_of(text);
    let n = chars.len();
    let fence3 = fence_chars();
    let mut fence_json = fence_chars();
    fence_json.push('j');
    fence_json.push('s');
    fence_json.push('o');
    fence_json.push('n');
    assert(fence_json@ =~= json_fence());
    let mut fence_nl = fence_chars();
    fence_nl.push('\n');
    assert(fence_nl@ =~= fence_line());
    let newline = one_char('\n');

    match find_chars(&chars, &fence_json, 0) {
        Some(start) => {
            let rest = slice_chars(&chars, start, n);
            let end = match find_chars(&rest, &fence_nl, 0) {
                Some(e) => Some(e),
                None => rfind_chars(&rest, &fence3),
            };
            match end {
                Some(e) => {
                    if 7 < e {
                        let inner = slice_chars(&chars, start + 7, start + e);
                        return string_of(&trim_chars(&inner));
                    }
                },
                None => {},
            }
        },
        None => {},
    }
    match find_chars(&chars, &fence3, 0) {
        Some(start) => {
            let after = start + 3;
            let content_start = match find_chars(&chars, &newline, after) {
                Some(i) => i + 1,
                None => after,
            };
            match find_chars(&chars, &fence3, content_start) {
                Some(e) => {
                    let inner = slice_chars(&chars, content_start, e);
                    return string_of(&trim_chars(&inner));
                },
                None => {},
            }
        },
        None => {},
    }
    let open = one_char('{');
    let close = one_char('}');
    match find_chars(&chars, &open, 0) {
        Some(s) => match rfind_chars(&chars, &close) {
            Some(e) => {
                if s < e {
                    return string_of(&slice_chars(&chars, s, e + 1));
                }
            },
            None => {},
        },
        None => {},
    }
    string_of(&chars)
}

/// The body of a request for a matrix: the model, the token limit, a
/// temperature of zero, the system prompt and the messages.
pub open spec fn request_json(
    model: Seq<char>,
    max_tokens: u32,
    system: Seq<char>,
    messages: Seq<Json>,
) -> Json {
    Json::Object(
        seq![
            ("model"@, Json::String(model)),
            ("max_tokens"@, Json::Number(max_tokens as int)),
            ("temperature"@, Json::Number(0)),
            ("system"@, Json::String(system)),
            ("messages"@, Json::Array(messages)),
        ],
    )
}

/// The body of a request for a matrix.
pub fn request_body(client: &AiClient, system: &str, messages: Vec<Value>) -> (r: Value)
    ensures
        r@ == request_json(
            client.model_text(),
            client.token_limit(),
            system@,
            values_view(messages@),
        ),
{
    let mut fields: Vec<Entry> = Vec::new();
    fields.push(Entry { key: "model".to_string(), value: Value::text(client.model()) });
    fields.push(
        Entry { key: "max_tokens".to_string(), value: Value::Number(client.max_tokens() as i64) },
    );
    fields.push(Entry { key: "temperature".to_string(), value: Value::Number(0) });
    fields.push(Entry { key: "system".to_string(), value: Value::text(system) });
    proof {
        lemma_view_array(messages);
    }
    fields.push(Entry { key: "messages".to_string(), value: Value::Array(messages) });
    proof {
        lemma_view_object(fields);
        assert(entries_view(fields@) =~= request_json(
            client.model_text(),
            client.token_limit(),
            system@,
            values_view(messages@),
        )->Object_0);
    }
    Value::Object(fields)
}

/// What is wrong with an answer, if anything.
pub enum AnswerFault {
    /// The answer is not of the form that answers have.
    Malformed,
    /// The answer holds no text.
    Empty,
}

/// The text of one block of an answer: its text where the block is of the
/// kind `text`, nothing where it is of another kind.
pub open spec fn block_text(block: Json) -> Result<Seq<char>, AnswerFault> {
    match block {
        Json::Object(fields) => match lookup(fields, "type"@) {
            Some(Json::String(kind)) => match lookup(fields, "text"@) {
                None => Ok(Seq::empty()),
                Some(Json::String(t)) => if kind == "text"@ {
                    Ok(t)
                } else {
                    Ok(Seq::empty())
                },
                Some(_) => Err(AnswerFault::Malformed),
            },
            _ => Err(AnswerFault::Malformed),
        },
        _ => Err(AnswerFault::Malformed),
    }
}

/// The texts of the first `n` blocks, put together.
pub open spec fn blocks_text(blocks: Seq<Json>, n: int) -> Result<Seq<char>, AnswerFault>
    decreases n,
{
    if n <= 0 || n > blocks.len() {
        Ok(Seq::empty())
    } else {
        match blocks_text(blocks, n - 1) {
            Err(e) => Err(e),
            Ok(head) => match block_text(blocks[n - 1]) {
                Ok(t) => Ok(head + t),
                Err(e) => Err(e),
            },
        }
    }
}

/// The text of an answer: the texts of its blocks of the kind `text`, put
/// together. An answer without any text is a fault.
pub open spec fn answer_of(body: Json) -> Result<Seq<char>, AnswerFault> {
    match json_get(body, "content"@) {
        Some(Json::Array(blocks)) => match blocks_text(blocks, blocks.len() as int) {
            Err(e) => Err(e),
            Ok(t) => if t.len() == 0 {
                Err(AnswerFault::Empty)
            } else {
                Ok(t)
            },
        },
        _ => Err(AnswerFault::Malformed),
    }
}

/// The message for an answer that holds no text.
pub const EMPTY_RESPONSE: &'static str = "Empty response";

/// The message for an answer of another form.
pub const MALFORMED_RESPONSE: &'static str = "unexpected form of the response";

/// A fault among the first blocks is the fault of the whole answer.
pub proof fn lemma_blocks_fault_stays(blocks: Seq<Json>, n: int, m: int)
    requires
        0 <= n <= m <= blocks.len(),
        blocks_text(blocks, n) is Err,
    ensures
        blocks_text(blocks, m) == blocks_text(blocks, n),
    decreases m - n,
{
    if n < m {
        lemma_blocks_fault_stays(blocks, n, m - 1);
    }
}

fn text_of_block(block: &Value) -> (r: Option<String>)
    ensures
        match r {
            Some(t) => block_text(block@) == Ok::<Seq<char>, AnswerFault>(t@),
            None => block_text(block@) is Err,
        },
{
    let fields = match block.as_object() {
        Some(f) => f,
        None => {
            return None;
        },
    };
    let kind = match get_entry(fields, "type") {
        Some(k) => match k.as_str() {
            Some(s) => s,
            None => {
                return None;
            },
        },
        None => {
            return None;
        },
    };
    match get_entry(fields, "text") {
        None => Some(String::new()),
        Some(t) => match t.as_str() {
            Some(s) => if str_eq(kind, "text") {
                Some(s.to_string())
            } else {
                Some(String::new())
            },
            None => None,
        },
    }
}

/// The text of an answer.
pub fn answer_text(body: &Value) -> (r: Result<String, AiError>)
    ensures
        match r {
            Ok(t) => answer_of(body@) == Ok::<Seq<char>, AnswerFault>(t@),
            Err(e) => answer_of(body@) is Err && (match answer_of(body@)->Err_0 {
                AnswerFault::Empty => e matches AiError::InvalidJson(m) && m@ == EMPTY_RESPONSE@,
                AnswerFault::Malformed => e matches AiError::InvalidJson(m) && m@
                    == MALFORMED_RESPONSE@,
            }),
        },
{
    let blocks = match body.get("content") {
        Some(c) => match c.as_array() {
            Some(b) => b,
            None => {
                return Err(AiError::InvalidJson(MALFORMED_RESPONSE.to_string()));
            },
        },
        None => {
            return Err(AiError::InvalidJson(MALFORMED_RESPONSE.to_string()));
        },
    };
    let ghost js = values_view(blocks@);
    let mut out: Vec<char> = Vec::new();
    let mut i: usize = 0;
    while i < blocks.len()
        invariant
            i <= blocks.len(),
            js == values_view(blocks@),
            json_get(body@, "content"@) == Some(Json::Array(js)),
            blocks_text(js, i as int) == Ok::<Seq<char>, AnswerFault>(out@),
        decreases blocks.len() - i,
    {
        assert(js[i as int] == blocks@[i as int]@);
        match text_of_block(&blocks[i]) {
            Some(t) => {
                append_chars(&mut out, &chars_of(t.as_str()));
            },
            None => {
                proof {
                    lemma_blocks_fault_stays(js, i + 1, blocks@.len() as int);
                }
                return Err(AiError::InvalidJson(MALFORMED_RESPONSE.to_string()));
            },
        }
        i += 1;
    }
    if out.len() == 0 {
        return Err(AiError::InvalidJson(EMPTY_RESPONSE.to_string()));
    }
    Ok(string_of(&out))
}

/// What a failure of the service says of itself: the message under `error`,
/// if the body holds one.
pub open spec fn failure_message(body: Option<Json>) -> Option<Seq<char>> {
    match body {
        Some(b) => match json_get(b, "error"@) {
            Some(e) => match json_get(e, "message"@) {
                Some(Json::String(m)) => Some(m),
                _ => None,
            },
            None => None,
        },
        None => None,
    }
}

/// The text of the error for a failure of the service: what the service
/// says of itself, or else the status and the body.
pub open spec fn failure_text(status: Seq<char>, body_text: Seq<char>, body: Option<Json>) -> Seq<
    char,
> {
    match failure_message(body) {
        Some(m) => m,
        None => "HTTP "@ + status + ": "@ + body_text,
    }
}

/// The content of a body, if there is one.
pub open spec fn option_body(o: Option<&Value>) -> Option<Json> {
    match o {
        Some(v) => Some(v@),
        None => None,
    }
}

/// The error for a failure of the service, given its status, its body as
/// text, and the body as a value where it is one.
pub fn api_failure(status: &str, body_text: &str, body: Option<&Value>) -> (r: AiError)
    ensures
        r matches AiError::ApiError(m) && m@ == failure_text(
            status@,
            body_text@,
            option_body(body),
        ),
{
    let message: Option<String> = match body {
        Some(b) => match b.get("error") {
            Some(e) => match e.get("message") {
                Some(m) => match m.as_str() {
                    Some(s) => Some(s.to_string()),
                    None => None,
                },
                None => None,
            },
            None => None,
        },
        None => None,
    };
    match message {
        Some(m) => AiError::ApiError(m),
        None => {
            let a = concat_strs("HTTP ", status);
            let b = concat_strs(a.as_str(), ": ");
            AiError::ApiError(concat_strs(b.as_str(), body_text))
        },
    }
}

} // verus!
