//! The decisions of the OpenAI-compatible HTTP API: bearer authentication,
//! validation of a chat completion request, the conversation handed to the
//! agent, the response bodies and the model listing. The HTTP server itself
//! runs these and serialises what they return.

use vstd::prelude::*;
use crate::clock::now_unix_secs;
use crate::mock::Usage;
use crate::registry::ProviderRegistry;
use crate::session::Message;
use crate::session::MessageRole;
use crate::text::chars_to_string;
use crate::text::contains_seq;
use crate::text::contains_str;
use crate::text::push_str;
use crate::text::str_chars;
use crate::text::str_eq;
use crate::trace::hyphenated_uuid;
use crate::trace::new_uuid_text;

verus! {

/// A message in the chat completion API.
#[derive(Debug)]
pub struct ApiMessage {
    /// Role of the message author (system, user, assistant).
    pub role: String,
    /// Text content of the message.
    pub content: String,
}

/// An error answer: HTTP status and the OpenAI-style error body.
#[derive(Debug)]
pub struct ApiError {
    pub status: u16,
    pub message: String,
    pub error_type: String,
    pub code: Option<String>,
}

/// The assistant message of a completion choice.
#[derive(Debug)]
pub struct ResponseMessage {
    pub role: String,
    pub content: String,
}

/// One completion choice.
#[derive(Debug)]
pub struct Choice {
    pub index: u32,
    pub message: ResponseMessage,
    pub finish_reason: String,
}

/// Token accounting of a completion.
#[derive(Debug)]
pub struct UsageInfo {
    pub prompt_tokens: u64,
    pub completion_tokens: u64,
    pub total_tokens: u64,
}

/// OpenAI-compatible chat completion response.
#[derive(Debug)]
pub struct ChatCompletionResponse {
    pub id: String,
    pub object: String,
    pub created: u64,
    pub model: String,
    pub choices: Vec<Choice>,
    pub usage: UsageInfo,
}

/// An entry of the model listing.
#[derive(Debug)]
pub struct ModelEntry {
    pub id: String,
    pub object: String,
    pub created: u64,
    pub owned_by: String,
}

/// The system prompt used when the configuration sets none.
pub open spec fn default_system_prompt() -> Seq<char> {
    "You are a helpful AI assistant."@
}

// ---------------------------------------------------------------------------
// Authentication
// ---------------------------------------------------------------------------

/// The `Authorization` header's text; a missing header reads as empty.
pub open spec fn header_text(h: Option<Seq<char>>) -> Seq<char> {
    match h {
        Some(t) => t,
        None => Seq::empty(),
    }
}

/// A request passes authentication when no (non-empty) key is configured, or
/// when its `Authorization` header is exactly `Bearer <key>`.
pub open spec fn auth_ok(header: Option<Seq<char>>, key: Option<Seq<char>>) -> bool {
    match key {
        Some(k) => k.len() == 0 || header_text(header) == "Bearer "@ + k,
        None => true,
    }
}

pub open spec fn opt_str(o: Option<&str>) -> Option<Seq<char>> {
    match o {
        Some(s) => Some(s@),
        None => None,
    }
}

pub open spec fn opt_string(o: Option<String>) -> Option<Seq<char>> {
    match o {
        Some(s) => Some(s@),
        None => None,
    }
}

/// The error body answered to a request that fails authentication.
pub open spec fn is_auth_error(e: ApiError) -> bool {
    &&& e.status == 401
    &&& e.message@ == "Invalid or missing API key"@
    &&& e.error_type@ == "authentication_error"@
    &&& opt_string(e.code) == Some("invalid_api_key"@)
}

/// Check the bearer token of a request against the configured key.
pub fn check_auth(authorization: Option<&str>, expected_key: &Option<String>) -> (r: Result<(), ApiError>)
    ensures
        r is Ok <==> auth_ok(opt_str(authorization), opt_string(*expected_key)),
        r matches Err(e) ==> is_auth_error(e),
{
    let key = match expected_key {
        Some(k) => {
            if k.as_str().is_empty() {
                return Ok(());
            }
            k
        },
        None => return Ok(()),
    };
    let header = match authorization {
        Some(h) => h,
        None => "",
    };
    proof {
        reveal_strlit("");
        assert(header@ == header_text(opt_str(authorization)));
    }
    let mut want = str_chars("Bearer ");
    push_str(&mut want, key.as_str());
    let want_text = chars_to_string(&want);
    if str_eq(header, want_text.as_str()) {
        Ok(())
    } else {
        Err(ApiError {
            status: 401,
            message: String::from_str("Invalid or missing API key"),
            error_type: String::from_str("authentication_error"),
            code: Some(String::from_str("invalid_api_key")),
        })
    }
}

// ---------------------------------------------------------------------------
// Request validation
// ---------------------------------------------------------------------------

/// The content of the last message whose role is `user`, or empty text.
pub open spec fn last_user_content(ms: Seq<ApiMessage>) -> Seq<char>
    decreases ms.len(),
{
    if ms.len() == 0 {
        Seq::empty()
    } else if ms.last().role@ == "user"@ {
        ms.last().content@
    } else {
        last_user_content(ms.drop_last())
    }
}

/// The role given to an API message in the conversation.
pub open spec fn conversation_role(role: Seq<char>) -> MessageRole {
    if role == "assistant"@ {
        MessageRole::Assistant
    } else {
        MessageRole::User
    }
}

/// The conversation handed to the agent: every message whose role is not
/// `system`, as (role, content).
pub open spec fn conversation(ms: Seq<ApiMessage>) -> Seq<(MessageRole, Seq<char>)>
    decreases ms.len(),
{
    if ms.len() == 0 {
        Seq::empty()
    } else {
        let rest = conversation(ms.drop_last());
        let m = ms.last();
        if m.role@ == "system"@ {
            rest
        } else {
            rest.push((conversation_role(m.role@), m.content@))
        }
    }
}

/// A plain message of the conversation: no name, tool call or tool call id.
pub open spec fn plain_message(m: Message, role: MessageRole, content: Seq<char>) -> bool {
    &&& m.role == role
    &&& m.content@ == content
    &&& m.name is None
    &&& m.tool_call_id is None
    &&& m.tool_calls is None
}

/// The messages built from the API messages, one for each element of `conversation`.
pub open spec fn messages_match(v: Seq<Message>, c: Seq<(MessageRole, Seq<char>)>) -> bool {
    &&& v.len() == c.len()
    &&& forall|i: int| 0 <= i < v.len() ==> plain_message(#[trigger] v[i], c[i].0, c[i].1)
}

/// An `invalid_request_error` answered with `status`, `message` and `code`.
pub open spec fn is_request_error(e: ApiError, status: u16, message: Seq<char>, code: Option<Seq<char>>) -> bool {
    &&& e.status == status
    &&& e.message@ == message
    &&& e.error_type@ == "invalid_request_error"@
    &&& opt_string(e.code) == code
}

/// The answer to a request for an unknown model.
pub open spec fn not_found_message(model: Seq<char>) -> Seq<char> {
    "Model '"@ + model + "' not found. Check available models at GET /v1/models."@
}

/// The content of the last user message.
pub fn last_user_message(messages: &Vec<ApiMessage>) -> (r: String)
    ensures
        r@ == last_user_content(messages@),
{
    let mut i: usize = messages.len();
    assert(messages@.take(i as int) =~= messages@);
    while i > 0
        invariant
            i <= messages@.len(),
            last_user_content(messages@) == last_user_content(messages@.take(i as int)),
        decreases i,
    {
        let m = &messages[i - 1];
        assert(messages@.take(i as int).drop_last() =~= messages@.take(i - 1));
        if str_eq(m.role.as_str(), "user") {
            return m.content.clone();
        }
        i = i - 1;
    }
    String::new()
}

/// The conversation handed to the agent: system messages are left out,
/// `assistant` stays the assistant's, any other role becomes the user's.
pub fn to_conversation(messages: &Vec<ApiMessage>) -> (v: Vec<Message>)
    ensures
        messages_match(v@, conversation(messages@)),
{
    let mut v: Vec<Message> = Vec::new();
    let mut i: usize = 0;
    while i < messages.len()
        invariant
            i <= messages@.len(),
            messages_match(v@, conversation(messages@.take(i as int))),
        decreases messages.len() - i,
    {
        let m = &messages[i];
        assert(messages@.take(i + 1).drop_last() =~= messages@.take(i as int));
        if !str_eq(m.role.as_str(), "system") {
            let role = if str_eq(m.role.as_str(), "assistant") {
                MessageRole::Assistant
            } else {
                MessageRole::User
            };
            v.push(Message { role, content: m.content.clone(), name: None, tool_call_id: None, tool_calls: None });
        }
        i = i + 1;
    }
    assert(messages@.take(i as int) =~= messages@);
    v
}

/// Validate a chat completion request and give the conversation to run.
/// The model must be non-empty, some user message must have content, and the
/// registry must resolve the model to a provider (by name or default), in
/// that order of checks.
pub fn validate_chat_request<P>(model: &str, messages: &Vec<ApiMessage>, registry: &ProviderRegistry<P>) -> (r: Result<Vec<Message>, ApiError>)
    ensures
        model@.len() == 0 ==> (r matches Err(e) && is_request_error(e, 400, "Model must be a non-empty string"@, None)),
        model@.len() > 0 && last_user_content(messages@).len() == 0 ==> (r matches Err(e) && is_request_error(e, 400, "No user message found in request"@, None)),
        model@.len() > 0 && last_user_content(messages@).len() > 0 && registry.resolve(model@) is None ==> (r matches Err(e) && is_request_error(e, 404, not_found_message(model@), Some("model_not_found"@))),
        model@.len() > 0 && last_user_content(messages@).len() > 0 && registry.resolve(model@) is Some ==> (r matches Ok(v) && messages_match(v@, conversation(messages@))),
{
    if model.is_empty() {
        return Err(ApiError {
            status: 400,
            message: String::from_str("Model must be a non-empty string"),
            error_type: String::from_str("invalid_request_error"),
            code: None,
        });
    }
    let user = last_user_message(messages);
    if user.as_str().is_empty() {
        return Err(ApiError {
            status: 400,
            message: String::from_str("No user message found in request"),
            error_type: String::from_str("invalid_request_error"),
            code: None,
        });
    }
    if registry.get_provider(model).is_none() {
        let mut m = str_chars("Model '");
        push_str(&mut m, model);
        push_str(&mut m, "' not found. Check available models at GET /v1/models.");
        return Err(ApiError {
            status: 404,
            message: chars_to_string(&m),
            error_type: String::from_str("invalid_request_error"),
            code: Some(String::from_str("model_not_found")),
        });
    }
    Ok(to_conversation(messages))
}

/// The system prompt: the configured one, else the default.
pub fn system_prompt_or_default(configured: &Option<String>) -> (s: String)
    ensures
        s@ == match configured {
            Some(p) => p@,
            None => default_system_prompt(),
        },
{
    match configured {
        Some(p) => p.clone(),
        None => String::from_str("You are a helpful AI assistant."),
    }
}

// ---------------------------------------------------------------------------
// Responses
// ---------------------------------------------------------------------------

pub open spec fn count_or_zero(o: Option<u32>) -> u64 {
    match o {
        Some(n) => n as u64,
        None => 0,
    }
}

/// `r` is the completion response of `model` with `content`, usage counts
/// taken from `usage` (missing counts are zero), created at `created`, with
/// the id `chatcmpl-<suffix>`.
pub open spec fn is_completion(r: ChatCompletionResponse, suffix: Seq<char>, created: u64, model: Seq<char>, content: Seq<char>, usage: Usage) -> bool {
    &&& r.id@ == "chatcmpl-"@ + suffix
    &&& r.object@ == "chat.completion"@
    &&& r.created == created
    &&& r.model@ == model
    &&& r.choices@.len() == 1
    &&& r.choices@[0].index == 0
    &&& r.choices@[0].message.role@ == "assistant"@
    &&& r.choices@[0].message.content@ == content
    &&& r.choices@[0].finish_reason@ == "stop"@
    &&& r.usage.prompt_tokens == count_or_zero(usage.prompt_tokens)
    &&& r.usage.completion_tokens == count_or_zero(usage.completion_tokens)
    &&& r.usage.total_tokens == count_or_zero(usage.total_tokens)
}

fn count_u64(o: Option<u32>) -> (n: u64)
    ensures
        n == count_or_zero(o),
{
    match o {
        Some(n) => n as u64,
        None => 0,
    }
}

/// The completion response from its id suffix and creation time.
pub fn completion_response_with(suffix: &str, created: u64, model: &str, content: String, usage: &Usage) -> (r: ChatCompletionResponse)
    ensures
        is_completion(r, suffix@, created, model@, content@, *usage),
{
    let mut id = str_chars("chatcmpl-");
    push_str(&mut id, suffix);
    let ghost c = content@;
    let mut choices: Vec<Choice> = Vec::new();
    choices.push(Choice {
        index: 0,
        message: ResponseMessage { role: String::from_str("assistant"), content },
        finish_reason: String::from_str("stop"),
    });
    ChatCompletionResponse {
        id: chars_to_string(&id),
        object: String::from_str("chat.completion"),
        created,
        model: String::from_str(model),
        choices,
        usage: UsageInfo {
            prompt_tokens: count_u64(usage.prompt_tokens),
            completion_tokens: count_u64(usage.completion_tokens),
            total_tokens: count_u64(usage.total_tokens),
        },
    }
}

/// The completion response of a finished agent run: a fresh random UUID
/// (hyphenated) as the id's suffix, the current time in seconds since the
/// epoch.
pub fn completion_response(model: &str, content: String, usage: &Usage) -> (r: ChatCompletionResponse)
    ensures
        exists|suffix: Seq<char>, created: u64|
            hyphenated_uuid(suffix) && is_completion(r, suffix, created, model@, content@, *usage),
{
    let suffix = new_uuid_text();
    let created = now_unix_secs();
    let r = completion_response_with(suffix.as_str(), created, model, content, usage);
    assert(hyphenated_uuid(suffix@) && is_completion(r, suffix@, created, model@, content@, *usage));
    r
}

/// The answer to a failed agent run: 429 when the error mentions 429, else 500.
pub fn agent_error(message: &str) -> (e: ApiError)
    ensures
        e.status == (if contains_seq(message@, "429"@) {
            429u16
        } else {
            500u16
        }),
        e.message@ == "Agent processing error: "@ + message@,
        e.error_type@ == "server_error"@,
        e.code is None,
{
    let chars = str_chars(message);
    let status: u16 = if contains_str(&chars, "429") {
        429
    } else {
        500
    };
    let mut m = str_chars("Agent processing error: ");
    push_str(&mut m, message);
    ApiError {
        status,
        message: chars_to_string(&m),
        error_type: String::from_str("server_error"),
        code: None,
    }
}

// ---------------------------------------------------------------------------
// Model listing
// ---------------------------------------------------------------------------

/// The listed model ids: every provider name, then the agent's model when it
/// is non-empty and not among them.
pub open spec fn listed_ids(names: Seq<Seq<char>>, agent_model: Seq<char>) -> Seq<Seq<char>> {
    if agent_model.len() > 0 && !names.contains(agent_model) {
        names.push(agent_model)
    } else {
        names
    }
}

pub open spec fn entry_ids(v: Seq<ModelEntry>) -> Seq<Seq<char>> {
    v.map_values(|e: ModelEntry| e.id@)
}

pub open spec fn model_entry_ok(e: ModelEntry) -> bool {
    &&& e.object@ == "model"@
    &&& e.created == 0
    &&& e.owned_by@ == "nanobot-rs"@
}

fn model_entry(id: String) -> (e: ModelEntry)
    ensures
        e.id@ == id@,
        model_entry_ok(e),
{
    ModelEntry {
        id,
        object: String::from_str("model"),
        created: 0,
        owned_by: String::from_str("nanobot-rs"),
    }
}

/// The model listing answered at `/v1/models`.
pub fn list_models(provider_names: &Vec<String>, agent_model: &str) -> (v: Vec<ModelEntry>)
    ensures
        entry_ids(v@) == listed_ids(provider_names@.map_values(|s: String| s@), agent_model@),
        forall|i: int| 0 <= i < v@.len() ==> model_entry_ok(#[trigger] v@[i]),
{
    let ghost names = provider_names@.map_values(|s: String| s@);
    let mut v: Vec<ModelEntry> = Vec::new();
    let mut found = false;
    let mut i: usize = 0;
    while i < provider_names.len()
        invariant
            i <= provider_names@.len(),
            names == provider_names@.map_values(|s: String| s@),
            entry_ids(v@) == names.take(i as int),
            found == names.take(i as int).contains(agent_model@),
            forall|k: int| 0 <= k < v@.len() ==> model_entry_ok(#[trigger] v@[k]),
        decreases provider_names.len() - i,
    {
        let name = &provider_names[i];
        if str_eq(name.as_str(), agent_model) {
            found = true;
            assert(names.take(i + 1)[i as int] == agent_model@);
        }
        let ghost before = v@;
        v.push(model_entry(name.clone()));
        proof {
            assert(v@ == before.push(v@.last()));
            assert(names[i as int] == provider_names@[i as int]@);
            assert(entry_ids(before).len() == i);
            assert(v@[i as int].id@ == names[i as int]);
            assert(entry_ids(v@) =~= names.take(i + 1)) by {
                assert forall|k: int| 0 <= k < i + 1 implies #[trigger] entry_ids(v@)[k] == names.take(i + 1)[k] by {
                    if k < i {
                        assert(entry_ids(before)[k] == names.take(i as int)[k]);
                    }
                }
            }
            assert(names.take(i + 1).drop_last() =~= names.take(i as int));
            if !found {
                assert forall|k: int| 0 <= k < i + 1 implies #[trigger] names.take(i + 1)[k] != agent_model@ by {
                    if k < i {
                        assert(names.take(i as int)[k] == names.take(i + 1)[k]);
                    }
                }
            } else if names.take(i as int).contains(agent_model@) {
                let k = choose|k: int| 0 <= k < i && names.take(i as int)[k] == agent_model@;
                assert(names.take(i + 1)[k] == agent_model@);
            }
        }
        i = i + 1;
    }
    assert(names.take(i as int) =~= names);
    if !agent_model.is_empty() && !found {
        let ghost before = v@;
        v.push(model_entry(String::from_str(agent_model)));
        assert(entry_ids(v@) =~= names.push(agent_model@)) by {
            assert forall|k: int| 0 <= k < names.len() + 1 implies #[trigger] entry_ids(v@)[k] == names.push(agent_model@)[k] by {
                if k < names.len() {
                    assert(entry_ids(before)[k] == names[k]);
                }
            }
        }
    }
    v
}

/// The model listing names each model once, when the provider names do.
pub proof fn law_listed_models_distinct(names: Seq<Seq<char>>, agent_model: Seq<char>)
    requires
        names.no_duplicates(),
    ensures
        listed_ids(names, agent_model).no_duplicates(),
{
    if agent_model.len() > 0 && !names.contains(agent_model) {
        let r = names.push(agent_model);
        assert forall|i: int, j: int| 0 <= i < r.len() && 0 <= j < r.len() && i != j implies r[i] != r[j] by {
            if i == names.len() as int {
                assert(names[j] == r[j]);
            } else if j == names.len() as int {
                assert(names[i] == r[i]);
            }
        }
    }
}

} // verus!
