use kestrel::api::{
    agent_error, check_auth, completion_response, completion_response_with, last_user_message,
    list_models, system_prompt_or_default, to_conversation, validate_chat_request, ApiMessage,
};
use kestrel::mock::Usage;
use kestrel::registry::ProviderRegistry;
use kestrel::session::MessageRole;

fn msg(role: &str, content: &str) -> ApiMessage {
    ApiMessage { role: role.to_string(), content: content.to_string() }
}

fn registry_with_mock(default: bool) -> ProviderRegistry<&'static str> {
    let mut reg = ProviderRegistry::new();
    reg.register("mock", "mock-provider");
    if default {
        reg.set_default("mock");
    }
    reg
}

#[test]
fn test_chat_completions_no_user_message() {
    let reg = registry_with_mock(true);
    let e = validate_chat_request("test-model", &vec![msg("system", "You are helpful")], &reg).unwrap_err();
    assert_eq!(e.status, 400);
    assert!(e.message.contains("No user message"));
}

#[test]
fn test_chat_completions_empty_model() {
    let reg = registry_with_mock(true);
    let e = validate_chat_request("", &vec![msg("user", "Hi")], &reg).unwrap_err();
    assert_eq!(e.status, 400);
    assert_eq!(e.message, "Model must be a non-empty string");
}

#[test]
fn test_chat_completions_model_not_found() {
    let reg = registry_with_mock(false);
    let e = validate_chat_request("nonexistent-model", &vec![msg("user", "Hi")], &reg).unwrap_err();
    assert_eq!(e.status, 404);
    assert!(e.message.contains("not found"));
    assert_eq!(e.code.as_deref(), Some("model_not_found"));
}

#[test]
fn test_chat_completions_no_provider() {
    let reg: ProviderRegistry<&str> = ProviderRegistry::new();
    let e = validate_chat_request("test-model", &vec![msg("user", "Hello")], &reg).unwrap_err();
    assert!(e.status == 404 || e.status == 500);
}

#[test]
fn validated_request_gives_conversation() {
    let reg = registry_with_mock(true);
    let msgs = vec![msg("system", "You are helpful"), msg("user", "Hello"), msg("assistant", "Hi"), msg("tool", "x")];
    let conv = validate_chat_request("mock-model", &msgs, &reg).unwrap();
    assert_eq!(conv.len(), 3);
    assert_eq!(conv[0].role, MessageRole::User);
    assert_eq!(conv[1].role, MessageRole::Assistant);
    assert_eq!(conv[2].role, MessageRole::User);
    assert_eq!(conv[2].content, "x");
    assert_eq!(to_conversation(&msgs).len(), 3);
}

#[test]
fn last_user_message_is_latest() {
    let msgs = vec![msg("user", "a"), msg("assistant", "b"), msg("user", "c"), msg("assistant", "d")];
    assert_eq!(last_user_message(&msgs), "c");
    assert_eq!(last_user_message(&vec![]), "");
}

#[test]
fn test_auth_missing_key() {
    let e = check_auth(None, &Some("sk-secret".to_string())).unwrap_err();
    assert_eq!(e.status, 401);
    assert_eq!(e.code.as_deref(), Some("invalid_api_key"));
}

#[test]
fn test_auth_wrong_key() {
    assert!(check_auth(Some("Bearer wrong-key"), &Some("sk-secret".to_string())).is_err());
}

#[test]
fn test_auth_valid_key() {
    assert!(check_auth(Some("Bearer sk-secret"), &Some("sk-secret".to_string())).is_ok());
}

#[test]
fn auth_not_configured_passes() {
    assert!(check_auth(None, &None).is_ok());
    assert!(check_auth(Some("anything"), &Some(String::new())).is_ok());
}

#[test]
fn test_chat_completions_success() {
    let usage = Usage { prompt_tokens: Some(5), completion_tokens: Some(3), total_tokens: Some(8) };
    let r = completion_response_with("abc", 42, "mock-model", "Mock response".to_string(), &usage);
    assert_eq!(r.id, "chatcmpl-abc");
    assert_eq!(r.object, "chat.completion");
    assert_eq!(r.created, 42);
    assert_eq!(r.model, "mock-model");
    assert_eq!(r.choices.len(), 1);
    assert_eq!(r.choices[0].message.role, "assistant");
    assert_eq!(r.choices[0].message.content, "Mock response");
    assert_eq!(r.choices[0].finish_reason, "stop");
    assert_eq!(r.usage.prompt_tokens, 5);
    assert_eq!(r.usage.completion_tokens, 3);
    assert_eq!(r.usage.total_tokens, 8);
    let fresh = completion_response("m", "x".to_string(), &Usage { prompt_tokens: None, completion_tokens: None, total_tokens: None });
    assert!(fresh.id.starts_with("chatcmpl-"));
    assert_eq!(fresh.id.len(), "chatcmpl-".len() + 36);
    assert_eq!(fresh.usage.total_tokens, 0);
}

#[test]
fn agent_errors_map_status() {
    let e = agent_error("API error (429): slow");
    assert_eq!(e.status, 429);
    assert_eq!(e.message, "Agent processing error: API error (429): slow");
    assert_eq!(e.error_type, "server_error");
    assert_eq!(agent_error("boom").status, 500);
}

#[test]
fn test_models_lists_registered_providers() {
    let names = vec!["mock".to_string()];
    let models = list_models(&names, "mock-model");
    let ids: Vec<&str> = models.iter().map(|m| m.id.as_str()).collect();
    assert_eq!(ids, vec!["mock", "mock-model"]);
    assert!(models.iter().all(|m| m.object == "model" && m.owned_by == "nanobot-rs" && m.created == 0));
    assert_eq!(list_models(&names, "mock").len(), 1);
    assert_eq!(list_models(&names, "").len(), 1);
}

#[test]
fn system_prompt_default() {
    assert_eq!(system_prompt_or_default(&None), "You are a helpful AI assistant.");
    assert_eq!(system_prompt_or_default(&Some("Be brief".into())), "Be brief");
}

#[test]
fn test_models_endpoint_basic() {
    let models = list_models(&vec![], "gpt-4o");
    assert_eq!(models.len(), 1);
    assert_eq!(models[0].id, "gpt-4o");
    assert!(list_models(&vec![], "").is_empty());
}
