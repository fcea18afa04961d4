use oai_gemini::envelope::transform_openai_request;
use oai_gemini::json::JsonValue;
use oai_gemini::request::{OpenAIMessage, OpenAIRequest, ResolvedConfig};

fn plain_config() -> ResolvedConfig {
    ResolvedConfig {
        final_model: "gemini-1.5-pro-latest".to_string(),
        request_type: "generate".to_string(),
        inject_google_search: false,
        image_config: None,
    }
}

fn user_message(text: &str) -> OpenAIMessage {
    OpenAIMessage {
        role: "user".to_string(),
        content: Some(JsonValue::Text(text.to_string())),
        tool_calls: None,
        tool_call_id: None,
        name: None,
    }
}

fn simple_request(messages: Vec<OpenAIMessage>) -> OpenAIRequest {
    OpenAIRequest {
        model: "gpt-4".to_string(),
        messages,
        tools: None,
        max_tokens: None,
        temperature: None,
        top_p: None,
        stream: false,
    }
}

fn get<'a>(v: &'a JsonValue, key: &str) -> &'a JsonValue {
    v.obj_get(key).expect("missing key")
}

fn text_of(v: &JsonValue) -> &str {
    v.as_text().expect("not a text").as_str()
}

fn elems(v: &JsonValue) -> &Vec<JsonValue> {
    match v {
        JsonValue::Arr(a) => a,
        _ => panic!("not an array"),
    }
}

const REMINDER: &str = "\n\n(SYSTEM REMINDER: You MUST use the 'shell' tool to perform this action. Do not simply state it is done.)";

#[test]
fn test_transform_openai_request() {
    let req = simple_request(vec![user_message("Hello")]);
    let result = transform_openai_request(&req, "test-project", "gemini-1.5-pro-latest", &plain_config(), &None);
    assert_eq!(text_of(get(&result, "project")), "test-project");
    assert!(text_of(get(&result, "requestId")).starts_with("openai-"));
}

#[test]
fn end_to_end_single_user_message() {
    let req = simple_request(vec![user_message("Hello")]);
    let result = transform_openai_request(&req, "p", "gemini-1.5-pro-latest", &plain_config(), &None);
    let inner = get(&result, "request");
    let contents = elems(get(inner, "contents"));
    assert_eq!(contents.len(), 1);
    assert_eq!(text_of(get(&contents[0], "role")), "user");
    let parts = elems(get(&contents[0], "parts"));
    assert_eq!(parts.len(), 1);
    assert_eq!(text_of(get(&parts[0], "text")), format!("Hello{}", REMINDER));
    assert!(inner.obj_get("systemInstruction").is_none());
    assert!(inner.obj_get("tools").is_none());
    let rid = text_of(get(&result, "requestId"));
    assert!(rid.starts_with("openai-"));
    assert_eq!(rid.len(), "openai-".len() + 36);
    assert_eq!(rid.as_bytes()[7 + 8], b'-');
    assert_eq!(text_of(get(&result, "userAgent")), "antigravity-openai");
    assert_eq!(text_of(get(&result, "model")), "gemini-1.5-pro-latest");
    assert_eq!(text_of(get(&result, "requestType")), "generate");
}

#[test]
fn role_mapping_is_total() {
    let roles = ["user", "assistant", "tool", "function", "weird-role"];
    for role in roles {
        let msg = OpenAIMessage {
            role: role.to_string(),
            content: Some(JsonValue::Text("hi".to_string())),
            tool_calls: None,
            tool_call_id: Some("x1".to_string()),
            name: Some("f".to_string()),
        };
        let req = simple_request(vec![msg]);
        let result = transform_openai_request(&req, "p", "m", &plain_config(), &None);
        let contents = elems(get(get(&result, "request"), "contents"));
        assert_eq!(contents.len(), 1);
        let mapped = text_of(get(&contents[0], "role"));
        if role == "assistant" {
            assert_eq!(mapped, "model");
        } else {
            assert_eq!(mapped, "user");
        }
    }
    // a system message is folded into the instruction instead
    let msg = OpenAIMessage {
        role: "system".to_string(),
        content: Some(JsonValue::Text("be brief".to_string())),
        tool_calls: None,
        tool_call_id: None,
        name: None,
    };
    let req = simple_request(vec![msg]);
    let result = transform_openai_request(&req, "p", "m", &plain_config(), &None);
    let inner = get(&result, "request");
    assert_eq!(elems(get(inner, "contents")).len(), 0);
    let si = get(inner, "systemInstruction");
    let si_text = text_of(get(&elems(get(si, "parts"))[0], "text"));
    assert!(si_text.starts_with("be brief\n\n[SYSTEM NOTE:"));
}

#[test]
fn empty_plain_message_is_dropped() {
    let req = simple_request(vec![user_message("")]);
    let result = transform_openai_request(&req, "p", "m", &plain_config(), &None);
    let contents = elems(get(get(&result, "request"), "contents"));
    assert_eq!(contents.len(), 0);
}

#[test]
fn user_reminder_suffix_applied_only_to_user() {
    let req = simple_request(vec![user_message("do X")]);
    let result = transform_openai_request(&req, "p", "m", &plain_config(), &None);
    let contents = elems(get(get(&result, "request"), "contents"));
    let parts = elems(get(&contents[0], "parts"));
    assert_eq!(text_of(get(&parts[0], "text")), format!("do X{}", REMINDER));

    let assistant = OpenAIMessage {
        role: "assistant".to_string(),
        content: Some(JsonValue::Text("do X".to_string())),
        tool_calls: None,
        tool_call_id: None,
        name: None,
    };
    let req2 = simple_request(vec![assistant]);
    let result2 = transform_openai_request(&req2, "p", "m", &plain_config(), &None);
    let contents2 = elems(get(get(&result2, "request"), "contents"));
    let parts2 = elems(get(&contents2[0], "parts"));
    assert_eq!(text_of(get(&parts2[0], "text")), "do X");
}

#[test]
fn generation_config_defaults() {
    let req = simple_request(vec![user_message("Hello")]);
    let result = transform_openai_request(&req, "p", "m", &plain_config(), &None);
    let gc = get(get(&result, "request"), "generationConfig");
    assert_eq!(get(gc, "maxOutputTokens"), &JsonValue::Int(8192));
    assert_eq!(get(gc, "temperature"), &JsonValue::Num("1.0".to_string()));
    assert_eq!(get(gc, "topP"), &JsonValue::Num("1.0".to_string()));
    let safety = elems(get(get(&result, "request"), "safetySettings"));
    assert_eq!(safety.len(), 4);
    assert_eq!(text_of(get(&safety[0], "category")), "HARM_CATEGORY_HARASSMENT");
    assert_eq!(text_of(get(&safety[0], "threshold")), "OFF");
}

#[test]
fn generation_config_overrides() {
    let mut req = simple_request(vec![user_message("Hello")]);
    req.max_tokens = Some(512);
    req.temperature = Some("0.25".to_string());
    req.top_p = Some("0.9".to_string());
    let result = transform_openai_request(&req, "p", "m", &plain_config(), &None);
    let gc = get(get(&result, "request"), "generationConfig");
    assert_eq!(get(gc, "maxOutputTokens"), &JsonValue::Int(512));
    assert_eq!(get(gc, "temperature"), &JsonValue::Num("0.25".to_string()));
    assert_eq!(get(gc, "topP"), &JsonValue::Num("0.9".to_string()));
}

#[test]
fn last_system_message_wins() {
    let sys = |t: &str| OpenAIMessage {
        role: "system".to_string(),
        content: Some(JsonValue::Text(t.to_string())),
        tool_calls: None,
        tool_call_id: None,
        name: None,
    };
    let req = simple_request(vec![sys("first"), user_message("hi"), sys("second")]);
    let result = transform_openai_request(&req, "p", "m", &plain_config(), &None);
    let inner = get(&result, "request");
    let si = get(inner, "systemInstruction");
    let si_text = text_of(get(&elems(get(si, "parts"))[0], "text"));
    assert!(si_text.starts_with("second\n\n[SYSTEM NOTE:"));
    assert_eq!(elems(get(inner, "contents")).len(), 1);
}
