use oai_gemini::envelope::transform_openai_request;
use oai_gemini::json::JsonValue;
use oai_gemini::request::{OpenAIMessage, OpenAIRequest, ResolvedConfig};

fn plain_config() -> ResolvedConfig {
    ResolvedConfig {
        final_model: "backend-model".to_string(),
        request_type: "generate".to_string(),
        inject_google_search: false,
        image_config: None,
    }
}

fn simple_request(messages: Vec<OpenAIMessage>) -> OpenAIRequest {
    OpenAIRequest {
        model: "gpt-4".to_string(),
        messages,
        tools: None,
        max_tokens: None,
        temperature: None,
        top_p: None,
        stream: false,
    }
}

fn get<'a>(v: &'a JsonValue, key: &str) -> &'a JsonValue {
    v.obj_get(key).expect("missing key")
}

fn text_of(v: &JsonValue) -> &str {
    v.as_text().expect("not a text").as_str()
}

fn elems(v: &JsonValue) -> &Vec<JsonValue> {
    match v {
        JsonValue::Arr(a) => a,
        _ => panic!("not an array"),
    }
}

fn obj(fields: Vec<(&str, JsonValue)>) -> JsonValue {
    JsonValue::Obj(fields.into_iter().map(|(k, v)| (k.to_string(), v)).collect())
}

fn tool_call(id: &str, name: &str, arguments: &str) -> JsonValue {
    obj(vec![
        ("id", JsonValue::Text(id.to_string())),
        (
            "function",
            obj(vec![
                ("name", JsonValue::Text(name.to_string())),
                ("arguments", JsonValue::Text(arguments.to_string())),
            ]),
        ),
    ])
}

#[test]
fn first_call_only_carries_signature() {
    let msg = OpenAIMessage {
        role: "assistant".to_string(),
        content: None,
        tool_calls: Some(JsonValue::Arr(vec![
            tool_call("c1", "search", "{}"),
            tool_call("c2", "fetch", "{}"),
        ])),
        tool_call_id: None,
        name: None,
    };
    let req = simple_request(vec![msg]);
    let sig = Some("SIG123".to_string());
    let result = transform_openai_request(&req, "p", "m", &plain_config(), &sig);
    let contents = elems(get(get(&result, "request"), "contents"));
    assert_eq!(text_of(get(&contents[0], "role")), "model");
    let parts = elems(get(&contents[0], "parts"));
    assert_eq!(parts.len(), 2);
    assert_eq!(text_of(get(&parts[0], "thoughtSignature")), "SIG123");
    assert!(parts[1].obj_get("thoughtSignature").is_none());
    assert_eq!(text_of(get(get(&parts[0], "functionCall"), "name")), "search");
    assert_eq!(text_of(get(get(&parts[1], "functionCall"), "name")), "fetch");
}

#[test]
fn missing_signature_is_omitted() {
    let msg = OpenAIMessage {
        role: "assistant".to_string(),
        content: None,
        tool_calls: Some(JsonValue::Arr(vec![tool_call("c1", "search", "{}")])),
        tool_call_id: None,
        name: None,
    };
    let req = simple_request(vec![msg]);
    let result = transform_openai_request(&req, "p", "m", &plain_config(), &None);
    let contents = elems(get(get(&result, "request"), "contents"));
    let parts = elems(get(&contents[0], "parts"));
    assert!(parts[0].obj_get("thoughtSignature").is_none());
}

#[test]
fn tool_id_resolution_prefers_index() {
    let call_msg = OpenAIMessage {
        role: "assistant".to_string(),
        content: None,
        tool_calls: Some(JsonValue::Arr(vec![tool_call("c1", "search", "{}")])),
        tool_call_id: None,
        name: None,
    };
    let response_msg = OpenAIMessage {
        role: "tool".to_string(),
        content: Some(JsonValue::Text("ok".to_string())),
        tool_calls: None,
        tool_call_id: Some("c1".to_string()),
        name: None,
    };
    let req = simple_request(vec![call_msg, response_msg]);
    let result = transform_openai_request(&req, "p", "m", &plain_config(), &None);
    let contents = elems(get(get(&result, "request"), "contents"));
    assert_eq!(contents.len(), 2);
    let fr = get(&elems(get(&contents[1], "parts"))[0], "functionResponse");
    assert_eq!(text_of(get(fr, "name")), "search");
    assert_eq!(text_of(get(fr, "id")), "c1");
    assert_eq!(text_of(get(get(fr, "response"), "content")), "ok");
}

#[test]
fn tool_response_falls_back_to_own_name() {
    let response_msg = OpenAIMessage {
        role: "function".to_string(),
        content: Some(JsonValue::Text("out".to_string())),
        tool_calls: None,
        tool_call_id: None,
        name: Some("local_shell_call".to_string()),
    };
    let req = simple_request(vec![response_msg]);
    let result = transform_openai_request(&req, "p", "m", &plain_config(), &None);
    let contents = elems(get(get(&result, "request"), "contents"));
    let fr = get(&elems(get(&contents[0], "parts"))[0], "functionResponse");
    assert_eq!(text_of(get(fr, "name")), "shell");
    assert_eq!(text_of(get(fr, "id")), "unknown");
}

#[test]
fn call_alias_and_arguments_are_parsed() {
    let msg = OpenAIMessage {
        role: "assistant".to_string(),
        content: None,
        tool_calls: Some(JsonValue::Arr(vec![tool_call(
            "c1",
            "local_shell_call",
            "{\"command\":\"ls\",\"count\":2}",
        )])),
        tool_call_id: None,
        name: None,
    };
    let req = simple_request(vec![msg]);
    let result = transform_openai_request(&req, "p", "m", &plain_config(), &None);
    let contents = elems(get(get(&result, "request"), "contents"));
    let fc = get(&elems(get(&contents[0], "parts"))[0], "functionCall");
    assert_eq!(text_of(get(fc, "name")), "shell");
    let args = get(fc, "args");
    assert_eq!(text_of(get(args, "command")), "ls");
    assert_eq!(get(args, "count"), &JsonValue::Int(2));
}

#[test]
fn unparseable_arguments_become_empty_object() {
    let msg = OpenAIMessage {
        role: "assistant".to_string(),
        content: None,
        tool_calls: Some(JsonValue::Arr(vec![tool_call("c1", "run", "not json")])),
        tool_call_id: None,
        name: None,
    };
    let req = simple_request(vec![msg]);
    let result = transform_openai_request(&req, "p", "m", &plain_config(), &None);
    let contents = elems(get(get(&result, "request"), "contents"));
    let fc = get(&elems(get(&contents[0], "parts"))[0], "functionCall");
    assert_eq!(get(fc, "args"), &JsonValue::Obj(vec![]));
}

#[test]
fn leading_text_and_thinking_placeholder() {
    // original text leads the first call
    let msg = OpenAIMessage {
        role: "assistant".to_string(),
        content: Some(JsonValue::Text("I will look".to_string())),
        tool_calls: Some(JsonValue::Arr(vec![
            tool_call("c1", "a", "{}"),
            tool_call("c2", "b", "{}"),
        ])),
        tool_call_id: None,
        name: None,
    };
    let req = simple_request(vec![msg]);
    let result = transform_openai_request(&req, "p", "plain-model", &plain_config(), &None);
    let contents = elems(get(get(&result, "request"), "contents"));
    let parts = elems(get(&contents[0], "parts"));
    assert_eq!(parts.len(), 3);
    assert_eq!(text_of(get(&parts[0], "text")), "I will look");

    // the reasoning family gets a placeholder for the later calls
    let msg2 = OpenAIMessage {
        role: "assistant".to_string(),
        content: None,
        tool_calls: Some(JsonValue::Arr(vec![
            tool_call("c1", "a", "{}"),
            tool_call("c2", "b", "{}"),
        ])),
        tool_call_id: None,
        name: None,
    };
    let req2 = simple_request(vec![msg2]);
    let result2 = transform_openai_request(&req2, "p", "gemini-3-pro", &plain_config(), &None);
    let contents2 = elems(get(get(&result2, "request"), "contents"));
    let parts2 = elems(get(&contents2[0], "parts"));
    assert_eq!(parts2.len(), 4);
    assert_eq!(
        text_of(get(&parts2[0], "text")),
        "Thinking Process: Determining necessary tool actions."
    );
    assert_eq!(
        text_of(get(&parts2[2], "text")),
        "Thinking Process: Determining necessary tool actions."
    );
}

#[test]
fn duplicate_tool_call_ids_resolve_to_last() {
    let call_msg = OpenAIMessage {
        role: "assistant".to_string(),
        content: None,
        tool_calls: Some(JsonValue::Arr(vec![
            tool_call("c1", "first", "{}"),
            tool_call("c1", "second", "{}"),
        ])),
        tool_call_id: None,
        name: None,
    };
    let response_msg = OpenAIMessage {
        role: "tool".to_string(),
        content: Some(JsonValue::Text("ok".to_string())),
        tool_calls: None,
        tool_call_id: Some("c1".to_string()),
        name: None,
    };
    let req = simple_request(vec![call_msg, response_msg]);
    let result = transform_openai_request(&req, "p", "m", &plain_config(), &None);
    let contents = elems(get(get(&result, "request"), "contents"));
    let fr = get(&elems(get(&contents[1], "parts"))[0], "functionResponse");
    assert_eq!(text_of(get(fr, "name")), "second");
}
