use oai_gemini::envelope::{transform_openai_request, inject_google_search_tool, translate_tools};
use oai_gemini::json::JsonValue;
use oai_gemini::request::{OpenAIMessage, OpenAIRequest, ResolvedConfig};
use oai_gemini::schema::map_json_schema_to_gemini;

fn plain_config() -> ResolvedConfig {
    ResolvedConfig {
        final_model: "backend-model".to_string(),
        request_type: "generate".to_string(),
        inject_google_search: false,
        image_config: None,
    }
}

fn user_message(text: &str) -> OpenAIMessage {
    OpenAIMessage {
        role: "user".to_string(),
        content: Some(JsonValue::Text(text.to_string())),
        tool_calls: None,
        tool_call_id: None,
        name: None,
    }
}

fn request_with_tools(tools: Vec<JsonValue>) -> OpenAIRequest {
    OpenAIRequest {
        model: "gpt-4".to_string(),
        messages: vec![user_message("Hello")],
        tools: Some(tools),
        max_tokens: None,
        temperature: None,
        top_p: None,
        stream: false,
    }
}

fn get<'a>(v: &'a JsonValue, key: &str) -> &'a JsonValue {
    v.obj_get(key).expect("missing key")
}

fn text_of(v: &JsonValue) -> &str {
    v.as_text().expect("not a text").as_str()
}

fn elems(v: &JsonValue) -> &Vec<JsonValue> {
    match v {
        JsonValue::Arr(a) => a,
        _ => panic!("not an array"),
    }
}

fn obj(fields: Vec<(&str, JsonValue)>) -> JsonValue {
    JsonValue::Obj(fields.into_iter().map(|(k, v)| (k.to_string(), v)).collect())
}

#[test]
fn schema_whitelist_and_uppercase() {
    let mut node = obj(vec![
        ("type", JsonValue::Text("integer".to_string())),
        ("default", JsonValue::Int(5)),
        ("additionalProperties", JsonValue::Bool(false)),
    ]);
    map_json_schema_to_gemini(&mut node);
    assert_eq!(node, obj(vec![("type", JsonValue::Text("INTEGER".to_string()))]));
}

#[test]
fn schema_recurses_into_properties_and_items() {
    let mut node = obj(vec![
        ("type", JsonValue::Text("object".to_string())),
        (
            "properties",
            obj(vec![
                (
                    "tags",
                    obj(vec![
                        ("type", JsonValue::Text("array".to_string())),
                        ("items", obj(vec![("type", JsonValue::Text("string".to_string())), ("title", JsonValue::Text("x".to_string()))])),
                    ]),
                ),
            ]),
        ),
        ("required", JsonValue::Arr(vec![JsonValue::Text("tags".to_string())])),
        ("strict", JsonValue::Bool(true)),
    ]);
    map_json_schema_to_gemini(&mut node);
    let tags = get(get(&node, "properties"), "tags");
    assert_eq!(text_of(get(tags, "type")), "ARRAY");
    let items = get(tags, "items");
    assert_eq!(items, &obj(vec![("type", JsonValue::Text("STRING".to_string()))]));
    assert!(node.obj_get("strict").is_none());
}

#[test]
fn wrapped_declaration_is_translated() {
    let tool = obj(vec![
        ("type", JsonValue::Text("function".to_string())),
        (
            "function",
            obj(vec![
                ("name", JsonValue::Text("search".to_string())),
                ("description", JsonValue::Text("find things".to_string())),
                (
                    "parameters",
                    obj(vec![(
                        "properties",
                        obj(vec![("q", obj(vec![("type", JsonValue::Text("string".to_string()))]))]),
                    )]),
                ),
            ]),
        ),
    ]);
    let req = request_with_tools(vec![tool]);
    let result = transform_openai_request(&req, "p", "m", &plain_config(), &None);
    let tools = elems(get(get(&result, "request"), "tools"));
    assert_eq!(tools.len(), 1);
    let decls = elems(get(&tools[0], "function_declarations"));
    assert_eq!(decls.len(), 1);
    assert_eq!(text_of(get(&decls[0], "name")), "search");
    let params = get(&decls[0], "parameters");
    assert_eq!(text_of(get(params, "type")), "OBJECT");
    let q = get(get(params, "properties"), "q");
    assert_eq!(text_of(get(q, "type")), "STRING");
}

#[test]
fn flat_declaration_is_stripped_and_aliased() {
    let tool = obj(vec![
        ("type", JsonValue::Text("function".to_string())),
        ("name", JsonValue::Text("local_shell_call".to_string())),
        ("strict", JsonValue::Bool(true)),
        ("additionalProperties", JsonValue::Bool(false)),
        (
            "parameters",
            obj(vec![("type", JsonValue::Text("object".to_string()))]),
        ),
    ]);
    let req = request_with_tools(vec![tool]);
    let result = transform_openai_request(&req, "p", "m", &plain_config(), &None);
    let tools = elems(get(get(&result, "request"), "tools"));
    let decls = elems(get(&tools[0], "function_declarations"));
    assert_eq!(decls.len(), 1);
    assert_eq!(text_of(get(&decls[0], "name")), "shell");
    assert!(decls[0].obj_get("strict").is_none());
    assert!(decls[0].obj_get("additionalProperties").is_none());
    assert_eq!(text_of(get(get(&decls[0], "parameters"), "type")), "OBJECT");
}

#[test]
fn non_function_tools_are_skipped() {
    let tool = obj(vec![("type", JsonValue::Text("retrieval".to_string()))]);
    let decls = translate_tools(&vec![tool]);
    assert_eq!(decls.len(), 0);
    let req = request_with_tools(vec![obj(vec![(
        "type",
        JsonValue::Text("retrieval".to_string()),
    )])]);
    let result = transform_openai_request(&req, "p", "m", &plain_config(), &None);
    assert!(get(&result, "request").obj_get("tools").is_none());
}

#[test]
fn google_search_tool_is_appended() {
    let mut env = obj(vec![("contents", JsonValue::Arr(vec![]))]);
    inject_google_search_tool(&mut env);
    let tools = elems(get(&env, "tools"));
    assert_eq!(tools.len(), 1);
    assert_eq!(tools[0], obj(vec![("googleSearch", obj(vec![]))]));

    let config = ResolvedConfig {
        final_model: "backend-model".to_string(),
        request_type: "generate".to_string(),
        inject_google_search: true,
        image_config: None,
    };
    let req = OpenAIRequest {
        model: "gpt-4".to_string(),
        messages: vec![user_message("Hello")],
        tools: None,
        max_tokens: None,
        temperature: None,
        top_p: None,
        stream: false,
    };
    let result = transform_openai_request(&req, "p", "m", &config, &None);
    let tools = elems(get(get(&result, "request"), "tools"));
    assert_eq!(tools.len(), 1);
    assert!(tools[0].obj_get("googleSearch").is_some());
}

#[test]
fn image_config_strips_tools_and_instruction() {
    let config = ResolvedConfig {
        final_model: "image-model".to_string(),
        request_type: "generate".to_string(),
        inject_google_search: false,
        image_config: Some(obj(vec![(
            "aspectRatio",
            JsonValue::Text("1:1".to_string()),
        )])),
    };
    let system = OpenAIMessage {
        role: "system".to_string(),
        content: Some(JsonValue::Text("be brief".to_string())),
        tool_calls: None,
        tool_call_id: None,
        name: None,
    };
    let tool = obj(vec![
        ("type", JsonValue::Text("function".to_string())),
        ("function", obj(vec![("name", JsonValue::Text("f".to_string()))])),
    ]);
    let req = OpenAIRequest {
        model: "gpt-4".to_string(),
        messages: vec![system, user_message("draw a cat")],
        tools: Some(vec![tool]),
        max_tokens: None,
        temperature: None,
        top_p: None,
        stream: false,
    };
    let result = transform_openai_request(&req, "p", "m", &config, &None);
    let inner = get(&result, "request");
    assert!(inner.obj_get("tools").is_none());
    assert!(inner.obj_get("systemInstruction").is_none());
    let gc = get(inner, "generationConfig");
    assert_eq!(
        get(gc, "imageConfig"),
        &obj(vec![("aspectRatio", JsonValue::Text("1:1".to_string()))])
    );
    assert_eq!(get(gc, "maxOutputTokens"), &JsonValue::Int(8192));
}

#[test]
fn non_string_content_is_stringified() {
    let system = OpenAIMessage {
        role: "system".to_string(),
        content: Some(obj(vec![("a", JsonValue::Int(1))])),
        tool_calls: None,
        tool_call_id: None,
        name: None,
    };
    let req = OpenAIRequest {
        model: "gpt-4".to_string(),
        messages: vec![system],
        tools: None,
        max_tokens: None,
        temperature: None,
        top_p: None,
        stream: false,
    };
    let result = transform_openai_request(&req, "p", "m", &plain_config(), &None);
    let si = get(get(&result, "request"), "systemInstruction");
    let si_text = text_of(get(&elems(get(si, "parts"))[0], "text"));
    assert!(si_text.starts_with("{\"a\":1}"));
}
