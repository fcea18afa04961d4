use oai_gemini::envelope::transform_openai_request;
use oai_gemini::json::JsonValue;
use oai_gemini::request::{OpenAIMessage, OpenAIRequest, ResolvedConfig};

fn plain_config() -> ResolvedConfig {
    ResolvedConfig {
        final_model: "backend-model".to_string(),
        request_type: "generate".to_string(),
        inject_google_search: false,
        image_config: None,
    }
}

fn request_with_content(role: &str, content: JsonValue) -> OpenAIRequest {
    OpenAIRequest {
        model: "gpt-4".to_string(),
        messages: vec![OpenAIMessage {
            role: role.to_string(),
            content: Some(content),
            tool_calls: None,
            tool_call_id: None,
            name: None,
        }],
        tools: None,
        max_tokens: None,
        temperature: None,
        top_p: None,
        stream: false,
    }
}

fn get<'a>(v: &'a JsonValue, key: &str) -> &'a JsonValue {
    v.obj_get(key).expect("missing key")
}

fn text_of(v: &JsonValue) -> &str {
    v.as_text().expect("not a text").as_str()
}

fn elems(v: &JsonValue) -> &Vec<JsonValue> {
    match v {
        JsonValue::Arr(a) => a,
        _ => panic!("not an array"),
    }
}

fn obj(fields: Vec<(&str, JsonValue)>) -> JsonValue {
    JsonValue::Obj(fields.into_iter().map(|(k, v)| (k.to_string(), v)).collect())
}

fn image_item(url: &str) -> JsonValue {
    obj(vec![
        ("type", JsonValue::Text("image_url".to_string())),
        ("image_url", obj(vec![("url", JsonValue::Text(url.to_string()))])),
    ])
}

#[test]
fn data_url_becomes_inline_data() {
    let req = request_with_content(
        "user",
        JsonValue::Arr(vec![image_item("data:image/png;base64,QUJD")]),
    );
    let result = transform_openai_request(&req, "p", "m", &plain_config(), &None);
    let contents = elems(get(get(&result, "request"), "contents"));
    let parts = elems(get(&contents[0], "parts"));
    assert_eq!(parts.len(), 1);
    assert_eq!(
        parts[0],
        obj(vec![(
            "inlineData",
            obj(vec![
                ("mimeType", JsonValue::Text("image/png".to_string())),
                ("data", JsonValue::Text("QUJD".to_string())),
            ]),
        )])
    );
}

#[test]
fn data_url_without_encoding_marker_keeps_whole_header() {
    let req = request_with_content(
        "user",
        JsonValue::Arr(vec![image_item("data:image/gif,RAW")]),
    );
    let result = transform_openai_request(&req, "p", "m", &plain_config(), &None);
    let contents = elems(get(get(&result, "request"), "contents"));
    let parts = elems(get(&contents[0], "parts"));
    let inline = get(&parts[0], "inlineData");
    assert_eq!(text_of(get(inline, "mimeType")), "image/gif");
    assert_eq!(text_of(get(inline, "data")), "RAW");
}

#[test]
fn http_url_becomes_file_data() {
    let req = request_with_content(
        "user",
        JsonValue::Arr(vec![image_item("https://example.test/cat.png")]),
    );
    let result = transform_openai_request(&req, "p", "m", &plain_config(), &None);
    let contents = elems(get(get(&result, "request"), "contents"));
    let parts = elems(get(&contents[0], "parts"));
    let fd = get(&parts[0], "fileData");
    assert_eq!(text_of(get(fd, "fileUri")), "https://example.test/cat.png");
    assert_eq!(text_of(get(fd, "mimeType")), "image/jpeg");
}

#[test]
fn unknown_items_and_bad_urls_are_skipped() {
    let items = JsonValue::Arr(vec![
        obj(vec![("type", JsonValue::Text("audio".to_string()))]),
        image_item("ftp://example.test/x"),
        image_item("data:image/png;base64"),
        obj(vec![
            ("type", JsonValue::Text("text".to_string())),
            ("text", JsonValue::Text("hello".to_string())),
        ]),
    ]);
    let req = request_with_content("user", items);
    let result = transform_openai_request(&req, "p", "m", &plain_config(), &None);
    let contents = elems(get(get(&result, "request"), "contents"));
    let parts = elems(get(&contents[0], "parts"));
    assert_eq!(parts.len(), 1);
    assert!(text_of(get(&parts[0], "text")).starts_with("hello"));
}

#[test]
fn mixed_items_keep_order_and_reminders() {
    let items = JsonValue::Arr(vec![
        obj(vec![
            ("type", JsonValue::Text("text".to_string())),
            ("text", JsonValue::Text("look at this".to_string())),
        ]),
        image_item("data:image/jpeg;base64,AAAA"),
    ]);
    let req = request_with_content("user", items);
    let result = transform_openai_request(&req, "p", "m", &plain_config(), &None);
    let contents = elems(get(get(&result, "request"), "contents"));
    let parts = elems(get(&contents[0], "parts"));
    assert_eq!(parts.len(), 2);
    assert!(text_of(get(&parts[0], "text")).starts_with("look at this\n\n(SYSTEM REMINDER:"));
    assert!(parts[1].obj_get("inlineData").is_some());

    // assistant-mapped multimodal text carries no reminder
    let items2 = JsonValue::Arr(vec![obj(vec![
        ("type", JsonValue::Text("text".to_string())),
        ("text", JsonValue::Text("done".to_string())),
    ])]);
    let req2 = request_with_content("assistant", items2);
    let result2 = transform_openai_request(&req2, "p", "m", &plain_config(), &None);
    let contents2 = elems(get(get(&result2, "request"), "contents"));
    let parts2 = elems(get(&contents2[0], "parts"));
    assert_eq!(text_of(get(&parts2[0], "text")), "done");
}
