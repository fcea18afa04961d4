use vstd::prelude::*;
use crate::json::{Json, JsonValue, field_views_of, views_of, has_key, lookup, str_eq};
use crate::request::{MsgModel, OpenAIMessage, msg_views_of, opt_json_view, opt_text_view};
use crate::indexer::{alias_name, alias_string, arr_of, text_of, index_lookup, ToolCallIndex};
use crate::text::{contains_sub, contains_str, starts_with, starts_with_str, first_index, find_char, lemma_first_index_props};
use crate::outside::{json_text, stringify_json, json_parsed, parse_json};

verus! {

/// The note appended to the system instruction.
pub open spec fn system_note_suffix() -> Seq<char> {
    "\n\n[SYSTEM NOTE: You are a coding agent. You MUST use the provided 'shell' tool to perform ANY filesystem operations (reading, writing, creating files). Do not output JSON code blocks for tool execution; invoke the functions directly. To create a file, use the 'shell' tool with 'New-Item' or 'Set-Content' (Powershell). NEVER simulate/hallucinate actions in text without calling the tool first.]"@
}

fn system_note_suffix_str() -> (r: &'static str)
    ensures
        r@ == system_note_suffix(),
{
    "\n\n[SYSTEM NOTE: You are a coding agent. You MUST use the provided 'shell' tool to perform ANY filesystem operations (reading, writing, creating files). Do not output JSON code blocks for tool execution; invoke the functions directly. To create a file, use the 'shell' tool with 'New-Item' or 'Set-Content' (Powershell). NEVER simulate/hallucinate actions in text without calling the tool first.]"
}

/// The reminder appended to every text part of a user-mapped message.
pub open spec fn user_reminder() -> Seq<char> {
    "\n\n(SYSTEM REMINDER: You MUST use the 'shell' tool to perform this action. Do not simply state it is done.)"@
}

fn user_reminder_str() -> (r: &'static str)
    ensures
        r@ == user_reminder(),
{
    "\n\n(SYSTEM REMINDER: You MUST use the 'shell' tool to perform this action. Do not simply state it is done.)"
}

/// The placeholder reasoning text for model families that require one.
pub open spec fn thinking_text() -> Seq<char> {
    "Thinking Process: Determining necessary tool actions."@
}

fn thinking_text_str() -> (r: &'static str)
    ensures
        r@ == thinking_text(),
{
    "Thinking Process: Determining necessary tool actions."
}

/// The marker of the model family that requires explicit reasoning text.
pub open spec fn reasoning_family_marker() -> Seq<char> {
    "gemini-3"@
}

/// A message's content as one text: absent content is empty, text is
/// itself, anything else is its single-line JSON rendering.
pub open spec fn content_text(c: Option<Json>) -> Seq<char> {
    match c {
        None => Seq::empty(),
        Some(Json::Text(t)) => t,
        Some(j) => json_text(j),
    }
}

/// Executable form of `content_text`.
pub fn content_to_text(content: &Option<JsonValue>) -> (r: String)
    ensures
        r@ == content_text(opt_json_view(*content)),
{
    match content {
        None => String::new(),
        Some(JsonValue::Text(s)) => s.clone(),
        Some(j) => stringify_json(j),
    }
}

/// A text part.
pub open spec fn jtext(t: Seq<char>) -> Json {
    Json::Obj(seq![("text"@, Json::Text(t))])
}

/// Builds a text part.
pub fn make_text_part(t: String) -> (r: JsonValue)
    ensures
        r@ == jtext(t@),
{
    let mut fs: Vec<(String, JsonValue)> = Vec::new();
    fs.push(("text".to_owned(), JsonValue::Text(t)));
    proof {
        assert(field_views_of(fs@) =~= seq![("text"@, Json::Text(t@))]);
    }
    JsonValue::Obj(fs)
}

/// The arguments of a tool call: the parsed JSON of the argument text,
/// or an empty object where that text does not parse.
pub open spec fn args_of(s: Seq<char>) -> Json {
    match json_parsed(s) {
        Some(j) => j,
        None => Json::Obj(Seq::empty()),
    }
}

/// Parses tool-call arguments, substituting an empty object on failure.
pub fn parse_args(s: &str) -> (r: JsonValue)
    ensures
        r@ == args_of(s@),
{
    match parse_json(s) {
        Some(v) => v,
        None => {
            let fs: Vec<(String, JsonValue)> = Vec::new();
            proof {
                assert(field_views_of(fs@) =~= Seq::<(Seq<char>, Json)>::empty());
            }
            JsonValue::Obj(fs)
        },
    }
}

/// The functionCall part for one tool call. Only the first call of a
/// message carries the stored thought signature.
pub open spec fn func_call_part(func: Json, index: int, sig: Option<Seq<char>>) -> Json {
    let raw = if has_key(func, "name"@) && lookup(func, "name"@) is Text {
        text_of(lookup(func, "name"@))
    } else {
        "unknown"@
    };
    let args_str = if has_key(func, "arguments"@) && lookup(func, "arguments"@) is Text {
        text_of(lookup(func, "arguments"@))
    } else {
        "{}"@
    };
    let inner = Json::Obj(
        seq![("name"@, Json::Text(alias_name(raw))), ("args"@, args_of(args_str))],
    );
    if index == 0 && sig is Some {
        Json::Obj(seq![("functionCall"@, inner), ("thoughtSignature"@, Json::Text(sig.unwrap()))])
    } else {
        Json::Obj(seq![("functionCall"@, inner)])
    }
}

/// The parts contributed by the tool call at `index`: an optional
/// leading text part (the original message text before the first call,
/// or the placeholder for reasoning model families), then the
/// functionCall part where the call carries a `function` object.
pub open spec fn parts_for_call(
    c: Json,
    index: int,
    text: Seq<char>,
    mapped: Seq<char>,
    sig: Option<Seq<char>>,
) -> Seq<Json> {
    let lead: Seq<Json> = if index == 0 && text.len() > 0 {
        seq![jtext(text)]
    } else if contains_sub(mapped, reasoning_family_marker()) {
        seq![jtext(thinking_text())]
    } else {
        Seq::empty()
    };
    if has_key(c, "function"@) {
        lead + seq![func_call_part(lookup(c, "function"@), index, sig)]
    } else {
        lead
    }
}

/// The parts of a message with tool calls, in call order.
pub open spec fn tool_call_parts(
    calls: Seq<Json>,
    text: Seq<char>,
    mapped: Seq<char>,
    sig: Option<Seq<char>>,
) -> Seq<Json>
    decreases calls.len(),
{
    if calls.len() == 0 {
        Seq::empty()
    } else {
        tool_call_parts(calls.drop_last(), text, mapped, sig)
            + parts_for_call(calls.last(), calls.len() - 1, text, mapped, sig)
    }
}

/// The inner fields of a functionResponse part. The name is taken from
/// the index under the message's tool-call identifier where that
/// resolves, else from the message's own `name` field, rewritten either
/// way; a missing identifier is carried as the literal `unknown`.
pub open spec fn function_response_fields(m: MsgModel, idx: Seq<(Seq<char>, Seq<char>)>) -> Seq<(Seq<char>, Json)> {
    let own = alias_name(
        match m.name {
            Some(n) => n,
            None => "unknown"@,
        },
    );
    let name = match m.tool_call_id {
        Some(tid) => match index_lookup(idx, tid) {
            Some(res) => res,
            None => own,
        },
        None => own,
    };
    let id = match m.tool_call_id {
        Some(tid) => tid,
        None => "unknown"@,
    };
    seq![
        ("name"@, Json::Text(name)),
        ("id"@, Json::Text(id)),
        ("response"@, Json::Obj(seq![("content"@, Json::Text(content_text(m.content)))])),
    ]
}

/// The single functionResponse part of a tool or function message.
pub open spec fn tool_response_parts(m: MsgModel, idx: Seq<(Seq<char>, Seq<char>)>) -> Seq<Json> {
    seq![Json::Obj(seq![("functionResponse"@, Json::Obj(function_response_fields(m, idx)))])]
}

/// The parts produced for one image URL: a `data:` URL split at its
/// first comma into MIME header and payload, an `http(s)` URL passed as
/// a file reference with a fixed JPEG type, anything else skipped.
pub open spec fn image_parts(url: Seq<char>) -> Seq<Json> {
    if starts_with(url, "data:"@) {
        match first_index(url, ',') {
            Some(comma) => {
                let header = url.subrange(5, comma);
                let mime = match first_index(header, ';') {
                    Some(semi) => header.subrange(0, semi),
                    None => header,
                };
                let data = url.subrange(comma + 1, url.len() as int);
                seq![
                    Json::Obj(
                        seq![
                            (
                                "inlineData"@,
                                Json::Obj(
                                    seq![("mimeType"@, Json::Text(mime)), ("data"@, Json::Text(data))],
                                ),
                            ),
                        ],
                    ),
                ]
            },
            None => Seq::empty(),
        }
    } else if starts_with(url, "http"@) {
        seq![
            Json::Obj(
                seq![
                    (
                        "fileData"@,
                        Json::Obj(
                            seq![
                                ("fileUri"@, Json::Text(url)),
                                ("mimeType"@, Json::Text("image/jpeg"@)),
                            ],
                        ),
                    ),
                ],
            ),
        ]
    } else {
        Seq::empty()
    }
}

/// The parts produced by one item of a multimodal content array.
pub open spec fn item_parts(item: Json, is_user: bool) -> Seq<Json> {
    if has_key(item, "type"@) && lookup(item, "type"@) is Text {
        let ty = text_of(lookup(item, "type"@));
        if ty == "text"@ {
            if has_key(item, "text"@) && lookup(item, "text"@) is Text
                && text_of(lookup(item, "text"@)).len() > 0 {
                let t = text_of(lookup(item, "text"@));
                if is_user {
                    seq![jtext(t + user_reminder())]
                } else {
                    seq![jtext(t)]
                }
            } else {
                Seq::empty()
            }
        } else if ty == "image_url"@ {
            if has_key(item, "image_url"@) && has_key(lookup(item, "image_url"@), "url"@)
                && lookup(lookup(item, "image_url"@), "url"@) is Text {
                image_parts(text_of(lookup(lookup(item, "image_url"@), "url"@)))
            } else {
                Seq::empty()
            }
        } else {
            Seq::empty()
        }
    } else {
        Seq::empty()
    }
}

/// The parts of a multimodal content array, in item order.
pub open spec fn items_parts(items: Seq<Json>, is_user: bool) -> Seq<Json>
    decreases items.len(),
{
    if items.len() == 0 {
        Seq::empty()
    } else {
        items_parts(items.drop_last(), is_user) + item_parts(items.last(), is_user)
    }
}

/// The parts of a plain message: a content array is walked item by
/// item; a non-empty text becomes one text part, suffixed with the
/// reminder for user-mapped roles; anything else yields no parts.
pub open spec fn plain_parts(content: Option<Json>, is_user: bool) -> Seq<Json> {
    match content {
        None => Seq::empty(),
        Some(Json::Arr(items)) => items_parts(items, is_user),
        Some(Json::Text(t)) => if t.len() == 0 {
            Seq::empty()
        } else if is_user {
            seq![jtext(t + user_reminder())]
        } else {
            seq![jtext(t)]
        },
        Some(_) => Seq::empty(),
    }
}

/// The fixed role mapping of the output: `assistant` to `model`,
/// everything else to `user`. System messages never reach it.
pub open spec fn mapped_role(role: Seq<char>) -> Seq<char> {
    if role == "assistant"@ {
        "model"@
    } else {
        "user"@
    }
}

/// Executable form of `mapped_role`.
pub fn role_string(role: &str) -> (r: &'static str)
    ensures
        r@ == mapped_role(role@),
{
    if str_eq(role, "assistant") {
        "model"
    } else {
        "user"
    }
}

/// The parts of one non-system message.
pub open spec fn msg_parts(
    m: MsgModel,
    idx: Seq<(Seq<char>, Seq<char>)>,
    mapped: Seq<char>,
    sig: Option<Seq<char>>,
) -> Seq<Json> {
    match m.tool_calls {
        Some(tc) => tool_call_parts(arr_of(tc), content_text(m.content), mapped, sig),
        None => if m.role == "tool"@ || m.role == "function"@ {
            tool_response_parts(m, idx)
        } else {
            plain_parts(m.content, mapped_role(m.role) == "user"@)
        },
    }
}

/// The content entry of one non-system message: present only where the
/// message produced at least one part.
pub open spec fn content_entry(
    m: MsgModel,
    idx: Seq<(Seq<char>, Seq<char>)>,
    mapped: Seq<char>,
    sig: Option<Seq<char>>,
) -> Option<Json> {
    let parts = msg_parts(m, idx, mapped, sig);
    if parts.len() == 0 {
        None
    } else {
        Some(
            Json::Obj(
                seq![("role"@, Json::Text(mapped_role(m.role))), ("parts"@, Json::Arr(parts))],
            ),
        )
    }
}

/// The system instruction taken from a system message: its content text
/// with the fixed note appended.
pub open spec fn system_instruction_of(m: MsgModel) -> Json {
    Json::Obj(
        seq![("parts"@, Json::Arr(seq![jtext(content_text(m.content) + system_note_suffix())]))],
    )
}

/// The contents and the system instruction produced by a message list:
/// each system message replaces the instruction, every other message
/// contributes its content entry where it has one.
pub open spec fn fold_contents(
    msgs: Seq<MsgModel>,
    idx: Seq<(Seq<char>, Seq<char>)>,
    mapped: Seq<char>,
    sig: Option<Seq<char>>,
) -> (Seq<Json>, Option<Json>)
    decreases msgs.len(),
{
    if msgs.len() == 0 {
        (Seq::empty(), None)
    } else {
        let (cs, si) = fold_contents(msgs.drop_last(), idx, mapped, sig);
        let m = msgs.last();
        if m.role == "system"@ {
            (cs, Some(system_instruction_of(m)))
        } else {
            match content_entry(m, idx, mapped, sig) {
                Some(e) => (cs.push(e), si),
                None => (cs, si),
            }
        }
    }
}

/// Builds the functionCall part of one call.
fn make_func_call_part(func: &JsonValue, index: usize, signature: &Option<String>) -> (r: JsonValue)
    ensures
        r@ == func_call_part(func@, index as int, opt_text_view(*signature)),
{
    let raw_name: &str = match func.obj_get("name") {
        Some(v) => match v.as_text() {
            Some(s) => s.as_str(),
            None => "unknown",
        },
        None => "unknown",
    };
    let name = alias_string(raw_name);
    let args_str: &str = match func.obj_get("arguments") {
        Some(v) => match v.as_text() {
            Some(s) => s.as_str(),
            None => "{}",
        },
        None => "{}",
    };
    let args = parse_args(args_str);
    let mut inner_fs: Vec<(String, JsonValue)> = Vec::new();
    inner_fs.push(("name".to_owned(), JsonValue::Text(name)));
    inner_fs.push(("args".to_owned(), args));
    let inner = JsonValue::Obj(inner_fs);
    let mut fs: Vec<(String, JsonValue)> = Vec::new();
    fs.push(("functionCall".to_owned(), inner));
    if index == 0 {
        match signature {
            Some(sig) => {
                fs.push(("thoughtSignature".to_owned(), JsonValue::Text(sig.clone())));
            },
            None => {},
        }
    }
    let r = JsonValue::Obj(fs);
    proof {
        assert(r@ == func_call_part(func@, index as int, opt_text_view(*signature))) by {
            assert(field_views_of(inner_fs@) =~= seq![
                ("name"@, Json::Text(alias_name(raw_name@))),
                ("args"@, args_of(args_str@)),
            ]);
            if index == 0 && signature is Some {
                assert(field_views_of(fs@) =~= seq![
                    ("functionCall"@, inner@),
                    ("thoughtSignature"@, Json::Text(signature.unwrap()@)),
                ]);
            } else {
                assert(field_views_of(fs@) =~= seq![("functionCall"@, inner@)]);
            }
        }
    }
    r
}

/// Appends the parts of the call at `index` of one tool-call message.
#[verifier::loop_isolation(false)]
fn push_parts_for_call(
    parts: &mut Vec<JsonValue>,
    call: &JsonValue,
    index: usize,
    text: &String,
    mapped_model: &str,
    signature: &Option<String>,
) -> (nothing: ())
    ensures
        views_of(final(parts)@) == views_of(old(parts)@)
            + parts_for_call(call@, index as int, text@, mapped_model@, opt_text_view(*signature)),
{
    let ghost before = views_of(parts@);
    if index == 0 && !text.as_str().is_empty() {
        parts.push(make_text_part(text.clone()));
    } else if contains_str(mapped_model, "gemini-3") {
        parts.push(make_text_part(thinking_text_str().to_owned()));
    }
    match call.obj_get("function") {
        Some(func) => {
            let part = make_func_call_part(func, index, signature);
            parts.push(part);
        },
        None => {},
    }
    proof {
        assert(views_of(parts@) =~= before
            + parts_for_call(call@, index as int, text@, mapped_model@, opt_text_view(*signature)));
    }
}

/// Builds the functionResponse part of a tool or function message.
fn make_tool_response_part(msg: &OpenAIMessage, index: &ToolCallIndex) -> (r: JsonValue)
    ensures
        seq![r@] == tool_response_parts(msg@, index@),
{
    let own_raw: &str = match &msg.name {
        Some(n) => n.as_str(),
        None => "unknown",
    };
    let own = alias_string(own_raw);
    let name: String = match &msg.tool_call_id {
        Some(tid) => match index.get(tid.as_str()) {
            Some(res) => res.clone(),
            None => own,
        },
        None => own,
    };
    let id: String = match &msg.tool_call_id {
        Some(tid) => tid.clone(),
        None => "unknown".to_owned(),
    };
    let content_str = content_to_text(&msg.content);
    let mut resp_fs: Vec<(String, JsonValue)> = Vec::new();
    resp_fs.push(("content".to_owned(), JsonValue::Text(content_str)));
    let resp = JsonValue::Obj(resp_fs);
    let mut fr_fs: Vec<(String, JsonValue)> = Vec::new();
    fr_fs.push(("name".to_owned(), JsonValue::Text(name)));
    fr_fs.push(("id".to_owned(), JsonValue::Text(id)));
    fr_fs.push(("response".to_owned(), resp));
    let fr = JsonValue::Obj(fr_fs);
    let mut fs: Vec<(String, JsonValue)> = Vec::new();
    fs.push(("functionResponse".to_owned(), fr));
    let r = JsonValue::Obj(fs);
    proof {
        assert(field_views_of(resp_fs@) =~= seq![
            ("content"@, Json::Text(content_text(msg@.content))),
        ]);
        assert(field_views_of(fr_fs@) =~= function_response_fields(msg@, index@));
        assert(seq![r@] =~= tool_response_parts(msg@, index@)) by {
            assert(field_views_of(fs@) =~= seq![("functionResponse"@, fr@)]);
        }
    }
    r
}

/// Appends the parts of one image URL.
#[verifier::loop_isolation(false)]
fn push_image_parts(parts: &mut Vec<JsonValue>, url: &str) -> (nothing: ())
    ensures
        views_of(final(parts)@) == views_of(old(parts)@) + image_parts(url@),
{
    let ghost before = views_of(parts@);
    if starts_with_str(url, "data:") {
        match find_char(url, ',') {
            Some(comma) => {
                let n = url.unicode_len();
                proof {
                    lemma_first_index_props(url@, ',');
                    reveal_strlit("data:");
                    assert forall|j: int| 0 <= j < 5 implies url@[j] == "data:"@[j] by {
                        assert(url@.subrange(0, "data:"@.len() as int)[j] == url@[j]);
                    }
                    assert(comma >= 5);
                }
                let header = url.substring_char(5, comma);
                let mime: &str = match find_char(header, ';') {
                    Some(semi) => {
                        proof {
                            lemma_first_index_props(header@, ';');
                        }
                        header.substring_char(0, semi)
                    },
                    None => header,
                };
                let data = url.substring_char(comma + 1, n);
                let mut in_fs: Vec<(String, JsonValue)> = Vec::new();
                in_fs.push(("mimeType".to_owned(), JsonValue::Text(mime.to_owned())));
                in_fs.push(("data".to_owned(), JsonValue::Text(data.to_owned())));
                let inline = JsonValue::Obj(in_fs);
                let mut fs: Vec<(String, JsonValue)> = Vec::new();
                fs.push(("inlineData".to_owned(), inline));
                proof {
                    assert(field_views_of(in_fs@) =~= seq![
                        ("mimeType"@, Json::Text(mime@)),
                        ("data"@, Json::Text(data@)),
                    ]);
                    assert(field_views_of(fs@) =~= seq![("inlineData"@, inline@)]);
                }
                parts.push(JsonValue::Obj(fs));
            },
            None => {},
        }
    } else if starts_with_str(url, "http") {
        let mut in_fs: Vec<(String, JsonValue)> = Vec::new();
        in_fs.push(("fileUri".to_owned(), JsonValue::Text(url.to_owned())));
        in_fs.push(("mimeType".to_owned(), JsonValue::Text("image/jpeg".to_owned())));
        let fd = JsonValue::Obj(in_fs);
        let mut fs: Vec<(String, JsonValue)> = Vec::new();
        fs.push(("fileData".to_owned(), fd));
        proof {
            assert(field_views_of(in_fs@) =~= seq![
                ("fileUri"@, Json::Text(url@)),
                ("mimeType"@, Json::Text("image/jpeg"@)),
            ]);
            assert(field_views_of(fs@) =~= seq![("fileData"@, fd@)]);
        }
        parts.push(JsonValue::Obj(fs));
    }
    proof {
        assert(views_of(parts@) =~= before + image_parts(url@));
    }
}

/// Appends the parts of one multimodal item.
#[verifier::loop_isolation(false)]
fn push_item_parts(parts: &mut Vec<JsonValue>, item: &JsonValue, is_user: bool) -> (nothing: ())
    ensures
        views_of(final(parts)@) == views_of(old(parts)@) + item_parts(item@, is_user),
{
    let ghost before = views_of(parts@);
    match item.obj_get("type") {
        Some(tyv) => match tyv.as_text() {
            Some(ty) => {
                if str_eq(ty.as_str(), "text") {
                    match item.obj_get("text") {
                        Some(tv) => match tv.as_text() {
                            Some(t) => {
                                if !t.as_str().is_empty() {
                                    if is_user {
                                        let with = t.clone().concat(user_reminder_str());
                                        parts.push(make_text_part(with));
                                    } else {
                                        parts.push(make_text_part(t.clone()));
                                    }
                                }
                            },
                            None => {},
                        },
                        None => {},
                    }
                } else if str_eq(ty.as_str(), "image_url") {
                    match item.obj_get("image_url") {
                        Some(img) => match img.obj_get("url") {
                            Some(uv) => match uv.as_text() {
                                Some(url) => {
                                    push_image_parts(parts, url.as_str());
                                },
                                None => {},
                            },
                            None => {},
                        },
                        None => {},
                    }
                }
            },
            None => {},
        },
        None => {},
    }
    proof {
        assert(views_of(parts@) =~= before + item_parts(item@, is_user));
    }
}

/// Appends the parts of one plain message.
#[verifier::loop_isolation(false)]
fn push_plain_parts(parts: &mut Vec<JsonValue>, content: &Option<JsonValue>, is_user: bool) -> (nothing: ())
    ensures
        views_of(final(parts)@) == views_of(old(parts)@)
            + plain_parts(opt_json_view(*content), is_user),
{
    let ghost before = views_of(parts@);
    match content {
        Some(JsonValue::Arr(items)) => {
            let ghost its = arr_of(content.unwrap()@);
            let mut k: usize = 0;
            proof {
                assert(its.take(0) =~= Seq::<Json>::empty());
                assert(before + items_parts(its.take(0), is_user) =~= before);
            }
            while k < items.len()
                invariant
                    k <= items.len(),
                    views_of(parts@) == before + items_parts(its.take(k as int), is_user),
                decreases items.len() - k,
            {
                proof {
                    assert(its.take(k + 1).drop_last() =~= its.take(k as int));
                    assert(its.take(k + 1).last() == its[k as int]);
                }
                push_item_parts(parts, &items[k], is_user);
                k += 1;
            }
            proof {
                assert(its.take(items.len() as int) =~= its);
            }
        },
        Some(JsonValue::Text(t)) => {
            if !t.as_str().is_empty() {
                if is_user {
                    let with = t.clone().concat(user_reminder_str());
                    parts.push(make_text_part(with));
                } else {
                    parts.push(make_text_part(t.clone()));
                }
            }
        },
        _ => {},
    }
    proof {
        assert(views_of(parts@) =~= before + plain_parts(opt_json_view(*content), is_user));
    }
}

/// Converts the message list: every message contributes at most one
/// content entry, and the last system message sets the instruction.
#[verifier::loop_isolation(false)]
#[verifier::rlimit(80)]
pub fn convert_messages(
    messages: &Vec<OpenAIMessage>,
    index: &ToolCallIndex,
    mapped_model: &str,
    signature: &Option<String>,
) -> (r: (Vec<JsonValue>, Option<JsonValue>))
    ensures
        ({
            let (cs, si) = fold_contents(
                msg_views_of(messages@),
                index@,
                mapped_model@,
                opt_text_view(*signature),
            );
            views_of(r.0@) == cs && opt_json_view(r.1) == si
        }),
{
    let ghost msgs = msg_views_of(messages@);
    let ghost sigv = opt_text_view(*signature);
    let mut contents: Vec<JsonValue> = Vec::new();
    let mut system_instruction: Option<JsonValue> = None;
    let mut i: usize = 0;
    proof {
        assert(msgs.take(0) =~= Seq::<MsgModel>::empty());
    }
    while i < messages.len()
        invariant
            i <= messages.len(),
            ({
                let (cs, si) = fold_contents(msgs.take(i as int), index@, mapped_model@, sigv);
                views_of(contents@) == cs && opt_json_view(system_instruction) == si
            }),
        decreases messages.len() - i,
    {
        proof {
            assert(msgs.take(i + 1).drop_last() =~= msgs.take(i as int));
            assert(msgs.take(i + 1).last() == msgs[i as int]);
        }
        let msg = &messages[i];
        if str_eq(msg.role.as_str(), "system") {
            let content_str = content_to_text(&msg.content);
            let with_note = content_str.concat(system_note_suffix_str());
            let part = make_text_part(with_note);
            let mut arr: Vec<JsonValue> = Vec::new();
            arr.push(part);
            let mut fs: Vec<(String, JsonValue)> = Vec::new();
            proof {
                assert(views_of(arr@) =~= seq![
                    jtext(content_text(msgs[i as int].content) + system_note_suffix()),
                ]);
            }
            fs.push(("parts".to_owned(), JsonValue::Arr(arr)));
            let si = JsonValue::Obj(fs);
            proof {
                assert(si@ =~= system_instruction_of(msgs[i as int])) by {
                    assert(field_views_of(fs@) =~= fields_of_si(msgs[i as int]));
                }
            }
            system_instruction = Some(si);
        } else {
            let role = role_string(msg.role.as_str());
            let mut parts: Vec<JsonValue> = Vec::new();
            match &msg.tool_calls {
                Some(tc) => {
                    let text = content_to_text(&msg.content);
                    match tc {
                        JsonValue::Arr(calls) => {
                            let ghost cs = arr_of(tc@);
                            let mut k: usize = 0;
                            proof {
                                assert(cs.take(0) =~= Seq::<Json>::empty());
                            }
                            while k < calls.len()
                                invariant
                                    k <= calls.len(),
                                    views_of(parts@) == tool_call_parts(
                                        cs.take(k as int),
                                        content_text(msgs[i as int].content),
                                        mapped_model@,
                                        sigv,
                                    ),
                                decreases calls.len() - k,
                            {
                                proof {
                                    assert(cs.take(k + 1).drop_last() =~= cs.take(k as int));
                                    assert(cs.take(k + 1).last() == cs[k as int]);
                                    assert(cs.take(k + 1).len() - 1 == k as int);
                                }
                                push_parts_for_call(&mut parts, &calls[k], k, &text, mapped_model, signature);
                                k += 1;
                            }
                            proof {
                                assert(cs.take(calls.len() as int) =~= cs);
                            }
                        },
                        _ => {
                            proof {
                                assert(arr_of(tc@) =~= Seq::<Json>::empty());
                            }
                        },
                    }
                },
                None => {
                    if str_eq(msg.role.as_str(), "tool") || str_eq(msg.role.as_str(), "function") {
                        let part = make_tool_response_part(msg, index);
                        parts.push(part);
                        proof {
                            assert(views_of(parts@) =~= tool_response_parts(msgs[i as int], index@));
                        }
                    } else {
                        let ghost is_user = mapped_role(msgs[i as int].role) == "user"@;
                        let user_flag = str_eq(role, "user");
                        proof {
                            assert(user_flag == is_user);
                        }
                        push_plain_parts(&mut parts, &msg.content, user_flag);
                    }
                },
            }
            if parts.len() > 0 {
                let mut fs: Vec<(String, JsonValue)> = Vec::new();
                fs.push(("role".to_owned(), JsonValue::Text(role.to_owned())));
                fs.push(("parts".to_owned(), JsonValue::Arr(parts)));
                let entry = JsonValue::Obj(fs);
                proof {
                    assert(field_views_of(fs@) =~= seq![
                        ("role"@, Json::Text(mapped_role(msgs[i as int].role))),
                        ("parts"@, Json::Arr(msg_parts(msgs[i as int], index@, mapped_model@, sigv))),
                    ]);
                }
                contents.push(entry);
            } else {
                proof {
                    assert(views_of(parts@).len() == 0);
                }
            }
        }
        proof {
            let (cs1, si1) = fold_contents(msgs.take(i + 1), index@, mapped_model@, sigv);
            assert(views_of(contents@) =~= cs1);
        }
        i += 1;
    }
    proof {
        assert(msgs.take(messages.len() as int) =~= msgs);
    }
    (contents, system_instruction)
}

/// The fields of a system instruction.
pub open spec fn fields_of_si(m: MsgModel) -> Seq<(Seq<char>, Json)> {
    seq![("parts"@, Json::Arr(seq![jtext(content_text(m.content) + system_note_suffix())]))]
}

} // verus!
