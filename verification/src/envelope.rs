use vstd::prelude::*;
use crate::json::{
    Json, JsonValue, field_views_of, views_of, fields_of, has_key, lookup, str_eq, remove_key,
    set_field,
};
use crate::request::{OpenAIRequest, ReqModel, CfgModel, ResolvedConfig, opt_text_view};
use crate::indexer::{arr_of, index_of, build_tool_call_index};
use crate::convert::{fold_contents, convert_messages};
use crate::schema::{schema_node_spec, schema_translate};
use crate::outside::new_uuid_string;

verus! {

/// The generation settings: request overrides, or the fixed defaults.
pub open spec fn gen_config_spec(req: ReqModel) -> Json {
    Json::Obj(
        seq![
            (
                "maxOutputTokens"@,
                Json::Int(
                    match req.max_tokens {
                        Some(t) => t,
                        None => 8192,
                    },
                ),
            ),
            (
                "temperature"@,
                Json::Num(
                    match req.temperature {
                        Some(t) => t,
                        None => "1.0"@,
                    },
                ),
            ),
            (
                "topP"@,
                Json::Num(
                    match req.top_p {
                        Some(t) => t,
                        None => "1.0"@,
                    },
                ),
            ),
        ],
    )
}

/// One safety entry with its threshold disabled.
pub open spec fn safety_category(c: Seq<char>) -> Json {
    Json::Obj(seq![("category"@, Json::Text(c)), ("threshold"@, Json::Text("OFF"@))])
}

/// The four fixed safety entries.
pub open spec fn safety_settings_spec() -> Json {
    Json::Arr(
        seq![
            safety_category("HARM_CATEGORY_HARASSMENT"@),
            safety_category("HARM_CATEGORY_HATE_SPEECH"@),
            safety_category("HARM_CATEGORY_SEXUALLY_EXPLICIT"@),
            safety_category("HARM_CATEGORY_DANGEROUS_CONTENT"@),
        ],
    )
}

fn make_safety_entry(c: &str) -> (r: JsonValue)
    ensures
        r@ == safety_category(c@),
{
    let mut fs: Vec<(String, JsonValue)> = Vec::new();
    fs.push(("category".to_owned(), JsonValue::Text(c.to_owned())));
    fs.push(("threshold".to_owned(), JsonValue::Text("OFF".to_owned())));
    proof {
        assert(field_views_of(fs@) =~= seq![
            ("category"@, Json::Text(c@)),
            ("threshold"@, Json::Text("OFF"@)),
        ]);
    }
    JsonValue::Obj(fs)
}

fn make_safety_settings() -> (r: JsonValue)
    ensures
        r@ == safety_settings_spec(),
{
    let mut arr: Vec<JsonValue> = Vec::new();
    arr.push(make_safety_entry("HARM_CATEGORY_HARASSMENT"));
    arr.push(make_safety_entry("HARM_CATEGORY_HATE_SPEECH"));
    arr.push(make_safety_entry("HARM_CATEGORY_SEXUALLY_EXPLICIT"));
    arr.push(make_safety_entry("HARM_CATEGORY_DANGEROUS_CONTENT"));
    proof {
        assert(views_of(arr@) =~= seq![
            safety_category("HARM_CATEGORY_HARASSMENT"@),
            safety_category("HARM_CATEGORY_HATE_SPEECH"@),
            safety_category("HARM_CATEGORY_SEXUALLY_EXPLICIT"@),
            safety_category("HARM_CATEGORY_DANGEROUS_CONTENT"@),
        ]);
    }
    JsonValue::Arr(arr)
}

fn make_gen_config(request: &OpenAIRequest) -> (r: JsonValue)
    ensures
        r@ == gen_config_spec(request@),
{
    let mut fs: Vec<(String, JsonValue)> = Vec::new();
    let max_tok: i64 = match request.max_tokens {
        Some(t) => t,
        None => 8192,
    };
    fs.push(("maxOutputTokens".to_owned(), JsonValue::Int(max_tok)));
    let temp: String = match &request.temperature {
        Some(t) => t.clone(),
        None => "1.0".to_owned(),
    };
    fs.push(("temperature".to_owned(), JsonValue::Num(temp)));
    let topp: String = match &request.top_p {
        Some(t) => t.clone(),
        None => "1.0".to_owned(),
    };
    fs.push(("topP".to_owned(), JsonValue::Num(topp)));
    let r = JsonValue::Obj(fs);
    proof {
        assert(field_views_of(fs@) =~= fields_of(gen_config_spec(request@)));
    }
    r
}

/// Whether one tool declaration is of the accepted `function` type.
pub open spec fn is_function_tool(t: Json) -> bool {
    has_key(t, "type"@) && lookup(t, "type"@) == Json::Text("function"@)
}

/// The fields of a flat declaration with the wrapper-only keys dropped.
pub open spec fn strip_flat_fields(fs: Seq<(Seq<char>, Json)>) -> Seq<(Seq<char>, Json)>
    decreases fs.len(),
{
    if fs.len() == 0 {
        Seq::empty()
    } else {
        let rest = strip_flat_fields(fs.drop_last());
        let k = fs.last().0;
        if k == "type"@ || k == "strict"@ || k == "additionalProperties"@ {
            rest
        } else {
            rest.push(fs.last())
        }
    }
}

/// A flat declaration without its wrapper-only keys.
pub open spec fn strip_flat(t: Json) -> Json {
    match t {
        Json::Obj(fs) => Json::Obj(strip_flat_fields(fs)),
        other => other,
    }
}

/// A parameters object is given an explicit root type where it has none.
pub open spec fn ensure_obj_type(v: Json) -> Json {
    match v {
        Json::Obj(ps) => if has_key(v, "type"@) {
            v
        } else {
            Json::Obj(ps.push(("type"@, Json::Text("OBJECT"@))))
        },
        other => other,
    }
}

/// One field of a function declaration: the alias rewrite on its name,
/// the schema translation on its parameters, all else untouched.
pub open spec fn decl_field(k: Seq<char>, v: Json) -> (Seq<char>, Json) {
    if k == "name"@ && v == Json::Text("local_shell_call"@) {
        (k, Json::Text("shell"@))
    } else if k == "parameters"@ {
        (k, schema_node_spec(ensure_obj_type(v)))
    } else {
        (k, v)
    }
}

pub open spec fn decl_fields(fs: Seq<(Seq<char>, Json)>) -> Seq<(Seq<char>, Json)>
    decreases fs.len(),
{
    if fs.len() == 0 {
        Seq::empty()
    } else {
        decl_fields(fs.drop_last()).push(decl_field(fs.last().0, fs.last().1))
    }
}

/// The finished declaration built from the function definition.
pub open spec fn decl_body(f: Json) -> Json {
    match f {
        Json::Obj(fs) => Json::Obj(decl_fields(fs)),
        other => other,
    }
}

/// The declaration produced by one tool: the wrapped function object
/// where one is present, else the flat object with wrapper keys dropped.
pub open spec fn decl_of(t: Json) -> Json {
    if has_key(t, "function"@) {
        decl_body(lookup(t, "function"@))
    } else {
        decl_body(strip_flat(t))
    }
}

/// The declarations of the accepted tools, in order.
pub open spec fn decls_of(tools: Seq<Json>) -> Seq<Json>
    decreases tools.len(),
{
    if tools.len() == 0 {
        Seq::empty()
    } else {
        let rest = decls_of(tools.drop_last());
        if is_function_tool(tools.last()) {
            rest.push(decl_of(tools.last()))
        } else {
            rest
        }
    }
}

/// The tools entry wrapping all declarations.
pub open spec fn tools_value(decls: Seq<Json>) -> Json {
    Json::Arr(seq![Json::Obj(seq![("function_declarations"@, Json::Arr(decls))])])
}

fn ensure_obj_type_exec(v: &JsonValue) -> (r: JsonValue)
    ensures
        r@ == ensure_obj_type(v@),
{
    match v {
        JsonValue::Obj(_) => {
            let has_type = match v.obj_get("type") {
                Some(_) => true,
                None => false,
            };
            if has_type {
                v.deep_copy()
            } else {
                v.push_field_val("type", JsonValue::Text("OBJECT".to_owned()))
            }
        },
        _ => v.deep_copy(),
    }
}

#[verifier::loop_isolation(false)]
fn strip_flat_exec(tool: &JsonValue) -> (r: JsonValue)
    ensures
        r@ == strip_flat(tool@),
{
    match tool {
        JsonValue::Obj(fs) => {
            let ghost fsv = field_views_of(fs@);
            let mut out: Vec<(String, JsonValue)> = Vec::new();
            let mut i: usize = 0;
            proof {
                assert(field_views_of(out@) =~= strip_flat_fields(fsv.take(0)));
            }
            while i < fs.len()
                invariant
                    i <= fs.len(),
                    field_views_of(out@) == strip_flat_fields(fsv.take(i as int)),
                decreases fs.len() - i,
            {
                proof {
                    assert(fsv.take(i + 1).drop_last() =~= fsv.take(i as int));
                    assert(fsv.take(i + 1).last() == fsv[i as int]);
                }
                let pair = &fs[i];
                if !(str_eq(pair.0.as_str(), "type") || str_eq(pair.0.as_str(), "strict")
                    || str_eq(pair.0.as_str(), "additionalProperties")) {
                    out.push((pair.0.clone(), pair.1.deep_copy()));
                }
                proof {
                    assert(field_views_of(out@) =~= strip_flat_fields(fsv.take(i + 1)));
                }
                i += 1;
            }
            proof {
                assert(fsv.take(fs.len() as int) =~= fsv);
            }
            JsonValue::Obj(out)
        },
        _ => tool.deep_copy(),
    }
}

#[verifier::loop_isolation(false)]
fn finish_decl(base: &JsonValue) -> (r: JsonValue)
    ensures
        r@ == decl_body(base@),
{
    match base {
        JsonValue::Obj(fs) => {
            let ghost fsv = field_views_of(fs@);
            let mut out: Vec<(String, JsonValue)> = Vec::new();
            let mut i: usize = 0;
            proof {
                assert(field_views_of(out@) =~= decl_fields(fsv.take(0)));
            }
            while i < fs.len()
                invariant
                    i <= fs.len(),
                    field_views_of(out@) == decl_fields(fsv.take(i as int)),
                decreases fs.len() - i,
            {
                proof {
                    assert(fsv.take(i + 1).drop_last() =~= fsv.take(i as int));
                    assert(fsv.take(i + 1).last() == fsv[i as int]);
                }
                let pair = &fs[i];
                let is_shell_alias = str_eq(pair.0.as_str(), "name") && (match &pair.1 {
                    JsonValue::Text(t) => str_eq(t.as_str(), "local_shell_call"),
                    _ => false,
                });
                if is_shell_alias {
                    out.push((pair.0.clone(), JsonValue::Text("shell".to_owned())));
                } else if str_eq(pair.0.as_str(), "parameters") {
                    let ensured = ensure_obj_type_exec(&pair.1);
                    let translated = schema_translate(&ensured);
                    out.push((pair.0.clone(), translated));
                } else {
                    out.push((pair.0.clone(), pair.1.deep_copy()));
                }
                proof {
                    assert(field_views_of(out@) =~= decl_fields(fsv.take(i + 1)));
                }
                i += 1;
            }
            proof {
                assert(fsv.take(fs.len() as int) =~= fsv);
            }
            JsonValue::Obj(out)
        },
        _ => base.deep_copy(),
    }
}

/// Maps the declared tools into the backend's declaration format.
#[verifier::loop_isolation(false)]
pub fn translate_tools(tools: &Vec<JsonValue>) -> (r: Vec<JsonValue>)
    ensures
        views_of(r@) == decls_of(views_of(tools@)),
{
    let ghost tsv = views_of(tools@);
    let mut decls: Vec<JsonValue> = Vec::new();
    let mut i: usize = 0;
    proof {
        assert(views_of(decls@) =~= decls_of(tsv.take(0)));
    }
    while i < tools.len()
        invariant
            i <= tools.len(),
            views_of(decls@) == decls_of(tsv.take(i as int)),
        decreases tools.len() - i,
    {
        proof {
            assert(tsv.take(i + 1).drop_last() =~= tsv.take(i as int));
            assert(tsv.take(i + 1).last() == tsv[i as int]);
        }
        let tool = &tools[i];
        let is_fn = match tool.obj_get("type") {
            Some(tv) => match tv.as_text() {
                Some(ts) => str_eq(ts.as_str(), "function"),
                None => false,
            },
            None => false,
        };
        if is_fn {
            let base: JsonValue = match tool.obj_get("function") {
                Some(f) => f.deep_copy(),
                None => strip_flat_exec(tool),
            };
            let decl = finish_decl(&base);
            decls.push(decl);
        }
        proof {
            assert(views_of(decls@) =~= decls_of(tsv.take(i + 1)));
        }
        i += 1;
    }
    proof {
        assert(tsv.take(tools.len() as int) =~= tsv);
    }
    decls
}

/// The fixed search-tool entry.
pub open spec fn search_tool_entry() -> Json {
    Json::Obj(seq![("googleSearch"@, Json::Obj(Seq::empty()))])
}

/// The envelope body with the fixed search tool added: appended to the
/// tools array where one stands, else set as the only tool.
pub open spec fn with_search_tool(env: Json) -> Json {
    if has_key(env, "tools"@) {
        if lookup(env, "tools"@) is Arr {
            set_field(env, "tools"@, Json::Arr(arr_of(lookup(env, "tools"@)).push(search_tool_entry())))
        } else {
            set_field(env, "tools"@, Json::Arr(seq![search_tool_entry()]))
        }
    } else {
        Json::Obj(fields_of(env).push(("tools"@, Json::Arr(seq![search_tool_entry()]))))
    }
}

fn make_search_tool_entry() -> (r: JsonValue)
    ensures
        r@ == search_tool_entry(),
{
    let mut fs: Vec<(String, JsonValue)> = Vec::new();
    let empty: Vec<(String, JsonValue)> = Vec::new();
    proof {
        assert(field_views_of(empty@) =~= Seq::<(Seq<char>, Json)>::empty());
    }
    fs.push(("googleSearch".to_owned(), JsonValue::Obj(empty)));
    proof {
        assert(field_views_of(fs@) =~= seq![("googleSearch"@, Json::Obj(Seq::empty()))]);
    }
    JsonValue::Obj(fs)
}

/// Adds the fixed search-tool entry to an envelope body.
pub fn inject_google_search_tool(env: &mut JsonValue)
    ensures
        final(env)@ == with_search_tool(old(env)@),
{
    let entry = make_search_tool_entry();
    let current: Option<JsonValue> = match env.obj_get("tools") {
        Some(t) => Some(t.deep_copy()),
        None => None,
    };
    match current {
        Some(t) => {
            match t {
                JsonValue::Arr(mut a) => {
                    let ghost before_elems = views_of(a@);
                    a.push(entry);
                    proof {
                        assert(views_of(a@) =~= before_elems.push(search_tool_entry()));
                    }
                    let newv = JsonValue::Arr(a);
                    let r = env.set_field_val("tools", &newv);
                    *env = r;
                },
                _ => {
                    let mut a: Vec<JsonValue> = Vec::new();
                    a.push(entry);
                    proof {
                        assert(views_of(a@) =~= seq![search_tool_entry()]);
                    }
                    let newv = JsonValue::Arr(a);
                    let r = env.set_field_val("tools", &newv);
                    *env = r;
                },
            }
        },
        None => {
            let mut a: Vec<JsonValue> = Vec::new();
            a.push(entry);
            proof {
                assert(views_of(a@) =~= seq![search_tool_entry()]);
            }
            let r = env.push_field_val("tools", JsonValue::Arr(a));
            *env = r;
        },
    }
}

/// The generation settings without the keys an image-generation model
/// rejects.
pub open spec fn strip_gen_config(gc: Json) -> Json {
    remove_key(remove_key(remove_key(gc, "thinkingConfig"@), "responseMimeType"@), "responseModalities"@)
}

/// The envelope body rewritten for an image-generation model: no tools,
/// no system instruction, and the image settings inside the generation
/// settings.
pub open spec fn strip_for_image(env: Json, ic: Json) -> Json {
    let e1 = remove_key(remove_key(env, "tools"@), "systemInstruction"@);
    let e2 = if has_key(e1, "generationConfig"@) {
        e1
    } else {
        Json::Obj(fields_of(e1).push(("generationConfig"@, Json::Obj(Seq::empty()))))
    };
    let gc = lookup(e2, "generationConfig"@);
    match gc {
        Json::Obj(_) => set_field(
            e2,
            "generationConfig"@,
            Json::Obj(fields_of(strip_gen_config(gc)).push(("imageConfig"@, ic))),
        ),
        _ => e2,
    }
}

/// Rewrites the envelope body for an image-generation model.
fn strip_for_image_exec(env: &JsonValue, ic: JsonValue) -> (r: JsonValue)
    ensures
        r@ == strip_for_image(env@, ic@),
{
    let e1a = env.remove_key_val("tools");
    let e1 = e1a.remove_key_val("systemInstruction");
    let has_gc = match e1.obj_get("generationConfig") {
        Some(_) => true,
        None => false,
    };
    let e2 = if has_gc {
        e1
    } else {
        let empty: Vec<(String, JsonValue)> = Vec::new();
        proof {
            assert(field_views_of(empty@) =~= Seq::<(Seq<char>, Json)>::empty());
        }
        e1.push_field_val("generationConfig", JsonValue::Obj(empty))
    };
    let gc: Option<JsonValue> = match e2.obj_get("generationConfig") {
        Some(g) => Some(g.deep_copy()),
        None => None,
    };
    match gc {
        Some(g) => {
            let g_is_obj = match &g {
                JsonValue::Obj(_) => true,
                _ => false,
            };
            if g_is_obj {
                let g1 = g.remove_key_val("thinkingConfig");
                let g2 = g1.remove_key_val("responseMimeType");
                let g3 = g2.remove_key_val("responseModalities");
                let new_gc = g3.push_field_val("imageConfig", ic);
                e2.set_field_val("generationConfig", &new_gc)
            } else {
                e2
            }
        },
        None => e2,
    }
}

/// The full envelope body before routing metadata.
pub open spec fn inner_request_spec(
    req: ReqModel,
    mapped: Seq<char>,
    sig: Option<Seq<char>>,
    cfg: CfgModel,
) -> Json {
    let folded = fold_contents(req.messages, index_of(req.messages), mapped, sig);
    let base = seq![
        ("contents"@, Json::Arr(folded.0)),
        ("generationConfig"@, gen_config_spec(req)),
        ("safetySettings"@, safety_settings_spec()),
    ];
    let with_si = match folded.1 {
        Some(s) => base.push(("systemInstruction"@, s)),
        None => base,
    };
    let with_tools = match req.tools {
        Some(ts) => if decls_of(ts).len() > 0 {
            with_si.push(("tools"@, tools_value(decls_of(ts))))
        } else {
            with_si
        },
        None => with_si,
    };
    let searched = if cfg.inject_google_search {
        with_search_tool(Json::Obj(with_tools))
    } else {
        Json::Obj(with_tools)
    };
    match cfg.image_config {
        Some(ic) => strip_for_image(searched, ic),
        None => searched,
    }
}

/// The finished envelope, for the fresh request identifier `rid`.
pub open spec fn envelope_spec(
    req: ReqModel,
    project: Seq<char>,
    mapped: Seq<char>,
    cfg: CfgModel,
    sig: Option<Seq<char>>,
    rid: Seq<char>,
) -> Json {
    Json::Obj(
        seq![
            ("project"@, Json::Text(project)),
            ("requestId"@, Json::Text("openai-"@ + rid)),
            ("request"@, inner_request_spec(req, mapped, sig, cfg)),
            ("model"@, Json::Text(cfg.final_model)),
            ("userAgent"@, Json::Text("antigravity-openai"@)),
            ("requestType"@, Json::Text(cfg.request_type)),
        ],
    )
}

/// Translates one request into the backend envelope. The configuration
/// and the stored thought signature are handed in by the caller; the
/// request identifier is fresh on every call, 36 characters after its
/// fixed prefix.
#[verifier::rlimit(60)]
pub fn transform_openai_request(
    request: &OpenAIRequest,
    project_id: &str,
    mapped_model: &str,
    config: &ResolvedConfig,
    thought_signature: &Option<String>,
) -> (r: JsonValue)
    ensures
        exists|rid: Seq<char>|
            rid.len() == 36 && r@ == envelope_spec(
                request@,
                project_id@,
                mapped_model@,
                config@,
                opt_text_view(*thought_signature),
                rid,
            ),
{
    let ghost reqm = request@;
    let ghost sigv = opt_text_view(*thought_signature);
    let index = build_tool_call_index(&request.messages);
    let converted = convert_messages(&request.messages, &index, mapped_model, thought_signature);
    let contents = converted.0;
    let system_instruction = converted.1;
    let gen_config = make_gen_config(request);
    let safety = make_safety_settings();
    let ghost folded = fold_contents(reqm.messages, index_of(reqm.messages), mapped_model@, sigv);

    let mut in_fs: Vec<(String, JsonValue)> = Vec::new();
    in_fs.push(("contents".to_owned(), JsonValue::Arr(contents)));
    in_fs.push(("generationConfig".to_owned(), gen_config));
    in_fs.push(("safetySettings".to_owned(), safety));
    let ghost base = seq![
        ("contents"@, Json::Arr(folded.0)),
        ("generationConfig"@, gen_config_spec(reqm)),
        ("safetySettings"@, safety_settings_spec()),
    ];
    proof {
        assert(field_views_of(in_fs@) =~= base);
    }
    match system_instruction {
        Some(si) => {
            in_fs.push(("systemInstruction".to_owned(), si));
        },
        None => {},
    }
    let ghost with_si = match folded.1 {
        Some(s) => base.push(("systemInstruction"@, s)),
        None => base,
    };
    proof {
        assert(field_views_of(in_fs@) =~= with_si);
    }
    match &request.tools {
        Some(ts) => {
            let decls = translate_tools(ts);
            if decls.len() > 0 {
                let mut wrap_fs: Vec<(String, JsonValue)> = Vec::new();
                wrap_fs.push(("function_declarations".to_owned(), JsonValue::Arr(decls)));
                let mut tools_arr: Vec<JsonValue> = Vec::new();
                let wrapped = JsonValue::Obj(wrap_fs);
                proof {
                    assert(field_views_of(wrap_fs@) =~= seq![
                        ("function_declarations"@, Json::Arr(decls_of(views_of(ts@)))),
                    ]);
                }
                tools_arr.push(wrapped);
                let tv = JsonValue::Arr(tools_arr);
                proof {
                    assert(tv@ =~= tools_value(decls_of(views_of(ts@)))) by {
                        assert(views_of(tools_arr@) =~= seq![
                            Json::Obj(
                                seq![("function_declarations"@, Json::Arr(decls_of(views_of(ts@))))],
                            ),
                        ]);
                    }
                }
                in_fs.push(("tools".to_owned(), tv));
            }
        },
        None => {},
    }
    let ghost with_tools = match reqm.tools {
        Some(ts) => if decls_of(ts).len() > 0 {
            with_si.push(("tools"@, tools_value(decls_of(ts))))
        } else {
            with_si
        },
        None => with_si,
    };
    proof {
        assert(field_views_of(in_fs@) =~= with_tools);
    }
    let mut inner = JsonValue::Obj(in_fs);
    if config.inject_google_search {
        inject_google_search_tool(&mut inner);
    }
    let ghost searched = if config@.inject_google_search {
        with_search_tool(Json::Obj(with_tools))
    } else {
        Json::Obj(with_tools)
    };
    proof {
        assert(inner@ == searched);
    }
    let final_inner = match &config.image_config {
        Some(ic) => strip_for_image_exec(&inner, ic.deep_copy()),
        None => inner,
    };
    proof {
        assert(final_inner@ == inner_request_spec(reqm, mapped_model@, sigv, config@));
    }

    let uuid = new_uuid_string();
    let ghost rid = uuid@;
    let request_id = "openai-".to_owned().concat(uuid.as_str());
    let mut fs: Vec<(String, JsonValue)> = Vec::new();
    fs.push(("project".to_owned(), JsonValue::Text(project_id.to_owned())));
    fs.push(("requestId".to_owned(), JsonValue::Text(request_id)));
    fs.push(("request".to_owned(), final_inner));
    fs.push(("model".to_owned(), JsonValue::Text(config.final_model.clone())));
    fs.push(("userAgent".to_owned(), JsonValue::Text("antigravity-openai".to_owned())));
    fs.push(("requestType".to_owned(), JsonValue::Text(config.request_type.clone())));
    let r = JsonValue::Obj(fs);
    proof {
        assert(field_views_of(fs@) =~= fields_of(
            envelope_spec(reqm, project_id@, mapped_model@, config@, sigv, rid),
        ));
        assert(r@ == envelope_spec(reqm, project_id@, mapped_model@, config@, sigv, rid));
    }
    r
}

} // verus!
