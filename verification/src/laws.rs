use vstd::prelude::*;
use crate::json::{
    Json, has_key, lookup, fields_of, lemma_lookup_at, lemma_remove_key_removes,
    lemma_remove_key_other, lemma_set_field_sets, lemma_set_field_other, lemma_push_other,
    lemma_push_same,
};
use crate::request::{MsgModel, ReqModel, CfgModel};
use crate::indexer::{alias_name, index_lookup};
use crate::convert::{
    mapped_role, content_entry, fold_contents, system_instruction_of, plain_parts, jtext,
    user_reminder, tool_call_parts, parts_for_call, func_call_part, tool_response_parts,
    reasoning_family_marker, msg_parts, function_response_fields,
};
use crate::text::contains_sub;
use crate::envelope::{inner_request_spec, gen_config_spec, with_search_tool, decls_of, tools_value, safety_settings_spec, decl_field};
use crate::schema::{schema_fields, whitelisted};

verus! {

/// Role totality: the mapped role of any message is `model` for the
/// `assistant` role and `user` for every other role; no other value
/// occurs. System messages never reach the mapping: they contribute no
/// content entry at all (see `lemma_system_message_excluded`).
pub proof fn lemma_role_totality(role: Seq<char>)
    ensures
        mapped_role(role) == "model"@ || mapped_role(role) == "user"@,
        role == "assistant"@ ==> mapped_role(role) == "model"@,
        role != "assistant"@ ==> mapped_role(role) == "user"@,
{
}

/// Role totality, excluded case: a system message contributes no
/// content entry; it sets the system instruction instead.
pub proof fn lemma_system_message_excluded(
    m: MsgModel,
    idx: Seq<(Seq<char>, Seq<char>)>,
    mapped: Seq<char>,
    sig: Option<Seq<char>>,
)
    requires
        m.role == "system"@,
    ensures
        fold_contents(seq![m], idx, mapped, sig).0.len() == 0,
        fold_contents(seq![m], idx, mapped, sig).1 == Some(system_instruction_of(m)),
{
    assert(seq![m].drop_last() =~= Seq::<MsgModel>::empty());
    assert(seq![m].last() == m);
    let rest = fold_contents(seq![m].drop_last(), idx, mapped, sig);
    assert(seq![m].drop_last().len() == 0);
    assert(rest.0.len() == 0);
}

/// Every content entry that is emitted carries the mapped role.
pub proof fn lemma_entry_role(
    m: MsgModel,
    idx: Seq<(Seq<char>, Seq<char>)>,
    mapped: Seq<char>,
    sig: Option<Seq<char>>,
)
    ensures
        match content_entry(m, idx, mapped, sig) {
            Some(e) => lookup(e, "role"@) == Json::Text(mapped_role(m.role)),
            None => true,
        },
{
    reveal_strlit("role");
    assert("role"@.len() == 4);
    reveal_strlit("parts");
    assert("parts"@.len() == 5);
    match content_entry(m, idx, mapped, sig) {
        Some(e) => {
            let parts = msg_parts(m, idx, mapped, sig);
            let fs = fields_of(e);
            assert(fs =~= seq![
                ("role"@, Json::Text(mapped_role(m.role))),
                ("parts"@, Json::Arr(parts)),
            ]);
            assert(fs[1].0 != "role"@);
            lemma_lookup_at(fs, "role"@, 0);
        },
        None => {},
    }
}

/// Empty-part dropping: a message whose content is the empty string and
/// that has no tool calls produces no content entry. (A tool or
/// function message is out: it always produces its functionResponse
/// part, and a system message produces no entry of any content.)
pub proof fn lemma_empty_plain_message_dropped(
    m: MsgModel,
    idx: Seq<(Seq<char>, Seq<char>)>,
    mapped: Seq<char>,
    sig: Option<Seq<char>>,
)
    requires
        m.tool_calls is None,
        m.content == Some(Json::Text(Seq::<char>::empty())),
        m.role != "tool"@,
        m.role != "function"@,
    ensures
        content_entry(m, idx, mapped, sig) is None,
{
}

/// Alias invariance: the one rewritten function name is
/// `local_shell_call`; every other name passes through unchanged. The
/// rewrite is applied at every place a function name appears: when the
/// index is built, when a call part is emitted, when a response name is
/// resolved, and on a declaration.
pub proof fn lemma_alias_rewrite(n: Seq<char>)
    ensures
        alias_name("local_shell_call"@) == "shell"@,
        n != "local_shell_call"@ ==> alias_name(n) == n,
        decl_field("name"@, Json::Text("local_shell_call"@)) == ("name"@, Json::Text("shell"@)),
        n != "local_shell_call"@ ==> decl_field("name"@, Json::Text(n)) == ("name"@, Json::Text(n)),
{
    reveal_strlit("name");
    assert("name"@.len() == 4);
    reveal_strlit("parameters");
    assert("parameters"@.len() == 10);
}

/// First-call-only signature: of an assistant message with two tool
/// calls, converted while a signature is stored, the first emitted
/// functionCall part carries that signature and the second carries no
/// such field. (Stated for a message without leading text and for a
/// model family without placeholder reasoning parts, so that the two
/// functionCall parts are the only parts.)
pub proof fn lemma_first_call_only_signature(
    calls: Seq<Json>,
    text: Seq<char>,
    mapped: Seq<char>,
    sig: Seq<char>,
)
    requires
        calls.len() == 2,
        has_key(calls[0], "function"@),
        has_key(calls[1], "function"@),
        text.len() == 0,
        !contains_sub(mapped, reasoning_family_marker()),
    ensures
        tool_call_parts(calls, text, mapped, Some(sig)).len() == 2,
        tool_call_parts(calls, text, mapped, Some(sig))[0] == func_call_part(
            lookup(calls[0], "function"@),
            0,
            Some(sig),
        ),
        tool_call_parts(calls, text, mapped, Some(sig))[1] == func_call_part(
            lookup(calls[1], "function"@),
            1,
            Some(sig),
        ),
        has_key(tool_call_parts(calls, text, mapped, Some(sig))[0], "thoughtSignature"@),
        lookup(tool_call_parts(calls, text, mapped, Some(sig))[0], "thoughtSignature"@)
            == Json::Text(sig),
        !has_key(tool_call_parts(calls, text, mapped, Some(sig))[1], "thoughtSignature"@),
{
    reveal_strlit("functionCall");
    assert("functionCall"@.len() == 12);
    reveal_strlit("thoughtSignature");
    assert("thoughtSignature"@.len() == 16);
    let one = calls.drop_last();
    assert(one.drop_last() =~= Seq::<Json>::empty());
    assert(one.last() == calls[0]);
    assert(calls.last() == calls[1]);
    let p0 = func_call_part(lookup(calls[0], "function"@), 0, Some(sig));
    let p1 = func_call_part(lookup(calls[1], "function"@), 1, Some(sig));
    assert(one.len() == 1);
    assert(tool_call_parts(one.drop_last(), text, mapped, Some(sig)) =~= Seq::<Json>::empty());
    assert(parts_for_call(calls[0], 0, text, mapped, Some(sig)) =~= seq![p0]);
    assert(parts_for_call(calls[1], 1, text, mapped, Some(sig)) =~= seq![p1]);
    assert(tool_call_parts(one, text, mapped, Some(sig)) =~= seq![p0]);
    assert(tool_call_parts(calls, text, mapped, Some(sig)) =~= seq![p0, p1]);
    assert(fields_of(p0).last() == ("thoughtSignature"@, Json::Text(sig)));
    assert(fields_of(p1).drop_last() =~= Seq::<(Seq<char>, Json)>::empty());
    assert(!has_key(Json::Obj(fields_of(p1).drop_last()), "thoughtSignature"@));
}

/// Tool-id resolution precedence: where the message carries a tool-call
/// identifier that the index resolves, the emitted functionResponse
/// carries the indexed name, whatever the message's own `name` says.
pub proof fn lemma_tool_id_resolution_precedence(
    m: MsgModel,
    idx: Seq<(Seq<char>, Seq<char>)>,
    tid: Seq<char>,
    resolved: Seq<char>,
)
    requires
        m.tool_call_id == Some(tid),
        index_lookup(idx, tid) == Some(resolved),
    ensures
        tool_response_parts(m, idx).len() == 1,
        lookup(
            lookup(tool_response_parts(m, idx)[0], "functionResponse"@),
            "name"@,
        ) == Json::Text(resolved),
{
    reveal_strlit("functionResponse");
    assert("functionResponse"@.len() == 16);
    reveal_strlit("name");
    assert("name"@.len() == 4);
    reveal_strlit("id");
    assert("id"@.len() == 2);
    reveal_strlit("response");
    assert("response"@.len() == 8);
    let part = tool_response_parts(m, idx)[0];
    let inner = lookup(part, "functionResponse"@);
    assert(fields_of(part).last() == ("functionResponse"@, inner));
    let infs = fields_of(inner);
    assert(infs =~= function_response_fields(m, idx));
    assert(infs[1].0 != "name"@);
    assert(infs[2].0 != "name"@);
    lemma_lookup_at(infs, "name"@, 0);
}

/// Reminder suffix: a non-empty plain-string message mapped to the user
/// role becomes its text with the fixed reminder appended; mapped to
/// the model role it passes through unchanged.
pub proof fn lemma_user_reminder_suffix(t: Seq<char>)
    requires
        t.len() > 0,
    ensures
        plain_parts(Some(Json::Text(t)), true) == seq![jtext(t + user_reminder())],
        plain_parts(Some(Json::Text(t)), false) == seq![jtext(t)],
{
}

/// Reminder suffix by role: for a plain text message, an
/// assistant message passes its text through while any other
/// non-system, non-tool role gets the reminder appended.
pub proof fn lemma_reminder_by_role(
    m: MsgModel,
    idx: Seq<(Seq<char>, Seq<char>)>,
    mapped: Seq<char>,
    sig: Option<Seq<char>>,
    t: Seq<char>,
)
    requires
        m.tool_calls is None,
        m.role != "tool"@,
        m.role != "function"@,
        m.content == Some(Json::Text(t)),
        t.len() > 0,
    ensures
        m.role == "assistant"@ ==> msg_parts(m, idx, mapped, sig) == seq![jtext(t)],
        m.role != "assistant"@ ==> msg_parts(m, idx, mapped, sig) == seq![
            jtext(t + user_reminder()),
        ],
{
    reveal_strlit("model");
    assert("model"@.len() == 5);
    reveal_strlit("user");
    assert("user"@.len() == 4);
}

/// Image-config stripping: where the configuration carries image
/// settings, the envelope body has no tools and no system instruction,
/// and its generation settings carry exactly those image settings.
pub proof fn lemma_image_config_strips(
    req: ReqModel,
    mapped: Seq<char>,
    sig: Option<Seq<char>>,
    cfg: CfgModel,
    ic: Json,
)
    requires
        cfg.image_config == Some(ic),
    ensures
        !has_key(inner_request_spec(req, mapped, sig, cfg), "tools"@),
        !has_key(inner_request_spec(req, mapped, sig, cfg), "systemInstruction"@),
        has_key(inner_request_spec(req, mapped, sig, cfg), "generationConfig"@),
        lookup(
            lookup(inner_request_spec(req, mapped, sig, cfg), "generationConfig"@),
            "imageConfig"@,
        ) == ic,
{
    reveal_strlit("contents");
    assert("contents"@.len() == 8);
    reveal_strlit("generationConfig");
    assert("generationConfig"@.len() == 16);
    reveal_strlit("safetySettings");
    assert("safetySettings"@.len() == 14);
    reveal_strlit("systemInstruction");
    assert("systemInstruction"@.len() == 17);
    reveal_strlit("tools");
    assert("tools"@.len() == 5);
    reveal_strlit("thinkingConfig");
    assert("thinkingConfig"@.len() == 14);
    reveal_strlit("responseMimeType");
    assert("responseMimeType"@.len() == 16);
    reveal_strlit("responseModalities");
    assert("responseModalities"@.len() == 18);
    reveal_strlit("imageConfig");
    assert("imageConfig"@.len() == 11);
    let folded = fold_contents(req.messages, crate::indexer::index_of(req.messages), mapped, sig);
    let base = seq![
        ("contents"@, Json::Arr(folded.0)),
        ("generationConfig"@, gen_config_spec(req)),
        ("safetySettings"@, safety_settings_spec()),
    ];
    let with_si = match folded.1 {
        Some(s) => base.push(("systemInstruction"@, s)),
        None => base,
    };
    let with_tools = match req.tools {
        Some(ts) => if decls_of(ts).len() > 0 {
            with_si.push(("tools"@, tools_value(decls_of(ts))))
        } else {
            with_si
        },
        None => with_si,
    };
    // the generation settings stand in the base fields
    lemma_lookup_at(base, "generationConfig"@, 1);
    match folded.1 {
        Some(s) => {
            lemma_push_other(base, ("systemInstruction"@, s), "generationConfig"@);
        },
        None => {},
    }
    match req.tools {
        Some(ts) => {
            if decls_of(ts).len() > 0 {
                lemma_push_other(with_si, ("tools"@, tools_value(decls_of(ts))), "generationConfig"@);
            }
        },
        None => {},
    }
    assert(has_key(Json::Obj(with_tools), "generationConfig"@));
    assert(lookup(Json::Obj(with_tools), "generationConfig"@) == gen_config_spec(req));
    // the search tool, where injected, leaves them alone
    let searched = if cfg.inject_google_search {
        with_search_tool(Json::Obj(with_tools))
    } else {
        Json::Obj(with_tools)
    };
    if cfg.inject_google_search {
        let env0 = Json::Obj(with_tools);
        if has_key(env0, "tools"@) {
            let newv = if lookup(env0, "tools"@) is Arr {
                Json::Arr(crate::indexer::arr_of(lookup(env0, "tools"@)).push(
                    crate::envelope::search_tool_entry(),
                ))
            } else {
                Json::Arr(seq![crate::envelope::search_tool_entry()])
            };
            assert(searched == crate::json::set_field(env0, "tools"@, newv));
            lemma_set_field_other(with_tools, "tools"@, newv, "generationConfig"@);
            assert(lookup(searched, "generationConfig"@) == gen_config_spec(req));
        } else {
            let newv = Json::Arr(seq![crate::envelope::search_tool_entry()]);
            assert(searched == Json::Obj(with_tools.push(("tools"@, newv))));
            lemma_push_other(with_tools, ("tools"@, newv), "generationConfig"@);
            assert(lookup(searched, "generationConfig"@) == gen_config_spec(req));
        }
    }
    assert(has_key(searched, "generationConfig"@));
    assert(lookup(searched, "generationConfig"@) == gen_config_spec(req));
    // stripping removes the two keys and installs the image settings
    let e1a = crate::json::remove_key(searched, "tools"@);
    let e1 = crate::json::remove_key(e1a, "systemInstruction"@);
    lemma_remove_key_removes(fields_of(searched), "tools"@);
    lemma_remove_key_other(fields_of(e1a), "systemInstruction"@, "tools"@);
    lemma_remove_key_removes(fields_of(e1a), "systemInstruction"@);
    lemma_remove_key_other(fields_of(searched), "tools"@, "generationConfig"@);
    lemma_remove_key_other(fields_of(e1a), "systemInstruction"@, "generationConfig"@);
    assert(!has_key(e1, "tools"@));
    assert(!has_key(e1, "systemInstruction"@));
    assert(has_key(e1, "generationConfig"@));
    let gc = lookup(e1, "generationConfig"@);
    assert(gc == gen_config_spec(req));
    let stripped = crate::envelope::strip_gen_config(gc);
    let new_gc = Json::Obj(fields_of(stripped).push(("imageConfig"@, ic)));
    lemma_set_field_sets(fields_of(e1), "generationConfig"@, new_gc);
    lemma_set_field_other(fields_of(e1), "generationConfig"@, new_gc, "tools"@);
    lemma_set_field_other(fields_of(e1), "generationConfig"@, new_gc, "systemInstruction"@);
    lemma_push_same(fields_of(stripped), "imageConfig"@, ic);
    assert(inner_request_spec(req, mapped, sig, cfg) == crate::json::set_field(
        e1,
        "generationConfig"@,
        new_gc,
    ));
}

/// Schema whitelist: every field of a translated schema object carries
/// a whitelisted key; every other key has been dropped.
pub proof fn lemma_schema_whitelist(fs: Seq<(Seq<char>, Json)>)
    ensures
        forall|i: int|
            0 <= i < schema_fields(fs).len() ==> whitelisted(#[trigger] schema_fields(fs)[i].0),
    decreases fs.len(),
{
    if fs.len() > 0 {
        lemma_schema_whitelist(fs.drop_last());
        let out = schema_fields(fs);
        let rest = schema_fields(fs.drop_last());
        if whitelisted(fs.last().0) {
            assert(out.drop_last() == rest);
            assert(forall|i: int| 0 <= i < out.len() - 1 ==> out[i] == rest[i]);
            assert(out.last().0 == fs.last().0);
        }
    }
}

} // verus!
