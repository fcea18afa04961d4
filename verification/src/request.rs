use vstd::prelude::*;
use crate::json::{Json, JsonValue, views_of};

verus! {

/// One incoming chat message.
pub struct OpenAIMessage {
    pub role: String,
    pub content: Option<JsonValue>,
    pub tool_calls: Option<JsonValue>,
    pub tool_call_id: Option<String>,
    pub name: Option<String>,
}

/// Model of a message.
pub struct MsgModel {
    pub role: Seq<char>,
    pub content: Option<Json>,
    pub tool_calls: Option<Json>,
    pub tool_call_id: Option<Seq<char>>,
    pub name: Option<Seq<char>>,
}

pub open spec fn opt_json_view(o: Option<JsonValue>) -> Option<Json> {
    match o {
        Some(v) => Some(v@),
        None => None,
    }
}

pub open spec fn opt_text_view(o: Option<String>) -> Option<Seq<char>> {
    match o {
        Some(s) => Some(s@),
        None => None,
    }
}

impl View for OpenAIMessage {
    type V = MsgModel;

    open spec fn view(&self) -> MsgModel {
        MsgModel {
            role: self.role@,
            content: opt_json_view(self.content),
            tool_calls: opt_json_view(self.tool_calls),
            tool_call_id: opt_text_view(self.tool_call_id),
            name: opt_text_view(self.name),
        }
    }
}

pub open spec fn msg_views_of(s: Seq<OpenAIMessage>) -> Seq<MsgModel> {
    Seq::new(
        s.len(),
        |i: int| if 0 <= i < s.len() {
            s[i]@
        } else {
            MsgModel {
                role: Seq::empty(),
                content: None,
                tool_calls: None,
                tool_call_id: None,
                name: None,
            }
        },
    )
}

/// The incoming chat-completion request.
pub struct OpenAIRequest {
    pub model: String,
    pub messages: Vec<OpenAIMessage>,
    pub tools: Option<Vec<JsonValue>>,
    /// Output-token cap; absent means the default applies.
    pub max_tokens: Option<i64>,
    /// Decimal text of the sampling temperature, e.g. `"0.7"`.
    pub temperature: Option<String>,
    /// Decimal text of the nucleus-sampling bound.
    pub top_p: Option<String>,
    pub stream: bool,
}

/// Model of a request.
pub struct ReqModel {
    pub model: Seq<char>,
    pub messages: Seq<MsgModel>,
    pub tools: Option<Seq<Json>>,
    pub max_tokens: Option<int>,
    pub temperature: Option<Seq<char>>,
    pub top_p: Option<Seq<char>>,
    pub stream: bool,
}

impl View for OpenAIRequest {
    type V = ReqModel;

    open spec fn view(&self) -> ReqModel {
        ReqModel {
            model: self.model@,
            messages: msg_views_of(self.messages@),
            tools: match self.tools {
                Some(ts) => Some(views_of(ts@)),
                None => None,
            },
            max_tokens: match self.max_tokens {
                Some(t) => Some(t as int),
                None => None,
            },
            temperature: opt_text_view(self.temperature),
            top_p: opt_text_view(self.top_p),
            stream: self.stream,
        }
    }
}

/// What the configuration resolver reports for one request: the backend
/// model identifier, the request type, whether the fixed search tool is
/// to be added, and the image-generation settings where that model
/// family applies.
pub struct ResolvedConfig {
    pub final_model: String,
    pub request_type: String,
    pub inject_google_search: bool,
    pub image_config: Option<JsonValue>,
}

/// Model of a resolved configuration.
pub struct CfgModel {
    pub final_model: Seq<char>,
    pub request_type: Seq<char>,
    pub inject_google_search: bool,
    pub image_config: Option<Json>,
}

impl View for ResolvedConfig {
    type V = CfgModel;

    open spec fn view(&self) -> CfgModel {
        CfgModel {
            final_model: self.final_model@,
            request_type: self.request_type@,
            inject_google_search: self.inject_google_search,
            image_config: opt_json_view(self.image_config),
        }
    }
}

} // verus!
