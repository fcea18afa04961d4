use vstd::prelude::*;
use crate::json::{Json, JsonValue, has_key, lookup, str_eq};
use crate::request::{MsgModel, OpenAIMessage, msg_views_of};

verus! {

/// Rewrites the one function-name alias that the backend does not accept.
pub open spec fn alias_name(n: Seq<char>) -> Seq<char> {
    if n == "local_shell_call"@ {
        "shell"@
    } else {
        n
    }
}

/// Executable form of the alias rewrite.
pub fn alias_string(n: &str) -> (r: String)
    ensures
        r@ == alias_name(n@),
{
    if str_eq(n, "local_shell_call") {
        "shell".to_owned()
    } else {
        n.to_owned()
    }
}

/// The elements of an array node; any other node carries none.
pub open spec fn arr_of(j: Json) -> Seq<Json> {
    match j {
        Json::Arr(a) => a,
        _ => Seq::empty(),
    }
}

/// The characters of a text node; any other node carries none.
pub open spec fn text_of(j: Json) -> Seq<char> {
    match j {
        Json::Text(t) => t,
        _ => Seq::empty(),
    }
}

/// The identifier-to-name pair contributed by one tool call: present
/// only where the call carries a textual `id`, a `function` object and
/// a textual `function.name`; the name is stored rewritten.
pub open spec fn entry_of_call(c: Json) -> Seq<(Seq<char>, Seq<char>)> {
    if has_key(c, "id"@) && lookup(c, "id"@) is Text && has_key(c, "function"@)
        && has_key(lookup(c, "function"@), "name"@)
        && lookup(lookup(c, "function"@), "name"@) is Text {
        seq![
            (
                text_of(lookup(c, "id"@)),
                alias_name(text_of(lookup(lookup(c, "function"@), "name"@))),
            ),
        ]
    } else {
        Seq::empty()
    }
}

/// The pairs contributed by one list of tool calls, in call order.
pub open spec fn calls_entries(calls: Seq<Json>) -> Seq<(Seq<char>, Seq<char>)>
    decreases calls.len(),
{
    if calls.len() == 0 {
        Seq::empty()
    } else {
        calls_entries(calls.drop_last()) + entry_of_call(calls.last())
    }
}

/// The pairs contributed by one message: none unless its tool calls
/// form an array.
pub open spec fn msg_entries(m: MsgModel) -> Seq<(Seq<char>, Seq<char>)> {
    match m.tool_calls {
        Some(tc) => calls_entries(arr_of(tc)),
        None => Seq::empty(),
    }
}

/// Every pair found in the message list, in message order.
pub open spec fn index_of(msgs: Seq<MsgModel>) -> Seq<(Seq<char>, Seq<char>)>
    decreases msgs.len(),
{
    if msgs.len() == 0 {
        Seq::empty()
    } else {
        index_of(msgs.drop_last()) + msg_entries(msgs.last())
    }
}

/// The name stored under an identifier; where several tool calls share
/// one identifier the last entry wins, as repeated map insertion would.
pub open spec fn index_lookup(idx: Seq<(Seq<char>, Seq<char>)>, id: Seq<char>) -> Option<Seq<char>>
    decreases idx.len(),
{
    if idx.len() == 0 {
        None
    } else if idx.last().0 == id {
        Some(idx.last().1)
    } else {
        index_lookup(idx.drop_last(), id)
    }
}

/// The mapping from tool-call identifier to resolved function name,
/// rebuilt from one request's messages.
pub struct ToolCallIndex {
    pub entries: Vec<(String, String)>,
}

pub open spec fn pair_views_of(s: Seq<(String, String)>) -> Seq<(Seq<char>, Seq<char>)> {
    Seq::new(
        s.len(),
        |i: int| if 0 <= i < s.len() {
            (s[i].0@, s[i].1@)
        } else {
            (Seq::<char>::empty(), Seq::<char>::empty())
        },
    )
}

impl View for ToolCallIndex {
    type V = Seq<(Seq<char>, Seq<char>)>;

    open spec fn view(&self) -> Seq<(Seq<char>, Seq<char>)> {
        pair_views_of(self.entries@)
    }
}

impl ToolCallIndex {
    /// The name stored under this identifier, where one is stored.
    #[verifier::loop_isolation(false)]
    pub fn get(&self, id: &str) -> (r: Option<&String>)
        ensures
            match r {
                Some(s) => index_lookup(self@, id@) == Some(s@),
                None => index_lookup(self@, id@) is None,
            },
    {
        let mut i: usize = self.entries.len();
        proof {
            assert(self@.take(i as int) =~= self@);
        }
        while i > 0
            invariant
                i <= self.entries.len(),
                index_lookup(self@, id@) == index_lookup(self@.take(i as int), id@),
            decreases i,
        {
            proof {
                assert(self@.take(i as int).last() == self@[i - 1]);
                assert(self@.take(i as int).drop_last() =~= self@.take(i - 1));
            }
            if str_eq(self.entries[i - 1].0.as_str(), id) {
                return Some(&self.entries[i - 1].1);
            }
            i -= 1;
        }
        None
    }
}

/// Pre-scans the messages and records, for every well-formed tool call,
/// its identifier and its rewritten function name.
#[verifier::loop_isolation(false)]
pub fn build_tool_call_index(messages: &Vec<OpenAIMessage>) -> (r: ToolCallIndex)
    ensures
        r@ == index_of(msg_views_of(messages@)),
{
    let mut entries: Vec<(String, String)> = Vec::new();
    let ghost msgs = msg_views_of(messages@);
    let mut i: usize = 0;
    proof {
        assert(index_of(msgs.take(0)) =~= pair_views_of(entries@));
    }
    while i < messages.len()
        invariant
            i <= messages.len(),
            pair_views_of(entries@) == index_of(msgs.take(i as int)),
        decreases messages.len() - i,
    {
        proof {
            assert(msgs.take(i + 1).drop_last() =~= msgs.take(i as int));
            assert(msgs.take(i + 1).last() == msgs[i as int]);
        }
        let msg = &messages[i];
        match &msg.tool_calls {
            Some(tc) => {
                match tc {
                    JsonValue::Arr(calls) => {
                        let ghost cs = arr_of(tc@);
                        let mut k: usize = 0;
                        proof {
                            assert(cs.take(0) =~= Seq::<Json>::empty());
                            assert(pair_views_of(entries@) + calls_entries(cs.take(0))
                                =~= pair_views_of(entries@));
                        }
                        while k < calls.len()
                            invariant
                                k <= calls.len(),
                                pair_views_of(entries@) == index_of(msgs.take(i as int))
                                    + calls_entries(cs.take(k as int)),
                            decreases calls.len() - k,
                        {
                            proof {
                                assert(cs.take(k + 1).drop_last() =~= cs.take(k as int));
                                assert(cs.take(k + 1).last() == cs[k as int]);
                            }
                            let call = &calls[k];
                            let ghost before = pair_views_of(entries@);
                            match call.obj_get("id") {
                                Some(idv) => match idv.as_text() {
                                    Some(id) => match call.obj_get("function") {
                                        Some(func) => match func.obj_get("name") {
                                            Some(namev) => match namev.as_text() {
                                                Some(name) => {
                                                    let resolved = alias_string(name.as_str());
                                                    entries.push((id.clone(), resolved));
                                                    proof {
                                                        assert(pair_views_of(entries@)
                                                            =~= before + entry_of_call(cs[k as int]));
                                                    }
                                                },
                                                None => {},
                                            },
                                            None => {},
                                        },
                                        None => {},
                                    },
                                    None => {},
                                },
                                None => {},
                            }
                            proof {
                                assert(pair_views_of(entries@)
                                    =~= index_of(msgs.take(i as int)) + calls_entries(cs.take(k + 1)));
                            }
                            k += 1;
                        }
                        proof {
                            assert(cs.take(calls.len() as int) =~= cs);
                        }
                    },
                    _ => {},
                }
            },
            None => {},
        }
        proof {
            assert(pair_views_of(entries@) =~= index_of(msgs.take(i + 1)));
        }
        i += 1;
    }
    proof {
        assert(msgs.take(messages.len() as int) =~= msgs);
    }
    ToolCallIndex { entries }
}

} // verus!
