use vstd::prelude::*;
use crate::json::{Json, JsonValue, field_views_of, views_of, has_key, lookup, str_eq};
use crate::indexer::text_of;
use crate::outside::{upper_of, uppercase_str};

verus! {

/// The schema keys the backend accepts; every other key is dropped.
pub open spec fn whitelisted(k: Seq<char>) -> bool {
    k == "type"@ || k == "description"@ || k == "properties"@ || k == "required"@
        || k == "items"@ || k == "enum"@ || k == "format"@ || k == "nullable"@
}

/// Executable form of `whitelisted`.
pub fn whitelisted_str(k: &str) -> (r: bool)
    ensures
        r == whitelisted(k@),
{
    str_eq(k, "type") || str_eq(k, "description") || str_eq(k, "properties")
        || str_eq(k, "required") || str_eq(k, "items") || str_eq(k, "enum")
        || str_eq(k, "format") || str_eq(k, "nullable")
}

/// One JSON-schema node translated for the backend: an object keeps its
/// whitelisted keys in order, its `type` text uppercased, its
/// `properties` values and its `items` node translated in turn; any
/// other node passes through unchanged.
pub open spec fn schema_node_spec(j: Json) -> Json
    decreases j,
{
    match j {
        Json::Obj(fs) => Json::Obj(schema_fields(fs)),
        other => other,
    }
}

/// The translated fields of one schema object.
pub open spec fn schema_fields(fs: Seq<(Seq<char>, Json)>) -> Seq<(Seq<char>, Json)>
    decreases fs,
{
    if fs.len() == 0 {
        Seq::empty()
    } else {
        let rest = schema_fields(fs.drop_last());
        let k = fs.last().0;
        let v = fs.last().1;
        if !whitelisted(k) {
            rest
        } else if k == "type"@ {
            rest.push((k, if v is Text { Json::Text(upper_of(text_of(v))) } else { v }))
        } else if k == "properties"@ {
            rest.push(
                (
                    k,
                    match v {
                        Json::Obj(ps) => Json::Obj(props_fields(ps)),
                        other => other,
                    },
                ),
            )
        } else if k == "items"@ {
            rest.push((k, schema_node_spec(v)))
        } else {
            rest.push((k, v))
        }
    }
}

/// The fields of a `properties` object, each value translated.
pub open spec fn props_fields(ps: Seq<(Seq<char>, Json)>) -> Seq<(Seq<char>, Json)>
    decreases ps,
{
    if ps.len() == 0 {
        Seq::empty()
    } else {
        props_fields(ps.drop_last()).push((ps.last().0, schema_node_spec(ps.last().1)))
    }
}

/// Translates one schema node.
#[verifier::loop_isolation(false)]
pub fn schema_translate(v: &JsonValue) -> (r: JsonValue)
    ensures
        r@ == schema_node_spec(v@),
    decreases v,
{
    match v {
        JsonValue::Obj(fields) => {
            let ghost fsv = field_views_of(fields@);
            let mut out: Vec<(String, JsonValue)> = Vec::new();
            let mut i: usize = 0;
            proof {
                assert(field_views_of(out@) =~= schema_fields(fsv.take(0)));
            }
            while i < fields.len()
                invariant
                    i <= fields.len(),
                    field_views_of(out@) == schema_fields(fsv.take(i as int)),
                decreases fields.len() - i,
            {
                proof {
                    assert(fsv.take(i + 1).drop_last() =~= fsv.take(i as int));
                    assert(fsv.take(i + 1).last() == fsv[i as int]);
                    assert(decreases_to!(*v => *fields));
                    assert(decreases_to!(*fields => fields@[i as int]));
                    assert(decreases_to!(fields@[i as int] => fields@[i as int].1));
                }
                let key = &fields[i].0;
                let val = &fields[i].1;
                if whitelisted_str(key.as_str()) {
                    let newval: JsonValue = if str_eq(key.as_str(), "type") {
                        match val {
                            JsonValue::Text(t) => JsonValue::Text(uppercase_str(t.as_str())),
                            _ => val.deep_copy(),
                        }
                    } else if str_eq(key.as_str(), "properties") {
                        match val {
                            JsonValue::Obj(ps) => {
                                let ghost psv = field_views_of(ps@);
                                let mut pout: Vec<(String, JsonValue)> = Vec::new();
                                let mut k2: usize = 0;
                                proof {
                                    assert(field_views_of(pout@) =~= props_fields(psv.take(0)));
                                }
                                while k2 < ps.len()
                                    invariant
                                        k2 <= ps.len(),
                                        field_views_of(pout@) == props_fields(psv.take(k2 as int)),
                                    decreases ps.len() - k2,
                                {
                                    proof {
                                        assert(psv.take(k2 + 1).drop_last() =~= psv.take(k2 as int));
                                        assert(psv.take(k2 + 1).last() == psv[k2 as int]);
                                        assert(decreases_to!(*val => *ps));
                                        assert(decreases_to!(*ps => ps@[k2 as int]));
                                        assert(decreases_to!(ps@[k2 as int] => ps@[k2 as int].1));
                                    }
                                    let p = &ps[k2];
                                    let tv = schema_translate(&p.1);
                                    pout.push((p.0.clone(), tv));
                                    proof {
                                        assert(field_views_of(pout@) =~= props_fields(psv.take(k2 + 1)));
                                    }
                                    k2 += 1;
                                }
                                proof {
                                    assert(psv.take(ps.len() as int) =~= psv);
                                }
                                JsonValue::Obj(pout)
                            },
                            _ => val.deep_copy(),
                        }
                    } else if str_eq(key.as_str(), "items") {
                        schema_translate(val)
                    } else {
                        val.deep_copy()
                    };
                    out.push((key.clone(), newval));
                }
                proof {
                    assert(field_views_of(out@) =~= schema_fields(fsv.take(i + 1)));
                }
                i += 1;
            }
            proof {
                assert(fsv.take(fields.len() as int) =~= fsv);
            }
            JsonValue::Obj(out)
        },
        _ => v.deep_copy(),
    }
}

/// Translates one schema node in place.
pub fn map_json_schema_to_gemini(value: &mut JsonValue)
    ensures
        final(value)@ == schema_node_spec(old(value)@),
{
    let r = schema_translate(value);
    *value = r;
}

} // verus!
