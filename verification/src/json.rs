use vstd::prelude::*;

verus! {

/// Mathematical model of a JSON document. Strings are sequences of
/// characters, arrays and objects are sequences; an object keeps its
/// fields in insertion order, as the executable type does.
pub enum Json {
    Null,
    Bool(bool),
    Int(int),
    Num(Seq<char>),
    Text(Seq<char>),
    Arr(Seq<Json>),
    Obj(Seq<(Seq<char>, Json)>),
}

/// Executable JSON tree. A number is either an `i64` or, where it does
/// not fit that shape (fractions, exponents, huge magnitudes), the
/// decimal text of the number as it stands in the document.
#[derive(Debug, PartialEq, Eq)]
pub enum JsonValue {
    Null,
    Bool(bool),
    Int(i64),
    Num(String),
    Text(String),
    Arr(Vec<JsonValue>),
    Obj(Vec<(String, JsonValue)>),
}

/// The models of the elements of an array.
pub open spec fn views_of(s: Seq<JsonValue>) -> Seq<Json>
    decreases s,
{
    Seq::new(s.len(), |i: int| if 0 <= i < s.len() { s[i]@ } else { Json::Null })
}

/// The models of the fields of an object.
pub open spec fn field_views_of(s: Seq<(String, JsonValue)>) -> Seq<(Seq<char>, Json)>
    decreases s,
{
    Seq::new(
        s.len(),
        |i: int| if 0 <= i < s.len() { (s[i].0@, s[i].1@) } else { (Seq::<char>::empty(), Json::Null) },
    )
}

impl View for JsonValue {
    type V = Json;

    open spec fn view(&self) -> Json
        decreases self,
    {
        match self {
            JsonValue::Null => Json::Null,
            JsonValue::Bool(b) => Json::Bool(*b),
            JsonValue::Int(i) => Json::Int(*i as int),
            JsonValue::Num(s) => Json::Num(s@),
            JsonValue::Text(s) => Json::Text(s@),
            JsonValue::Arr(a) => Json::Arr(views_of(a@)),
            JsonValue::Obj(fs) => Json::Obj(field_views_of(fs@)),
        }
    }
}

/// The fields of an object, or the empty sequence for any other node.
pub open spec fn fields_of(j: Json) -> Seq<(Seq<char>, Json)> {
    match j {
        Json::Obj(fs) => fs,
        _ => Seq::empty(),
    }
}

/// Whether an object node carries a field with this key.
pub open spec fn has_key(j: Json, key: Seq<char>) -> bool
    decreases fields_of(j).len(),
{
    let fs = fields_of(j);
    fs.len() != 0 && (fs.last().0 == key || has_key(Json::Obj(fs.drop_last()), key))
}

/// The value stored under this key, or `Json::Null` where the node is
/// not an object or has no such field. Where several fields share one
/// key the latest wins, as repeated map insertion would.
pub open spec fn lookup(j: Json, key: Seq<char>) -> Json
    decreases fields_of(j).len(),
{
    let fs = fields_of(j);
    if fs.len() == 0 {
        Json::Null
    } else if fs.last().0 == key {
        fs.last().1
    } else {
        lookup(Json::Obj(fs.drop_last()), key)
    }
}

pub proof fn lemma_lookup_at(fs: Seq<(Seq<char>, Json)>, key: Seq<char>, i: int)
    requires
        0 <= i < fs.len(),
        fs[i].0 == key,
        forall|j: int| i < j < fs.len() ==> fs[j].0 != key,
    ensures
        lookup(Json::Obj(fs), key) == fs[i].1,
        has_key(Json::Obj(fs), key),
    decreases fs.len(),
{
    if i < fs.len() - 1 {
        assert(fs.drop_last()[i] == fs[i]);
        lemma_lookup_at(fs.drop_last(), key, i);
    }
}

pub proof fn lemma_no_key(fs: Seq<(Seq<char>, Json)>, key: Seq<char>)
    requires
        forall|j: int| 0 <= j < fs.len() ==> fs[j].0 != key,
    ensures
        !has_key(Json::Obj(fs), key),
    decreases fs.len(),
{
    if fs.len() > 0 {
        lemma_no_key(fs.drop_last(), key);
    }
}

/// Compares two string slices by their characters.
pub fn str_eq(a: &str, b: &str) -> (r: bool)
    ensures
        r == (a@ == b@),
{
    let an = a.unicode_len();
    let bn = b.unicode_len();
    if an != bn {
        proof {
            if a@ == b@ {
                assert(a@.len() == b@.len());
            }
        }
        return false;
    }
    let mut i: usize = 0;
    while i < an
        invariant
            an == a@.len(),
            an == b@.len(),
            i <= an,
            forall|j: int| 0 <= j < i ==> a@[j] == b@[j],
        decreases an - i,
    {
        if a.get_char(i) != b.get_char(i) {
            return false;
        }
        i += 1;
    }
    proof {
        assert(a@ =~= b@);
    }
    true
}

impl JsonValue {
    /// An exact copy of the tree.
    #[verifier::loop_isolation(false)]
    pub fn deep_copy(&self) -> (r: JsonValue)
        ensures
            r@ == self@,
        decreases self,
    {
        match self {
            JsonValue::Null => JsonValue::Null,
            JsonValue::Bool(b) => JsonValue::Bool(*b),
            JsonValue::Int(i) => JsonValue::Int(*i),
            JsonValue::Num(s) => JsonValue::Num(s.clone()),
            JsonValue::Text(s) => JsonValue::Text(s.clone()),
            JsonValue::Arr(a) => {
                let mut out: Vec<JsonValue> = Vec::new();
                let mut i: usize = 0;
                while i < a.len()
                    invariant
                        i <= a.len(),
                        out@.len() == i,
                        forall|j: int| 0 <= j < i ==> out@[j]@ == a@[j]@,
                    decreases a.len() - i,
                {
                    proof {
                        assert(decreases_to!(*self => *a));
                        assert(decreases_to!(*a => a@[i as int]));
                    }
                    out.push(a[i].deep_copy());
                    i += 1;
                }
                proof {
                    assert(views_of(out@) =~= views_of(a@));
                }
                JsonValue::Arr(out)
            },
            JsonValue::Obj(fs) => {
                let mut out: Vec<(String, JsonValue)> = Vec::new();
                let mut i: usize = 0;
                while i < fs.len()
                    invariant
                        i <= fs.len(),
                        out@.len() == i,
                        forall|j: int| 0 <= j < i ==> out@[j].0@ == fs@[j].0@ && out@[j].1@ == fs@[j].1@,
                    decreases fs.len() - i,
                {
                    proof {
                        assert(decreases_to!(*self => *fs));
                        assert(decreases_to!(*fs => fs@[i as int]));
                    }
                    let pair = &fs[i];
                    out.push((pair.0.clone(), pair.1.deep_copy()));
                    i += 1;
                }
                proof {
                    assert(field_views_of(out@) =~= field_views_of(fs@));
                }
                JsonValue::Obj(out)
            },
        }
    }

    /// The value stored under this key, where the node is an object
    /// that carries it.
    #[verifier::loop_isolation(false)]
    pub fn obj_get<'a>(&'a self, key: &str) -> (r: Option<&'a JsonValue>)
        ensures
            match r {
                Some(v) => has_key(self@, key@) && v@ == lookup(self@, key@),
                None => !has_key(self@, key@),
            },
    {
        match self {
            JsonValue::Obj(fs) => {
                let mut i: usize = fs.len();
                while i > 0
                    invariant
                        i <= fs.len(),
                        forall|j: int| i <= j < fs.len() ==> field_views_of(fs@)[j].0 != key@,
                    decreases i,
                {
                    if str_eq(fs[i - 1].0.as_str(), key) {
                        proof {
                            assert(field_views_of(fs@)[i - 1] == (fs@[i - 1].0@, fs@[i - 1].1@));
                            lemma_lookup_at(field_views_of(fs@), key@, i - 1);
                            assert(self@ == Json::Obj(field_views_of(fs@)));
                        }
                        return Some(&fs[i - 1].1);
                    }
                    i -= 1;
                }
                proof {
                    lemma_no_key(field_views_of(fs@), key@);
                    assert(self@ == Json::Obj(field_views_of(fs@)));
                }
                None
            },
            _ => None,
        }
    }

    /// The characters of a text node.
    pub fn as_text<'a>(&'a self) -> (r: Option<&'a String>)
        ensures
            match r {
                Some(s) => self@ == Json::Text(s@),
                None => !(self@ is Text),
            },
    {
        match self {
            JsonValue::Text(s) => Some(s),
            _ => None,
        }
    }
}

/// The fields that remain when every field with this key is dropped.
pub open spec fn remove_fields(fs: Seq<(Seq<char>, Json)>, key: Seq<char>) -> Seq<(Seq<char>, Json)>
    decreases fs.len(),
{
    if fs.len() == 0 {
        Seq::empty()
    } else {
        let rest = remove_fields(fs.drop_last(), key);
        if fs.last().0 == key {
            rest
        } else {
            rest.push(fs.last())
        }
    }
}

/// An object without any field of this key; other nodes unchanged.
pub open spec fn remove_key(j: Json, key: Seq<char>) -> Json {
    match j {
        Json::Obj(fs) => Json::Obj(remove_fields(fs, key)),
        other => other,
    }
}

/// The fields with every value under this key replaced.
pub open spec fn set_fields(fs: Seq<(Seq<char>, Json)>, key: Seq<char>, v: Json) -> Seq<(Seq<char>, Json)>
    decreases fs.len(),
{
    if fs.len() == 0 {
        Seq::empty()
    } else {
        let rest = set_fields(fs.drop_last(), key, v);
        if fs.last().0 == key {
            rest.push((key, v))
        } else {
            rest.push(fs.last())
        }
    }
}

/// An object with the value under this key replaced; other nodes unchanged.
pub open spec fn set_field(j: Json, key: Seq<char>, v: Json) -> Json {
    match j {
        Json::Obj(fs) => Json::Obj(set_fields(fs, key, v)),
        other => other,
    }
}

impl JsonValue {
    /// A copy without any field of this key.
    #[verifier::loop_isolation(false)]
    pub fn remove_key_val(&self, key: &str) -> (r: JsonValue)
        ensures
            r@ == remove_key(self@, key@),
    {
        match self {
            JsonValue::Obj(fs) => {
                let ghost fsv = field_views_of(fs@);
                let mut out: Vec<(String, JsonValue)> = Vec::new();
                let mut i: usize = 0;
                proof {
                    assert(field_views_of(out@) =~= remove_fields(fsv.take(0), key@));
                }
                while i < fs.len()
                    invariant
                        i <= fs.len(),
                        field_views_of(out@) == remove_fields(fsv.take(i as int), key@),
                    decreases fs.len() - i,
                {
                    proof {
                        assert(fsv.take(i + 1).drop_last() =~= fsv.take(i as int));
                        assert(fsv.take(i + 1).last() == fsv[i as int]);
                    }
                    let pair = &fs[i];
                    if !str_eq(pair.0.as_str(), key) {
                        out.push((pair.0.clone(), pair.1.deep_copy()));
                    }
                    proof {
                        assert(field_views_of(out@) =~= remove_fields(fsv.take(i + 1), key@));
                    }
                    i += 1;
                }
                proof {
                    assert(fsv.take(fs.len() as int) =~= fsv);
                }
                JsonValue::Obj(out)
            },
            _ => self.deep_copy(),
        }
    }

    /// A copy with the value under this key replaced.
    #[verifier::loop_isolation(false)]
    pub fn set_field_val(&self, key: &str, v: &JsonValue) -> (r: JsonValue)
        ensures
            r@ == set_field(self@, key@, v@),
    {
        match self {
            JsonValue::Obj(fs) => {
                let ghost fsv = field_views_of(fs@);
                let mut out: Vec<(String, JsonValue)> = Vec::new();
                let mut i: usize = 0;
                proof {
                    assert(field_views_of(out@) =~= set_fields(fsv.take(0), key@, v@));
                }
                while i < fs.len()
                    invariant
                        i <= fs.len(),
                        field_views_of(out@) == set_fields(fsv.take(i as int), key@, v@),
                    decreases fs.len() - i,
                {
                    proof {
                        assert(fsv.take(i + 1).drop_last() =~= fsv.take(i as int));
                        assert(fsv.take(i + 1).last() == fsv[i as int]);
                    }
                    let pair = &fs[i];
                    if str_eq(pair.0.as_str(), key) {
                        out.push((key.to_owned(), v.deep_copy()));
                    } else {
                        out.push((pair.0.clone(), pair.1.deep_copy()));
                    }
                    proof {
                        assert(field_views_of(out@) =~= set_fields(fsv.take(i + 1), key@, v@));
                    }
                    i += 1;
                }
                proof {
                    assert(fsv.take(fs.len() as int) =~= fsv);
                }
                JsonValue::Obj(out)
            },
            _ => self.deep_copy(),
        }
    }

    /// A copy with one more field at the end.
    #[verifier::loop_isolation(false)]
    pub fn push_field_val(&self, key: &str, v: JsonValue) -> (r: JsonValue)
        ensures
            r@ == Json::Obj(fields_of(self@).push((key@, v@))),
    {
        let mut out: Vec<(String, JsonValue)> = Vec::new();
        match self {
            JsonValue::Obj(fs) => {
                let ghost fsv = field_views_of(fs@);
                let mut i: usize = 0;
                while i < fs.len()
                    invariant
                        i <= fs.len(),
                        field_views_of(out@) == fsv.take(i as int),
                    decreases fs.len() - i,
                {
                    proof {
                        assert(fsv.take(i + 1) =~= fsv.take(i as int).push(fsv[i as int]));
                    }
                    let pair = &fs[i];
                    out.push((pair.0.clone(), pair.1.deep_copy()));
                    proof {
                        assert(field_views_of(out@) =~= fsv.take(i + 1));
                    }
                    i += 1;
                }
                proof {
                    assert(fsv.take(fs.len() as int) =~= fsv);
                }
            },
            _ => {},
        }
        out.push((key.to_owned(), v));
        proof {
            assert(field_views_of(out@) =~= fields_of(self@).push((key@, v@)));
        }
        JsonValue::Obj(out)
    }
}

pub proof fn lemma_remove_key_removes(fs: Seq<(Seq<char>, Json)>, key: Seq<char>)
    ensures
        !has_key(Json::Obj(remove_fields(fs, key)), key),
    decreases fs.len(),
{
    if fs.len() > 0 {
        lemma_remove_key_removes(fs.drop_last(), key);
        if fs.last().0 != key {
            assert(remove_fields(fs, key).drop_last() =~= remove_fields(fs.drop_last(), key));
        }
    }
}

pub proof fn lemma_remove_key_other(fs: Seq<(Seq<char>, Json)>, key: Seq<char>, k2: Seq<char>)
    requires
        k2 != key,
    ensures
        has_key(Json::Obj(remove_fields(fs, key)), k2) == has_key(Json::Obj(fs), k2),
        lookup(Json::Obj(remove_fields(fs, key)), k2) == lookup(Json::Obj(fs), k2),
    decreases fs.len(),
{
    if fs.len() > 0 {
        lemma_remove_key_other(fs.drop_last(), key, k2);
        if fs.last().0 != key {
            assert(remove_fields(fs, key).drop_last() =~= remove_fields(fs.drop_last(), key));
            assert(remove_fields(fs, key).last() == fs.last());
        }
    }
}

pub proof fn lemma_set_field_sets(fs: Seq<(Seq<char>, Json)>, key: Seq<char>, v: Json)
    requires
        has_key(Json::Obj(fs), key),
    ensures
        has_key(Json::Obj(set_fields(fs, key, v)), key),
        lookup(Json::Obj(set_fields(fs, key, v)), key) == v,
    decreases fs.len(),
{
    if fs.len() > 0 {
        if fs.last().0 == key {
            assert(set_fields(fs, key, v).drop_last() =~= set_fields(fs.drop_last(), key, v));
            assert(set_fields(fs, key, v).last() == (key, v));
        } else {
            lemma_set_field_sets(fs.drop_last(), key, v);
            assert(set_fields(fs, key, v).drop_last() =~= set_fields(fs.drop_last(), key, v));
            assert(set_fields(fs, key, v).last() == fs.last());
        }
    }
}

pub proof fn lemma_set_field_other(fs: Seq<(Seq<char>, Json)>, key: Seq<char>, v: Json, k2: Seq<char>)
    requires
        k2 != key,
    ensures
        has_key(Json::Obj(set_fields(fs, key, v)), k2) == has_key(Json::Obj(fs), k2),
        lookup(Json::Obj(set_fields(fs, key, v)), k2) == lookup(Json::Obj(fs), k2),
    decreases fs.len(),
{
    if fs.len() > 0 {
        lemma_set_field_other(fs.drop_last(), key, v, k2);
        assert(set_fields(fs, key, v).drop_last() =~= set_fields(fs.drop_last(), key, v));
        if fs.last().0 == key {
            assert(set_fields(fs, key, v).last() == (key, v));
        } else {
            assert(set_fields(fs, key, v).last() == fs.last());
        }
    }
}

pub proof fn lemma_push_other(fs: Seq<(Seq<char>, Json)>, p: (Seq<char>, Json), k2: Seq<char>)
    requires
        p.0 != k2,
    ensures
        has_key(Json::Obj(fs.push(p)), k2) == has_key(Json::Obj(fs), k2),
        lookup(Json::Obj(fs.push(p)), k2) == lookup(Json::Obj(fs), k2),
{
    assert(fs.push(p).drop_last() =~= fs);
    assert(fs.push(p).last() == p);
}

pub proof fn lemma_push_same(fs: Seq<(Seq<char>, Json)>, k: Seq<char>, v: Json)
    ensures
        has_key(Json::Obj(fs.push((k, v))), k),
        lookup(Json::Obj(fs.push((k, v))), k) == v,
{
    assert(fs.push((k, v)).last() == (k, v));
}

} // verus!
