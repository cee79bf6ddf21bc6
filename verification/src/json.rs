//! The untyped structured value that JSON-RPC payloads are read into and
//! responses are built from. A transport hands the library one of these per
//! inbound message and writes outbound ones with the serializer. Numbers are
//! modeled as `i64`: every number this protocol produces or reads is a small
//! integer, and a transport maps any other number to `Null`, which the
//! argument readers then reject like any other ill-typed value.
use vstd::prelude::*;

verus! {

broadcast use vstd::seq::axiom_seq_index_decreases, vstd::std_specs::vec::axiom_vec_decreases_to_view;

/// An untyped JSON document.
pub enum JsonValue {
    Null,
    Bool(bool),
    Int(i64),
    Str(String),
    Arr(Vec<JsonValue>),
    Obj(Vec<(String, JsonValue)>),
}

/// The mathematical model of a [`JsonValue`].
#[verifier::ext_equal]
pub enum JsonVal {
    Null,
    Bool(bool),
    Int(int),
    Str(Seq<char>),
    Arr(Seq<JsonVal>),
    Obj(Seq<(Seq<char>, JsonVal)>),
}

impl JsonValue {
    /// The model of this value: strings become character sequences, the
    /// containers become sequences of models.
    pub open spec fn jview(self) -> JsonVal
        decreases self,
    {
        match self {
            JsonValue::Null => JsonVal::Null,
            JsonValue::Bool(b) => JsonVal::Bool(b),
            JsonValue::Int(i) => JsonVal::Int(i as int),
            JsonValue::Str(s) => JsonVal::Str(s@),
            JsonValue::Arr(items) => JsonVal::Arr(
                Seq::new(
                    items@.len(),
                    |i: int|
                        if 0 <= i < items@.len() {
                            items@[i].jview()
                        } else {
                            JsonVal::Null
                        },
                ),
            ),
            JsonValue::Obj(fields) => JsonVal::Obj(
                Seq::new(
                    fields@.len(),
                    |i: int|
                        if 0 <= i < fields@.len() {
                            (fields@[i].0@, fields@[i].1.jview())
                        } else {
                            (Seq::empty(), JsonVal::Null)
                        },
                ),
            ),
        }
    }
}

impl View for JsonValue {
    type V = JsonVal;

    open spec fn view(&self) -> JsonVal {
        self.jview()
    }
}

impl DeepView for JsonValue {
    type V = JsonVal;

    open spec fn deep_view(&self) -> JsonVal {
        self.jview()
    }
}

/// A string value.
pub fn jstr(s: &str) -> (r: JsonValue)
    ensures
        r@ == JsonVal::Str(s@),
{
    JsonValue::Str(String::from_str(s))
}

/// A string value, taking the string.
pub fn jstring(s: String) -> (r: JsonValue)
    ensures
        r@ == JsonVal::Str(s@),
{
    JsonValue::Str(s)
}

/// A number value.
pub fn jint(i: i64) -> (r: JsonValue)
    ensures
        r@ == JsonVal::Int(i as int),
{
    JsonValue::Int(i)
}

/// The empty object.
pub fn jobj0() -> (r: JsonValue)
    ensures
        r@ == JsonVal::Obj(Seq::empty()),
{
    let fields: Vec<(String, JsonValue)> = Vec::new();
    let r = JsonValue::Obj(fields);
    proof {
        assert(r@ is Obj);
        assert(r@->Obj_0 =~= Seq::<(Seq<char>, JsonVal)>::empty());
        assert(r@ == JsonVal::Obj(Seq::<(Seq<char>, JsonVal)>::empty()));
    }
    r
}

/// An object of one field.
pub fn jobj1(k1: &str, v1: JsonValue) -> (r: JsonValue)
    ensures
        r@ == JsonVal::Obj(seq![(k1@, v1@)]),
{
    let mut fields: Vec<(String, JsonValue)> = Vec::new();
    fields.push((String::from_str(k1), v1));
    let r = JsonValue::Obj(fields);
    proof {
        let exp = seq![(k1@, v1@)];
        assert(r@ is Obj);
        assert(r@->Obj_0 =~= exp);
        assert(r@ == JsonVal::Obj(exp));
    }
    r
}

/// An object of two fields.
pub fn jobj2(k1: &str, v1: JsonValue, k2: &str, v2: JsonValue) -> (r: JsonValue)
    ensures
        r@ == JsonVal::Obj(seq![(k1@, v1@), (k2@, v2@)]),
{
    let mut fields: Vec<(String, JsonValue)> = Vec::new();
    fields.push((String::from_str(k1), v1));
    fields.push((String::from_str(k2), v2));
    let r = JsonValue::Obj(fields);
    proof {
        let exp = seq![(k1@, v1@), (k2@, v2@)];
        assert(r@ is Obj);
        assert(r@->Obj_0 =~= exp);
        assert(r@ == JsonVal::Obj(exp));
    }
    r
}

/// An object of three fields.
pub fn jobj3(k1: &str, v1: JsonValue, k2: &str, v2: JsonValue, k3: &str, v3: JsonValue) -> (r:
    JsonValue)
    ensures
        r@ == JsonVal::Obj(seq![(k1@, v1@), (k2@, v2@), (k3@, v3@)]),
{
    let mut fields: Vec<(String, JsonValue)> = Vec::new();
    fields.push((String::from_str(k1), v1));
    fields.push((String::from_str(k2), v2));
    fields.push((String::from_str(k3), v3));
    let r = JsonValue::Obj(fields);
    proof {
        let exp = seq![(k1@, v1@), (k2@, v2@), (k3@, v3@)];
        assert(r@ is Obj);
        assert(r@->Obj_0 =~= exp);
        assert(r@ == JsonVal::Obj(exp));
    }
    r
}

/// An array value.
pub fn jarr(items: Vec<JsonValue>) -> (r: JsonValue)
    ensures
        r@ == JsonVal::Arr(items.deep_view()),
{
    let r = JsonValue::Arr(items);
    proof {
        assert(r@ is Arr);
        assert(r@->Arr_0 =~= items.deep_view());
        assert(r@ == JsonVal::Arr(items.deep_view()));
    }
    r
}

/// Copies a value; the copy has the same model.
#[verifier::loop_isolation(false)]
pub fn clone_json(v: &JsonValue) -> (r: JsonValue)
    ensures
        r@ == v@,
    decreases *v,
{
    match v {
        JsonValue::Null => JsonValue::Null,
        JsonValue::Bool(b) => JsonValue::Bool(*b),
        JsonValue::Int(i) => JsonValue::Int(*i),
        JsonValue::Str(s) => JsonValue::Str(s.clone()),
        JsonValue::Arr(items) => {
            let mut out: Vec<JsonValue> = Vec::new();
            let mut i: usize = 0;
            while i < items.len()
                invariant
                    *v == JsonValue::Arr(*items),
                    i <= items@.len(),
                    out@.len() == i,
                    forall|k: int| 0 <= k < i ==> out@[k]@ == items@[k]@,
                decreases items@.len() - i,
            {
                proof {
                    assert(decreases_to!(*items => items@));
                    assert(decreases_to!(items@ => items@[i as int]));
                }
                out.push(clone_json(&items[i]));
                i = i + 1;
            }
            let r = JsonValue::Arr(out);
            proof {
                assert(r@->Arr_0 =~= v@->Arr_0);
            }
            r
        },
        JsonValue::Obj(fields) => {
            let mut out: Vec<(String, JsonValue)> = Vec::new();
            let mut i: usize = 0;
            while i < fields.len()
                invariant
                    *v == JsonValue::Obj(*fields),
                    i <= fields@.len(),
                    out@.len() == i,
                    forall|k: int|
                        0 <= k < i ==> out@[k].0@ == fields@[k].0@ && out@[k].1@ == fields@[k].1@,
                decreases fields@.len() - i,
            {
                proof {
                    assert(decreases_to!(*fields => fields@));
                    assert(decreases_to!(fields@ => fields@[i as int]));
                    assert(decreases_to!(fields@[i as int] => fields@[i as int].1));
                }
                out.push((fields[i].0.clone(), clone_json(&fields[i].1)));
                i = i + 1;
            }
            let r = JsonValue::Obj(out);
            proof {
                assert(r@->Obj_0 =~= v@->Obj_0);
            }
            r
        },
    }
}

/// The value under the first binding of `key`, if any.
pub open spec fn obj_get(fields: Seq<(Seq<char>, JsonVal)>, key: Seq<char>) -> Option<JsonVal>
    decreases fields.len(),
{
    if fields.len() == 0 {
        None
    } else if fields[0].0 == key {
        Some(fields[0].1)
    } else {
        obj_get(fields.drop_first(), key)
    }
}

impl JsonVal {
    /// Field lookup: `None` unless this is an object with that key.
    pub open spec fn get(self, key: Seq<char>) -> Option<JsonVal> {
        match self {
            JsonVal::Obj(fields) => obj_get(fields, key),
            _ => None,
        }
    }

    /// The characters of a string value, `None` for every other kind.
    pub open spec fn as_str(self) -> Option<Seq<char>> {
        match self {
            JsonVal::Str(s) => Some(s),
            _ => None,
        }
    }

    /// The integer of a number value, `None` for every other kind.
    pub open spec fn as_int(self) -> Option<int> {
        match self {
            JsonVal::Int(i) => Some(i),
            _ => None,
        }
    }
}

impl JsonValue {
    /// Looks up a field of an object; `None` for a missing key or for a
    /// value of any other kind.
    pub fn get<'a>(&'a self, key: &str) -> (r: Option<&'a JsonValue>)
        ensures
            match r {
                Some(f) => self@.get(key@) == Some(f@),
                None => self@.get(key@) is None,
            },
    {
        match self {
            JsonValue::Obj(fields) => {
                let ghost vf = self@->Obj_0;
                proof {
                    assert(vf.skip(0) =~= vf);
                }
                let mut i: usize = 0;
                while i < fields.len()
                    invariant
                        i <= fields@.len(),
                        self@ == JsonVal::Obj(vf),
                        vf.len() == fields@.len(),
                        forall|k: int|
                            0 <= k < vf.len() ==> vf[k] == (fields@[k].0@, fields@[k].1@),
                        obj_get(vf.skip(i as int), key@) == obj_get(vf, key@),
                    decreases fields@.len() - i,
                {
                    if crate::text::str_eq(fields[i].0.as_str(), key) {
                        proof {
                            assert(self@ == JsonVal::Obj(vf));
                            let t = vf.skip(i as int);
                            assert(t.len() > 0);
                            assert(t[0] == vf[i as int]);
                            assert(t[0].0 == key@);
                            assert(obj_get(t, key@) == Some(t[0].1));
                        }
                        return Some(&fields[i].1);
                    }
                    proof {
                        assert(vf.skip(i as int).drop_first() =~= vf.skip(i as int + 1));
                    }
                    i = i + 1;
                }
                proof {
                    assert(vf.skip(fields@.len() as int) =~= Seq::<(Seq<char>, JsonVal)>::empty());
                }
                None
            },
            _ => None,
        }
    }

    /// Borrows the characters of a string value.
    pub fn as_str<'a>(&'a self) -> (r: Option<&'a String>)
        ensures
            match r {
                Some(s) => self@.as_str() == Some(s@),
                None => self@.as_str() is None,
            },
    {
        match self {
            JsonValue::Str(s) => Some(s),
            _ => None,
        }
    }

    /// Reads the integer of a number value.
    pub fn as_int(&self) -> (r: Option<i64>)
        ensures
            match r {
                Some(i) => self@.as_int() == Some(i as int),
                None => self@.as_int() is None,
            },
    {
        match self {
            JsonValue::Int(i) => Some(*i),
            _ => None,
        }
    }

    /// Whether this is `null`.
    pub fn is_null(&self) -> (r: bool)
        ensures
            r == (self@ is Null),
    {
        match self {
            JsonValue::Null => true,
            _ => false,
        }
    }
}

} // verus!
