//! The JSON object boundary.
//!
//! Model replies carry their structured payload as a JSON object of scalar
//! fields. Parsing the object is delegated to `serde_json` behind one
//! trusted wrapper; everything the pipeline then does with the entries is
//! verified against the entries themselves.

use vstd::prelude::*;

verus! {

/// A scalar field of a parsed JSON object. Numbers are carried as their
/// decimal rendering, so that the verified rating logic can give them an
/// exact value; arrays and nested objects are lumped into `Other`, which
/// every consumer rejects.
#[derive(Debug, Clone, PartialEq, Eq)]
pub enum JsonScalar {
    Bool(bool),
    Num(String),
    Str(String),
    Null,
    Other,
}

/// The mathematical shape of a `JsonScalar`.
pub enum JsonV {
    Bool(bool),
    Num(Seq<char>),
    Str(Seq<char>),
    Null,
    Other,
}

impl View for JsonScalar {
    type V = JsonV;

    open spec fn view(&self) -> JsonV {
        match self {
            JsonScalar::Bool(b) => JsonV::Bool(*b),
            JsonScalar::Num(s) => JsonV::Num(s@),
            JsonScalar::Str(s) => JsonV::Str(s@),
            JsonScalar::Null => JsonV::Null,
            JsonScalar::Other => JsonV::Other,
        }
    }
}

/// The JSON object a string parses to: its entries in the order the parser
/// hands them out, or nothing when the string is not a JSON object.
pub uninterp spec fn json_object_of(s: Seq<char>) -> Option<Seq<(Seq<char>, JsonV)>>;

/// Relies on `serde_json::from_str`: a string parses to a JSON object, or
/// does not, as a function of the string alone. The wrapper hands the
/// object's entries back as pairs, booleans and strings as themselves,
/// numbers as their decimal rendering, null as `Null` and anything nested
/// as `Other`.
#[verifier::external_body]
pub fn parse_json_object(s: &str) -> (r: Result<Vec<(String, JsonScalar)>, ()>)
    ensures
        (r is Ok) == (json_object_of(s@) is Some),
        r matches Ok(v) ==> v@.len() == json_object_of(s@)->Some_0.len() && forall|i: int|
            0 <= i < v@.len() ==> (#[trigger] v@[i]).0@ == json_object_of(s@)->Some_0[i].0
                && v@[i].1@ == json_object_of(s@)->Some_0[i].1,
{
    match serde_json::from_str::<serde_json::Value>(s) {
        Ok(serde_json::Value::Object(m)) => Ok(m.into_iter().map(|(k, v)| (k, match v {
            serde_json::Value::Bool(b) => JsonScalar::Bool(b),
            serde_json::Value::Number(n) => JsonScalar::Num(n.to_string()),
            serde_json::Value::String(t) => JsonScalar::Str(t),
            serde_json::Value::Null => JsonScalar::Null,
            _ => JsonScalar::Other,
        })).collect()),
        _ => Err(()),
    }
}

/// The value under `key` in `obj`, at its first occurrence.
pub open spec fn spec_lookup(obj: Seq<(Seq<char>, JsonV)>, key: Seq<char>) -> Option<JsonV>
    decreases obj.len(),
{
    if obj.len() == 0 {
        None
    } else if obj[0].0 == key {
        Some(obj[0].1)
    } else {
        spec_lookup(obj.drop_first(), key)
    }
}

/// Looks a key up among the entries of a parsed object.
pub fn lookup<'a>(obj: &'a Vec<(String, JsonScalar)>, key: &str) -> (r: Option<
    &'a JsonScalar,
>)
    ensures
        match r {
            Some(v) => spec_lookup(pairs_view(obj@), key@) == Some(v@),
            None => spec_lookup(pairs_view(obj@), key@) is None,
        },
{
    let needle = crate::text::chars_of(key);
    let n = obj.len();
    let mut i: usize = 0;
    proof {
        assert(pairs_view(obj@).skip(0) =~= pairs_view(obj@));
    }
    while i < n
        invariant
            n == obj@.len(),
            i <= n,
            needle@ == key@,
            spec_lookup(pairs_view(obj@), key@) == spec_lookup(
                pairs_view(obj@).skip(i as int),
                key@,
            ),
        decreases n - i,
    {
        proof {
            assert(pairs_view(obj@).skip(i as int)[0] == pairs_view(obj@)[i as int]);
            assert(pairs_view(obj@).skip(i as int).drop_first() =~= pairs_view(obj@).skip(
                i + 1,
            ));
        }
        if crate::text::str_eq_chars(obj[i].0.as_str(), &needle) {
            return Some(&obj[i].1);
        }
        i = i + 1;
    }
    proof {
        assert(pairs_view(obj@).skip(n as int) =~= Seq::<(Seq<char>, JsonV)>::empty());
    }
    None
}

/// The entries of a parsed object, as their mathematical shapes.
pub open spec fn pairs_view(v: Seq<(String, JsonScalar)>) -> Seq<(Seq<char>, JsonV)> {
    v.map(|_i: int, p: (String, JsonScalar)| (p.0@, p.1@))
}

} // verus!
