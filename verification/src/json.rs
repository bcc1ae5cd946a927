//! A JSON document model that the protocol logic reads and builds.
//!
//! Text is turned into this model (and back) at the edge of the program;
//! everything in between works on these values.
use vstd::prelude::*;

use crate::text::{str_equal, string_from_str};

verus! {

/// A JSON number, as the wire format distinguishes it.
///
/// A number with a fraction or an exponent is carried by its decimal text.
#[derive(Debug, PartialEq, Eq)]
pub enum JsonNumber {
    PosInt(u64),
    NegInt(i64),
    Float(String),
}

/// One `"key": value` pair of a JSON object.
#[derive(Debug, PartialEq, Eq)]
pub struct JsonMember {
    pub key: String,
    pub value: JsonValue,
}

/// A JSON value. Object members keep the order in which they were added.
#[derive(Debug, PartialEq, Eq)]
pub enum JsonValue {
    Null,
    Bool(bool),
    Number(JsonNumber),
    String(String),
    Array(Vec<JsonValue>),
    Object(Vec<JsonMember>),
}

/// The mathematical meaning of a JSON value.
pub enum Json {
    Null,
    Bool(bool),
    Int(int),
    Float(Seq<char>),
    Str(Seq<char>),
    Array(Seq<Json>),
    Object(Seq<(Seq<char>, Json)>),
}

pub open spec fn view_number(n: JsonNumber) -> Json {
    match n {
        JsonNumber::PosInt(u) => Json::Int(u as int),
        JsonNumber::NegInt(i) => Json::Int(i as int),
        JsonNumber::Float(s) => Json::Float(s@),
    }
}

pub open spec fn view_json(v: JsonValue) -> Json
    decreases v, 0nat,
{
    match v {
        JsonValue::Null => Json::Null,
        JsonValue::Bool(b) => Json::Bool(b),
        JsonValue::Number(n) => view_number(n),
        JsonValue::String(s) => Json::Str(s@),
        JsonValue::Array(a) => Json::Array(view_json_seq(a@)),
        JsonValue::Object(m) => Json::Object(view_members(m@)),
    }
}

pub open spec fn view_json_seq(s: Seq<JsonValue>) -> Seq<Json>
    decreases s, s.len(),
{
    if s.len() == 0 {
        Seq::empty()
    } else {
        seq![view_json(s[0])] + view_json_seq(s.subrange(1, s.len() as int))
    }
}

pub open spec fn view_members(s: Seq<JsonMember>) -> Seq<(Seq<char>, Json)>
    decreases s, s.len(),
{
    if s.len() == 0 {
        Seq::empty()
    } else {
        seq![(s[0].key@, view_json(s[0].value))] + view_members(s.subrange(1, s.len() as int))
    }
}

impl View for JsonValue {
    type V = Json;

    open spec fn view(&self) -> Json {
        view_json(*self)
    }
}

/// The value stored under `key` in a member list: the first member with that key.
pub open spec fn lookup(ms: Seq<(Seq<char>, Json)>, key: Seq<char>) -> Option<Json>
    decreases ms.len(),
{
    if ms.len() == 0 {
        None
    } else if ms[0].0 == key {
        Some(ms[0].1)
    } else {
        lookup(ms.subrange(1, ms.len() as int), key)
    }
}

/// The member list after setting `key` to `val`: the first member with that key
/// gets the new value; without one, the pair is added at the end.
pub open spec fn set_member(ms: Seq<(Seq<char>, Json)>, key: Seq<char>, val: Json) -> Seq<(Seq<char>, Json)>
    decreases ms.len(),
{
    if ms.len() == 0 {
        seq![(key, val)]
    } else if ms[0].0 == key {
        ms.update(0, (key, val))
    } else {
        seq![ms[0]] + set_member(ms.subrange(1, ms.len() as int), key, val)
    }
}

impl Json {
    /// `self[key]` when `self` is an object holding `key`.
    pub open spec fn field(self, key: Seq<char>) -> Option<Json> {
        match self {
            Json::Object(ms) => lookup(ms, key),
            _ => None,
        }
    }

    /// The object after setting `key`; a value that is not an object is left as it is.
    pub open spec fn with_field(self, key: Seq<char>, val: Json) -> Json {
        match self {
            Json::Object(ms) => Json::Object(set_member(ms, key, val)),
            _ => self,
        }
    }

    /// The string held by `self`, if it is one.
    pub open spec fn as_str(self) -> Option<Seq<char>> {
        match self {
            Json::Str(s) => Some(s),
            _ => None,
        }
    }

    /// The integer held by `self` when it fits an `i64`.
    pub open spec fn as_i64(self) -> Option<i64> {
        match self {
            Json::Int(i) => if i64::MIN <= i <= i64::MAX { Some(i as i64) } else { None },
            _ => None,
        }
    }

    /// The integer held by `self` when it fits a `u64`.
    pub open spec fn as_u64(self) -> Option<u64> {
        match self {
            Json::Int(i) => if 0 <= i <= u64::MAX { Some(i as u64) } else { None },
            _ => None,
        }
    }

    /// The boolean held by `self`, if it is one.
    pub open spec fn as_bool(self) -> Option<bool> {
        match self {
            Json::Bool(b) => Some(b),
            _ => None,
        }
    }

    /// The elements of `self`, if it is an array.
    pub open spec fn as_array(self) -> Option<Seq<Json>> {
        match self {
            Json::Array(a) => Some(a),
            _ => None,
        }
    }

    /// `self[k1][k2]...` along `path`.
    pub open spec fn at_path(self, path: Seq<Seq<char>>) -> Option<Json>
        decreases path.len(),
    {
        if path.len() == 0 {
            Some(self)
        } else {
            match self.field(path[0]) {
                Some(inner) => inner.at_path(path.subrange(1, path.len() as int)),
                None => None,
            }
        }
    }
}

/// `Some(v@)` for `Some(v)`.
pub open spec fn opt_view(o: Option<&JsonValue>) -> Option<Json> {
    match o {
        Some(v) => Some(v@),
        None => None,
    }
}

proof fn lemma_view_json_seq_len(s: Seq<JsonValue>)
    ensures
        view_json_seq(s).len() == s.len(),
        forall|i: int| 0 <= i < s.len() ==> #[trigger] view_json_seq(s)[i] == view_json(s[i]),
    decreases s.len(),
{
    if s.len() > 0 {
        lemma_view_json_seq_len(s.subrange(1, s.len() as int));
        assert forall|i: int| 0 <= i < s.len() implies #[trigger] view_json_seq(s)[i] == view_json(s[i]) by {
            if i > 0 {
                assert(s.subrange(1, s.len() as int)[i - 1] == s[i]);
            }
        }
    }
}

proof fn lemma_view_members_len(s: Seq<JsonMember>)
    ensures
        view_members(s).len() == s.len(),
        forall|i: int| 0 <= i < s.len() ==> #[trigger] view_members(s)[i] == (s[i].key@, view_json(s[i].value)),
    decreases s.len(),
{
    if s.len() > 0 {
        lemma_view_members_len(s.subrange(1, s.len() as int));
        assert forall|i: int| 0 <= i < s.len() implies #[trigger] view_members(s)[i] == (s[i].key@, view_json(s[i].value)) by {
            if i > 0 {
                assert(s.subrange(1, s.len() as int)[i - 1] == s[i]);
            }
        }
    }
}

/// The view of a list of values is the list of their views.
pub proof fn lemma_view_json_seq(s: Seq<JsonValue>)
    ensures
        view_json_seq(s) =~= Seq::new(s.len(), |i: int| view_json(s[i])),
{
    lemma_view_json_seq_len(s);
}

proof fn lemma_lookup_index(ms: Seq<(Seq<char>, Json)>, key: Seq<char>, i: int)
    requires
        0 <= i < ms.len(),
        ms[i].0 == key,
        forall|j: int| 0 <= j < i ==> ms[j].0 != key,
    ensures
        lookup(ms, key) == Some(ms[i].1),
        set_member(ms, key, ms[i].1) == ms,
        forall|v: Json| set_member(ms, key, v) == #[trigger] ms.update(i, (key, v)),
    decreases ms.len(),
{
    if i > 0 {
        let rest = ms.subrange(1, ms.len() as int);
        assert forall|j: int| 0 <= j < i - 1 implies rest[j].0 != key by {
            assert(rest[j] == ms[j + 1]);
        }
        lemma_lookup_index(rest, key, i - 1);
        assert forall|v: Json| set_member(ms, key, v) == #[trigger] ms.update(i, (key, v)) by {
            assert(set_member(rest, key, v) == rest.update(i - 1, (key, v)));
            assert(seq![ms[0]] + rest.update(i - 1, (key, v)) =~= ms.update(i, (key, v)));
        }
        assert(seq![ms[0]] + rest =~= ms);
    } else {
        assert forall|v: Json| set_member(ms, key, v) == #[trigger] ms.update(i, (key, v)) by {}
        assert(ms.update(0, (key, ms[0].1)) =~= ms);
    }
}

proof fn lemma_lookup_absent(ms: Seq<(Seq<char>, Json)>, key: Seq<char>)
    requires
        forall|j: int| 0 <= j < ms.len() ==> ms[j].0 != key,
    ensures
        lookup(ms, key) == None::<Json>,
        forall|v: Json| set_member(ms, key, v) == #[trigger] ms.push((key, v)),
    decreases ms.len(),
{
    if ms.len() > 0 {
        let rest = ms.subrange(1, ms.len() as int);
        assert forall|j: int| 0 <= j < rest.len() implies rest[j].0 != key by {
            assert(rest[j] == ms[j + 1]);
        }
        lemma_lookup_absent(rest, key);
        assert forall|v: Json| set_member(ms, key, v) == #[trigger] ms.push((key, v)) by {
            assert(seq![ms[0]] + rest.push((key, v)) =~= ms.push((key, v)));
        }
    } else {
        assert forall|v: Json| set_member(ms, key, v) == #[trigger] ms.push((key, v)) by {
            assert(seq![(key, v)] =~= ms.push((key, v)));
        }
    }
}

/// Finds the position of the first member named `key`.
fn find_member(ms: &Vec<JsonMember>, key: &str) -> (r: Option<usize>)
    ensures
        match r {
            Some(i) => {
                &&& i < ms.len()
                &&& ms@[i as int].key@ == key@
                &&& forall|j: int| 0 <= j < i ==> ms@[j].key@ != key@
            },
            None => forall|j: int| 0 <= j < ms.len() ==> ms@[j].key@ != key@,
        },
{
    let mut i: usize = 0;
    while i < ms.len()
        invariant
            i <= ms.len(),
            forall|j: int| 0 <= j < i ==> ms@[j].key@ != key@,
        decreases ms.len() - i,
    {
        if str_equal(ms[i].key.as_str(), key) {
            return Some(i);
        }
        i = i + 1;
    }
    None
}

impl JsonValue {
    /// The member named `key`, when `self` is an object that has one.
    pub fn get(&self, key: &str) -> (r: Option<&JsonValue>)
        ensures
            opt_view(r) == self@.field(key@),
    {
        match self {
            JsonValue::Object(ms) => {
                proof {
                    lemma_view_members_len(ms@);
                }
                match find_member(ms, key) {
                    Some(i) => {
                        proof {
                            lemma_lookup_index(view_members(ms@), key@, i as int);
                        }
                        Some(&ms[i].value)
                    },
                    None => {
                        proof {
                            lemma_lookup_absent(view_members(ms@), key@);
                        }
                        None
                    },
                }
            },
            _ => None,
        }
    }

    /// The text, when `self` is a string.
    pub fn as_str(&self) -> (r: Option<&str>)
        ensures
            match r {
                Some(s) => self@.as_str() == Some(s@),
                None => self@.as_str() is None,
            },
    {
        match self {
            JsonValue::String(s) => Some(s.as_str()),
            _ => None,
        }
    }

    /// The number as an `i64`, when it is an integer in range.
    pub fn as_i64(&self) -> (r: Option<i64>)
        ensures
            r == self@.as_i64(),
    {
        match self {
            JsonValue::Number(JsonNumber::PosInt(u)) => {
                if *u <= 0x7fff_ffff_ffff_ffffu64 {
                    Some(*u as i64)
                } else {
                    None
                }
            },
            JsonValue::Number(JsonNumber::NegInt(i)) => Some(*i),
            _ => None,
        }
    }

    /// The number as a `u64`, when it is an integer in range.
    pub fn as_u64(&self) -> (r: Option<u64>)
        ensures
            r == self@.as_u64(),
    {
        match self {
            JsonValue::Number(JsonNumber::PosInt(u)) => Some(*u),
            JsonValue::Number(JsonNumber::NegInt(i)) => {
                if *i >= 0 {
                    Some(*i as u64)
                } else {
                    None
                }
            },
            _ => None,
        }
    }

    /// The boolean, when `self` is one.
    pub fn as_bool(&self) -> (r: Option<bool>)
        ensures
            r == self@.as_bool(),
    {
        match self {
            JsonValue::Bool(b) => Some(*b),
            _ => None,
        }
    }

    /// The elements, when `self` is an array.
    pub fn as_array(&self) -> (r: Option<&Vec<JsonValue>>)
        ensures
            match r {
                Some(a) => self@.as_array() == Some(view_json_seq(a@)),
                None => self@.as_array() is None,
            },
    {
        match self {
            JsonValue::Array(a) => Some(a),
            _ => None,
        }
    }

    /// Whether `self` is an object.
    pub fn is_object(&self) -> (r: bool)
        ensures
            r == (self@ is Object),
    {
        match self {
            JsonValue::Object(_) => true,
            _ => false,
        }
    }

    /// Sets `key` to `value` when `self` is an object; other values are left unchanged.
    pub fn insert(&mut self, key: &str, value: JsonValue)
        ensures
            final(self)@ == old(self)@.with_field(key@, value@),
    {
        match self {
            JsonValue::Object(ms) => {
                proof {
                    lemma_view_members_len(ms@);
                }
                let ghost old_ms = ms@;
                let ghost vms = view_members(ms@);
                let ghost vv = value@;
                match find_member(ms, key) {
                    Some(i) => {
                        let k = string_from_str(key);
                        let member = JsonMember { key: k, value };
                        ms.set(i, member);
                        proof {
                            lemma_lookup_index(vms, key@, i as int);
                            lemma_view_members_len(ms@);
                            assert(view_members(ms@) =~= vms.update(i as int, (key@, vv)));
                        }
                    },
                    None => {
                        let k = string_from_str(key);
                        ms.push(JsonMember { key: k, value });
                        proof {
                            lemma_lookup_absent(vms, key@);
                            lemma_view_members_len(ms@);
                            assert(view_members(ms@) =~= vms.push((key@, vv)));
                        }
                    },
                }
            },
            _ => {},
        }
    }

    /// Adds `key: value` as a new last member when `self` is an object
    /// (used to build objects whose keys are known to be distinct).
    pub fn push_member(&mut self, key: &str, value: JsonValue)
        ensures
            final(self)@ == match old(self)@ {
                Json::Object(ms) => Json::Object(ms.push((key@, value@))),
                other => other,
            },
    {
        match self {
            JsonValue::Object(ms) => {
                let ghost vms = view_members(ms@);
                let ghost vv = value@;
                proof {
                    lemma_view_members_len(ms@);
                }
                let k = string_from_str(key);
                ms.push(JsonMember { key: k, value });
                proof {
                    lemma_view_members_len(ms@);
                    assert(view_members(ms@) =~= vms.push((key@, vv)));
                }
            },
            _ => {},
        }
    }

    /// A value with the same meaning as `self`.
    #[verifier::loop_isolation(false)]
    pub fn deep_clone(&self) -> (r: JsonValue)
        ensures
            r@ == self@,
        decreases self,
    {
        match self {
            JsonValue::Null => JsonValue::Null,
            JsonValue::Bool(b) => JsonValue::Bool(*b),
            JsonValue::Number(JsonNumber::PosInt(u)) => JsonValue::Number(JsonNumber::PosInt(*u)),
            JsonValue::Number(JsonNumber::NegInt(i)) => JsonValue::Number(JsonNumber::NegInt(*i)),
            JsonValue::Number(JsonNumber::Float(s)) => JsonValue::Number(JsonNumber::Float(s.clone())),
            JsonValue::String(s) => JsonValue::String(s.clone()),
            JsonValue::Array(a) => {
                let mut out: Vec<JsonValue> = Vec::new();
                let mut i: usize = 0;
                while i < a.len()
                    invariant
                        i <= a.len(),
                        out.len() == i,
                        forall|j: int| 0 <= j < i ==> #[trigger] view_json(out@[j]) == view_json(a@[j]),
                    decreases a.len() - i,
                {
                    proof {
                        broadcast use vstd::std_specs::vec::axiom_vec_index_decreases;
                        assert(decreases_to!(*a => a[i as int]));
                        assert(decreases_to!(*self => a[i as int]));
                    }
                    let c = a[i].deep_clone();
                    out.push(c);
                    i = i + 1;
                }
                proof {
                    lemma_view_json_seq_len(a@);
                    lemma_view_json_seq_len(out@);
                    assert(view_json_seq(out@) =~= view_json_seq(a@));
                }
                JsonValue::Array(out)
            },
            JsonValue::Object(ms) => {
                let mut out: Vec<JsonMember> = Vec::new();
                let mut i: usize = 0;
                while i < ms.len()
                    invariant
                        i <= ms.len(),
                        out.len() == i,
                        forall|j: int| 0 <= j < i ==> #[trigger] out@[j].key@ == ms@[j].key@,
                        forall|j: int| 0 <= j < i ==> #[trigger] view_json(out@[j].value) == view_json(ms@[j].value),
                    decreases ms.len() - i,
                {
                    proof {
                        broadcast use vstd::std_specs::vec::axiom_vec_index_decreases;
                        assert(decreases_to!(*ms => ms[i as int]));
                        assert(decreases_to!(*ms => ms[i as int].value));
                        assert(decreases_to!(*self => ms[i as int].value));
                    }
                    let v = ms[i].value.deep_clone();
                    let k = ms[i].key.clone();
                    out.push(JsonMember { key: k, value: v });
                    i = i + 1;
                }
                proof {
                    lemma_view_members_len(ms@);
                    lemma_view_members_len(out@);
                    assert(view_members(out@) =~= view_members(ms@));
                }
                JsonValue::Object(out)
            },
        }
    }

    /// An empty object.
    pub fn new_object() -> (r: JsonValue)
        ensures
            r@ == Json::Object(Seq::empty()),
    {
        let ms: Vec<JsonMember> = Vec::new();
        proof {
            assert(view_members(ms@) =~= Seq::<(Seq<char>, Json)>::empty());
        }
        JsonValue::Object(ms)
    }

    /// The JSON text value `s`.
    pub fn from_str(s: &str) -> (r: JsonValue)
        ensures
            r@ == Json::Str(s@),
    {
        JsonValue::String(string_from_str(s))
    }

    /// The JSON integer `n`.
    pub fn from_i64(n: i64) -> (r: JsonValue)
        ensures
            r@ == Json::Int(n as int),
    {
        if n >= 0 {
            JsonValue::Number(JsonNumber::PosInt(n as u64))
        } else {
            JsonValue::Number(JsonNumber::NegInt(n))
        }
    }

    /// The JSON integer `n`.
    pub fn from_u64(n: u64) -> (r: JsonValue)
        ensures
            r@ == Json::Int(n as int),
    {
        JsonValue::Number(JsonNumber::PosInt(n))
    }

    /// An array of the given elements.
    pub fn from_vec(a: Vec<JsonValue>) -> (r: JsonValue)
        ensures
            r@ == Json::Array(Seq::new(a.len() as nat, |i: int| a@[i]@)),
    {
        proof {
            lemma_view_json_seq_len(a@);
            assert(view_json_seq(a@) =~= Seq::new(a.len() as nat, |i: int| a@[i]@));
        }
        JsonValue::Array(a)
    }
}

/// The JSON array of the numbers in `bytes`.
pub open spec fn bytes_json(bytes: Seq<u8>) -> Seq<Json> {
    Seq::new(bytes.len(), |i: int| Json::Int(bytes[i] as int))
}

impl JsonValue {
    /// The bytes as a JSON array of numbers.
    pub fn from_bytes(bytes: &[u8]) -> (r: JsonValue)
        ensures
            r@ == Json::Array(bytes_json(bytes@)),
    {
        let mut out: Vec<JsonValue> = Vec::new();
        let mut i: usize = 0;
        while i < bytes.len()
            invariant
                i <= bytes.len(),
                out.len() == i,
                forall|j: int| 0 <= j < i ==> #[trigger] out@[j]@ == Json::Int(bytes@[j] as int),
            decreases bytes.len() - i,
        {
            out.push(JsonValue::Number(JsonNumber::PosInt(bytes[i] as u64)));
            i = i + 1;
        }
        proof {
            lemma_view_json_seq_len(out@);
            assert forall|j: int| 0 <= j < out@.len() implies #[trigger] view_json_seq(out@)[j] == bytes_json(bytes@)[j] by {
                assert(out@[j]@ == Json::Int(bytes@[j] as int));
            }
            assert(view_json_seq(out@) =~= bytes_json(bytes@));
        }
        JsonValue::Array(out)
    }
}

/// Following a path of one key is reading that key.
pub proof fn lemma_at_path_one(j: Json, a: Seq<char>)
    ensures
        j.at_path(seq![a]) == j.field(a),
{
    let p = seq![a];
    assert(p.subrange(1, 1) =~= Seq::<Seq<char>>::empty());
    match j.field(a) {
        Some(x) => {
            assert(x.at_path(Seq::<Seq<char>>::empty()) == Some(x));
        },
        None => {},
    }
}

/// Following a path of two keys.
pub proof fn lemma_at_path_two(j: Json, a: Seq<char>, b: Seq<char>)
    ensures
        j.at_path(seq![a, b]) == match j.field(a) {
            Some(x) => x.field(b),
            None => None,
        },
{
    let p = seq![a, b];
    assert(p.subrange(1, 2) =~= seq![b]);
    match j.field(a) {
        Some(x) => lemma_at_path_one(x, b),
        None => {},
    }
}

/// Following a path of three keys.
pub proof fn lemma_at_path_three(j: Json, a: Seq<char>, b: Seq<char>, c: Seq<char>)
    ensures
        j.at_path(seq![a, b, c]) == match j.field(a) {
            Some(x) => x.at_path(seq![b, c]),
            None => None,
        },
{
    let p = seq![a, b, c];
    assert(p.subrange(1, 3) =~= seq![b, c]);
}

/// Members added one by one to an empty object, in order.
pub proof fn lemma_members_one(a: (Seq<char>, Json))
    ensures
        Seq::<(Seq<char>, Json)>::empty().push(a) == seq![a],
{
    assert(Seq::<(Seq<char>, Json)>::empty().push(a) =~= seq![a]);
}

/// Members added one by one to an empty object, in order.
pub proof fn lemma_members_two(a: (Seq<char>, Json), b: (Seq<char>, Json))
    ensures
        Seq::<(Seq<char>, Json)>::empty().push(a).push(b) == seq![a, b],
{
    assert(Seq::<(Seq<char>, Json)>::empty().push(a).push(b) =~= seq![a, b]);
}

/// Members added one by one to an empty object, in order.
pub proof fn lemma_members_three(a: (Seq<char>, Json), b: (Seq<char>, Json), c: (Seq<char>, Json))
    ensures
        Seq::<(Seq<char>, Json)>::empty().push(a).push(b).push(c) == seq![a, b, c],
{
    assert(Seq::<(Seq<char>, Json)>::empty().push(a).push(b).push(c) =~= seq![a, b, c]);
}

proof fn lemma_lookup_set_member(ms: Seq<(Seq<char>, Json)>, key: Seq<char>, val: Json, other: Seq<char>)
    ensures
        lookup(set_member(ms, key, val), key) == Some(val),
        other != key ==> lookup(set_member(ms, key, val), other) == lookup(ms, other),
    decreases ms.len(),
{
    let r = set_member(ms, key, val);
    if ms.len() == 0 {
        assert(r == seq![(key, val)]);
        assert(r.subrange(1, 1) =~= Seq::<(Seq<char>, Json)>::empty());
        if other != key {
            assert(lookup(r, other) == lookup(r.subrange(1, 1), other));
        }
    } else if ms[0].0 == key {
        assert(r == ms.update(0, (key, val)));
        assert(r[0] == (key, val));
        assert(r.subrange(1, r.len() as int) =~= ms.subrange(1, ms.len() as int));
        if other != key {
            assert(lookup(r, other) == lookup(ms.subrange(1, ms.len() as int), other));
        }
    } else {
        let rest = ms.subrange(1, ms.len() as int);
        lemma_lookup_set_member(rest, key, val, other);
        assert(r == seq![ms[0]] + set_member(rest, key, val));
        assert(r[0] == ms[0]);
        assert(r.subrange(1, r.len() as int) =~= set_member(rest, key, val));
        if other != key {
            if ms[0].0 == other {
                assert(lookup(r, other) == Some(ms[0].1));
            } else {
                assert(lookup(r, other) == lookup(set_member(rest, key, val), other));
            }
        }
    }
}

/// Setting a field of an object and reading it back gives the value set; the
/// other fields read as before.
pub proof fn lemma_field_after_with_field(j: Json, key: Seq<char>, val: Json, other: Seq<char>)
    requires
        j is Object,
    ensures
        j.with_field(key, val).field(key) == Some(val),
        other != key ==> j.with_field(key, val).field(other) == j.field(other),
{
    match j {
        Json::Object(ms) => lemma_lookup_set_member(ms, key, val, other),
        _ => {},
    }
}

} // verus!
