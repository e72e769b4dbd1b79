use vstd::prelude::*;
use crate::dict::Dict;
use crate::text::{i64_to_text, int_text, parse_i64, parse_int_text};

verus! {

/// A 64-bit float as the library carries it. The library never computes with
/// floats: it keeps the float's bit pattern, its shortest decimal text, and its
/// value truncated toward zero (saturating at the bounds of `i64`, NaN as 0),
/// all three filled in where the float was made.
#[derive(Debug, Clone, PartialEq)]
pub struct Float64 {
    pub bits: u64,
    pub text: String,
    pub truncated: i64,
}

/// A number: one that fits in `i64`, or any other, kept as a float.
#[derive(Debug, Clone, PartialEq)]
pub enum Number {
    Int(i64),
    Float(Float64),
}

/// A JSON document.
#[derive(Debug, PartialEq)]
pub enum JsonValue {
    Null,
    Bool(bool),
    Number(Number),
    String(String),
    Array(Vec<JsonValue>),
    Object(Dict<JsonValue>),
}

/// A value of the Hayashi language.
#[derive(Debug, PartialEq)]
pub enum HayashiValue {
    Str(String),
    Int(i64),
    Float(Float64),
    List(Vec<HayashiValue>),
    Dict(Dict<HayashiValue>),
}

impl Float64 {
    /// A copy of this float.
    pub fn duplicate(&self) -> (r: Float64)
        ensures
            r == *self,
    {
        Float64 { bits: self.bits, text: self.text.clone(), truncated: self.truncated }
    }
}

/// The text of a boolean, as JSON writes it.
pub open spec fn bool_text(b: bool) -> Seq<char> {
    if b {
        seq!['t', 'r', 'u', 'e']
    } else {
        seq!['f', 'a', 'l', 's', 'e']
    }
}

/// `h` is what a JSON value `j` becomes as a Hayashi value: null becomes the
/// empty string, a boolean its text, a number that fits in `i64` an integer,
/// any other number a float, a string itself, and arrays and objects become
/// lists and dictionaries of their converted items, keys kept in order.
pub open spec fn converts(j: JsonValue, h: HayashiValue) -> bool
    decreases j,
    via converts_decreases
{
    match j {
        JsonValue::Null => h matches HayashiValue::Str(s) && s@ == Seq::<char>::empty(),
        JsonValue::Bool(b) => h matches HayashiValue::Str(s) && s@ == bool_text(b),
        JsonValue::Number(Number::Int(i)) => h matches HayashiValue::Int(x) && x == i,
        JsonValue::Number(Number::Float(f)) => h matches HayashiValue::Float(g) && g == f,
        JsonValue::String(s) => h matches HayashiValue::Str(t) && t@ == s@,
        JsonValue::Array(a) => h matches HayashiValue::List(l) && l@.len() == a@.len() && forall|
            i: int,
        |
            0 <= i < a@.len() ==> converts(#[trigger] a@[i], l@[i]),
        JsonValue::Object(o) => h matches HayashiValue::Dict(d) && d.key_seq() == o.key_seq()
            && d.value_seq().len() == o.value_seq().len() && forall|i: int|
            0 <= i < o.value_seq().len() ==> converts(#[trigger] o.value_seq()[i], d.value_seq()[i]),
    }
}

#[via_fn]
proof fn converts_decreases(j: JsonValue, h: HayashiValue) {
    match j {
        JsonValue::Array(a) => {
            assert forall|i: int| 0 <= i < a@.len() implies decreases_to!(j => #[trigger] a@[i]) by {
                assert(decreases_to!(j => a));
                assert(decreases_to!(a => a@));
                assert(decreases_to!(a@ => a@[i]));
            }
        },
        JsonValue::Object(o) => {
            assert forall|i: int| 0 <= i < o.value_seq().len() implies decreases_to!(j => #[trigger] o.value_seq()[i]) by {
                o.lemma_value_decreases(i);
            }
        },
        _ => {},
    }
}

/// The value of `key` in a JSON object; `None` for a missing key and for
/// anything but an object.
pub open spec fn field(j: JsonValue, key: Seq<char>) -> Option<JsonValue> {
    match j {
        JsonValue::Object(o) => if o.as_map().contains_key(key) {
            Some(o.as_map()[key])
        } else {
            None
        },
        _ => None,
    }
}

/// `j[key]` as serde_json reads it: the value of `key`, or null.
pub open spec fn index(j: JsonValue, key: Seq<char>) -> JsonValue {
    match field(j, key) {
        Some(v) => v,
        None => JsonValue::Null,
    }
}

/// The `i`-th item of a JSON array; `None` out of range and for anything but
/// an array.
pub open spec fn elem(j: JsonValue, i: int) -> Option<JsonValue> {
    match j {
        JsonValue::Array(a) => if 0 <= i < a@.len() {
            Some(a@[i])
        } else {
            None
        },
        _ => None,
    }
}

/// The text of a JSON string, `None` for anything else.
pub open spec fn str_of(j: JsonValue) -> Option<Seq<char>> {
    match j {
        JsonValue::String(s) => Some(s@),
        _ => None,
    }
}

/// The text of `j[key]` if it is a string, else the empty text.
pub open spec fn str_or_empty(j: JsonValue, key: Seq<char>) -> Seq<char> {
    match str_of(index(j, key)) {
        Some(s) => s,
        None => Seq::empty(),
    }
}

/// The texts held by an optional string.
pub open spec fn text_opt(r: Option<String>) -> Option<Seq<char>> {
    match r {
        Some(s) => Some(s@),
        None => None,
    }
}

/// The value of `key` in a JSON object, if there is one.
pub fn json_get<'a>(value: &'a JsonValue, key: &str) -> (r: Option<&'a JsonValue>)
    ensures
        match r {
            Some(v) => field(*value, key@) == Some(*v),
            None => field(*value, key@) is None,
        },
{
    match value {
        JsonValue::Object(o) => o.get(key),
        _ => None,
    }
}

/// The `i`-th item of a JSON array, if there is one.
pub fn json_elem<'a>(value: &'a JsonValue, i: usize) -> (r: Option<&'a JsonValue>)
    ensures
        match r {
            Some(v) => elem(*value, i as int) == Some(*v),
            None => elem(*value, i as int) is None,
        },
{
    match value {
        JsonValue::Array(a) => if i < a.len() {
            Some(&a[i])
        } else {
            None
        },
        _ => None,
    }
}

/// The items of a JSON array; `None` for anything else.
pub fn json_array<'a>(value: &'a JsonValue) -> (r: Option<&'a Vec<JsonValue>>)
    ensures
        match r {
            Some(a) => *value == JsonValue::Array(*a),
            None => !(value is Array),
        },
{
    match value {
        JsonValue::Array(a) => Some(a),
        _ => None,
    }
}

/// The first item of the array `value[key]`, if there is one.
pub fn json_first_of<'a>(value: &'a JsonValue, key: &str) -> (r: Option<&'a JsonValue>)
    ensures
        match r {
            Some(v) => elem(index(*value, key@), 0) == Some(*v),
            None => elem(index(*value, key@), 0) is None,
        },
{
    match json_get(value, key) {
        Some(v) => json_elem(v, 0),
        None => None,
    }
}

/// `value[k1][k2]`, if it is there.
pub fn json_get2<'a>(value: &'a JsonValue, k1: &str, k2: &str) -> (r: Option<&'a JsonValue>)
    ensures
        match r {
            Some(v) => field(index(*value, k1@), k2@) == Some(*v),
            None => field(index(*value, k1@), k2@) is None,
        },
{
    match json_get(value, k1) {
        Some(v) => json_get(v, k2),
        None => None,
    }
}

/// `value[key]` converted to a Hayashi value (null, hence the empty string,
/// when the key is missing).
pub fn index_to_hayashi(value: &JsonValue, key: &str) -> (r: HayashiValue)
    ensures
        converts(index(*value, key@), r),
{
    match json_get(value, key) {
        Some(v) => json_value_to_hayashi(v),
        None => HayashiValue::Str(String::new()),
    }
}

/// The text of the string `value[key]`, or the empty string when that is not
/// a string.
pub fn json_str(value: &JsonValue, key: &str) -> (r: String)
    ensures
        r@ == str_or_empty(*value, key@),
{
    match json_get(value, key) {
        Some(JsonValue::String(s)) => s.clone(),
        _ => String::new(),
    }
}

/// The text of the string `value[key]`, if it is a string.
pub fn json_opt_str(value: &JsonValue, key: &str) -> (r: Option<String>)
    ensures
        text_opt(r) == str_of(index(*value, key@)),
{
    match json_get(value, key) {
        Some(JsonValue::String(s)) => Some(s.clone()),
        _ => None,
    }
}

/// The number `value[key]`, if it is a number.
pub fn json_number<'a>(value: &'a JsonValue, key: &str) -> (r: Option<&'a Number>)
    ensures
        match r {
            Some(n) => index(*value, key@) == JsonValue::Number(*n),
            None => !(index(*value, key@) is Number),
        },
{
    match json_get(value, key) {
        Some(JsonValue::Number(n)) => Some(n),
        _ => None,
    }
}

/// The integer of a JSON value as serde_json's `as_i64` reads it, 0 when it
/// has none.
pub open spec fn int_or_zero(j: JsonValue) -> i64 {
    match j {
        JsonValue::Number(Number::Int(i)) => i,
        _ => 0,
    }
}

/// The `i`-th item of the array `value[key]` if it is a number.
pub open spec fn number_at(value: JsonValue, key: Seq<char>, i: int) -> Option<Number> {
    match elem(index(value, key), i) {
        Some(JsonValue::Number(n)) => Some(n),
        _ => None,
    }
}

impl Number {
    /// A copy of this number.
    pub fn duplicate(&self) -> (r: Number)
        ensures
            r == *self,
    {
        match self {
            Number::Int(i) => Number::Int(*i),
            Number::Float(f) => Number::Float(f.duplicate()),
        }
    }
}

/// The number that a JSON value is, if it is one.
pub fn as_number(value: &JsonValue) -> (r: Option<Number>)
    ensures
        match *value {
            JsonValue::Number(n) => r == Some(n),
            _ => r is None,
        },
{
    match value {
        JsonValue::Number(n) => Some(n.duplicate()),
        _ => None,
    }
}

/// The integer of a JSON value, 0 when it is no integer that fits in `i64`.
pub fn as_i64_or_zero(value: &JsonValue) -> (r: i64)
    ensures
        r == int_or_zero(*value),
{
    match value {
        JsonValue::Number(Number::Int(i)) => *i,
        _ => 0,
    }
}

/// The `i`-th item of the array `value[key]`, if it is a number.
pub fn array_number(value: &JsonValue, key: &str, i: usize) -> (r: Option<Number>)
    ensures
        r == number_at(*value, key@, i as int),
{
    match json_get(value, key) {
        Some(a) => match json_elem(a, i) {
            Some(x) => as_number(x),
            None => None,
        },
        None => None,
    }
}

/// What a Hayashi value gives as an option text: a string itself, an integer
/// its decimal text, a float its text; lists and dictionaries give nothing.
pub open spec fn value_text(v: HayashiValue) -> Option<Seq<char>> {
    match v {
        HayashiValue::Str(s) => Some(s@),
        HayashiValue::Int(i) => Some(int_text(i as int)),
        HayashiValue::Float(f) => Some(f.text@),
        _ => None,
    }
}

/// What a Hayashi value gives as an option integer: an integer itself, a float
/// truncated toward zero, a string parsed as an `i64`.
pub open spec fn value_int(v: HayashiValue) -> Option<i64> {
    match v {
        HayashiValue::Int(i) => Some(i),
        HayashiValue::Float(f) => Some(f.truncated),
        HayashiValue::Str(s) => parse_int_text(s@),
        _ => None,
    }
}

/// The value of `key` in an options dictionary, if present.
pub open spec fn option_value(opts: Dict<HayashiValue>, key: Seq<char>) -> Option<HayashiValue> {
    if opts.as_map().contains_key(key) {
        Some(opts.as_map()[key])
    } else {
        None
    }
}

/// The option text of `key` (see `value_text`); `None` when absent.
pub open spec fn option_text(opts: Dict<HayashiValue>, key: Seq<char>) -> Option<Seq<char>> {
    match option_value(opts, key) {
        Some(v) => value_text(v),
        None => None,
    }
}

/// The option integer of `key` (see `value_int`); `None` when absent.
pub open spec fn option_int(opts: Dict<HayashiValue>, key: Seq<char>) -> Option<i64> {
    match option_value(opts, key) {
        Some(v) => value_int(v),
        None => None,
    }
}

/// Reads an option as text.
pub fn opt_str(opts: &Dict<HayashiValue>, key: &str) -> (r: Option<String>)
    ensures
        text_opt(r) == option_text(*opts, key@),
{
    match opts.get(key) {
        Some(HayashiValue::Str(s)) => Some(s.clone()),
        Some(HayashiValue::Int(i)) => Some(i64_to_text(*i)),
        Some(HayashiValue::Float(f)) => Some(f.text.clone()),
        _ => None,
    }
}

/// Reads an option as an integer.
pub fn opt_i64(opts: &Dict<HayashiValue>, key: &str) -> (r: Option<i64>)
    ensures
        r == option_int(*opts, key@),
{
    match opts.get(key) {
        Some(HayashiValue::Int(i)) => Some(*i),
        Some(HayashiValue::Float(f)) => Some(f.truncated),
        Some(HayashiValue::Str(s)) => parse_i64(s.as_str()),
        _ => None,
    }
}

/// An integer option reads the same whether it is given as an integer or as
/// the text that `opt_str` makes of it.
pub proof fn law_int_option_as_text(i: i64, s: String)
    requires
        s@ == int_text(i as int),
    ensures
        value_text(HayashiValue::Int(i)) == Some(s@),
        value_int(HayashiValue::Str(s)) == value_int(HayashiValue::Int(i)),
{
    crate::text::law_int_text_round_trip(i);
}

/// Converting an object keeps its keys: the dictionary has exactly the keys of
/// the object, and under each key the converted value of that key.
pub proof fn law_object_keys_kept(o: Dict<JsonValue>, d: Dict<HayashiValue>, k: Seq<char>)
    requires
        o.wf(),
        d.wf(),
        converts(JsonValue::Object(o), HayashiValue::Dict(d)),
    ensures
        d.as_map().contains_key(k) == o.as_map().contains_key(k),
        o.as_map().contains_key(k) ==> converts(o.as_map()[k], d.as_map()[k]),
{
    o.lemma_keys(k);
    d.lemma_keys(k);
    if o.key_seq().contains(k) {
        let i = choose|i: int| 0 <= i < o.key_seq().len() && o.key_seq()[i] == k;
        o.lemma_map_at(i);
        d.lemma_map_at(i);
    }
}

/// An option given as a string reads as that very string, whatever its
/// length; one given as an integer reads as that very integer.
pub proof fn law_options_read_as_given(opts: Dict<HayashiValue>, key: Seq<char>)
    ensures
        option_value(opts, key) matches Some(HayashiValue::Str(s)) ==> option_text(opts, key) == Some(
            s@,
        ),
        option_value(opts, key) matches Some(HayashiValue::Int(i)) ==> option_int(opts, key) == Some(
            i,
        ),
        option_value(opts, key) is None ==> option_text(opts, key) is None && option_int(opts, key) is None,
        opts.as_map().contains_key(key) ==> option_value(opts, key) == Some(opts.as_map()[key]),
{
}

/// Converting JSON keeps every scalar: an integer becomes the same integer
/// (negative ones included), a float the same float, a string the same text,
/// null the empty text, a boolean the text `true` or `false`; an array
/// becomes a list of the same length.
pub proof fn law_scalars_kept(j: JsonValue, h: HayashiValue)
    requires
        converts(j, h),
    ensures
        j matches JsonValue::Number(Number::Int(i)) ==> h == HayashiValue::Int(i),
        j matches JsonValue::Number(Number::Float(f)) ==> h == HayashiValue::Float(f),
        j matches JsonValue::String(s) ==> (h matches HayashiValue::Str(t) && t@ == s@),
        j is Null ==> (h matches HayashiValue::Str(t) && t@.len() == 0),
        j matches JsonValue::Bool(b) ==> (h matches HayashiValue::Str(t) && t@ == (if b {
            "true"@
        } else {
            "false"@
        })),
        j matches JsonValue::Array(a) ==> (h matches HayashiValue::List(l) && l@.len() == a@.len()),
{
    reveal_strlit("true");
    reveal_strlit("false");
}

/// Reading JSON as serde_json indexes it: an object's key gives the value
/// stored under it, and null when missing; anything but an object gives null;
/// an array's place gives the item there; a key read as text gives the
/// string stored there, else the empty text; a series read at a place gives
/// the number stored there, else nothing.
pub proof fn law_json_reads(j: JsonValue, key: Seq<char>, i: int)
    ensures
        j matches JsonValue::Object(o) ==> (o.as_map().contains_key(key) ==> index(j, key)
            == o.as_map()[key]),
        j matches JsonValue::Object(o) ==> (!o.as_map().contains_key(key) ==> index(j, key) is Null),
        !(j is Object) ==> index(j, key) is Null,
        j matches JsonValue::Array(a) ==> (0 <= i < a@.len() ==> elem(j, i) == Some(a@[i])),
        j matches JsonValue::Array(a) ==> (!(0 <= i < a@.len()) ==> elem(j, i) is None),
        index(j, key) matches JsonValue::String(s) ==> str_or_empty(j, key) == s@,
        !(index(j, key) is String) ==> str_or_empty(j, key).len() == 0,
        index(j, key) matches JsonValue::Array(a) ==> (0 <= i < a@.len() ==> (a@[i] matches JsonValue::Number(n)
            ==> number_at(j, key, i) == Some(n))),
        index(j, key) matches JsonValue::Array(a) ==> (0 <= i < a@.len() ==> (!(a@[i] is Number)
            ==> number_at(j, key, i) is None)),
        !(index(j, key) is Array) ==> number_at(j, key, i) is None,
{
}

/// Converts a JSON value into a Hayashi value (see `converts`).
pub fn json_value_to_hayashi(value: &JsonValue) -> (r: HayashiValue)
    ensures
        converts(*value, r),
    decreases value,
{
    match value {
        JsonValue::Null => HayashiValue::Str(String::new()),
        JsonValue::Bool(b) => {
            let t = if *b {
                proof {
                    reveal_strlit("true");
                }
                String::from_str("true")
            } else {
                proof {
                    reveal_strlit("false");
                }
                String::from_str("false")
            };
            assert(t@ =~= bool_text(*b));
            HayashiValue::Str(t)
        },
        JsonValue::Number(Number::Int(i)) => HayashiValue::Int(*i),
        JsonValue::Number(Number::Float(f)) => HayashiValue::Float(f.duplicate()),
        JsonValue::String(s) => HayashiValue::Str(s.clone()),
        JsonValue::Array(a) => {
            let mut out: Vec<HayashiValue> = Vec::new();
            let mut i: usize = 0;
            proof {
                assert forall|j: int| 0 <= j < a@.len() implies decreases_to!(*value => #[trigger] a@[j]) by {
                    assert(decreases_to!(*value => *a));
                    assert(decreases_to!(*a => a@));
                    assert(decreases_to!(a@ => a@[j]));
                }
            }
            while i < a.len()
                invariant
                    forall|j: int| 0 <= j < a@.len() ==> decreases_to!(*value => #[trigger] a@[j]),
                    i <= a@.len(),
                    out@.len() == i,
                    forall|j: int| 0 <= j < i ==> converts(#[trigger] a@[j], out@[j]),
                decreases a@.len() - i,
            {
                let h = json_value_to_hayashi(&a[i]);
                out.push(h);
                i = i + 1;
            }
            HayashiValue::List(out)
        },
        JsonValue::Object(o) => {
            proof {
                use_type_invariant(o);
                o.lemma_distinct();
                o.lemma_lens();
            }
            let mut d: Dict<HayashiValue> = Dict::new();
            proof {
                d.lemma_lens();
                assert forall|j: int| 0 <= j < o.value_seq().len() implies decreases_to!(*value => #[trigger] o.value_seq()[j]) by {
                    assert(decreases_to!(*value => *o));
                    o.lemma_value_decreases(j);
                }
            }
            let n = o.len();
            let mut i: usize = 0;
            while i < n
                invariant
                    n == o.key_seq().len(),
                    forall|j: int| 0 <= j < o.value_seq().len() ==> decreases_to!(*value => #[trigger] o.value_seq()[j]),
                    o.key_seq().len() == o.value_seq().len(),
                    forall|x: int, y: int|
                        0 <= x < y < o.key_seq().len() ==> #[trigger] o.key_seq()[x]
                            != #[trigger] o.key_seq()[y],
                    i <= n,
                    d.key_seq() == o.key_seq().take(i as int),
                    d.value_seq().len() == i,
                    forall|j: int|
                        0 <= j < i ==> converts(#[trigger] o.value_seq()[j], d.value_seq()[j]),
                decreases n - i,
            {
                let k = o.key_at(i);
                let v = o.value_at(i);
                proof {
                    d.lemma_lens();
                    d.lemma_keys(k@);
                    if d.key_seq().contains(k@) {
                        let j = choose|j: int| 0 <= j < d.key_seq().len() && d.key_seq()[j] == k@;
                        assert(o.key_seq()[j] == o.key_seq()[i as int]);
                    }
                }
                let h = json_value_to_hayashi(v);
                d.insert(k.clone(), h);
                i = i + 1;
                assert(d.key_seq() =~= o.key_seq().take(i as int));
            }
            assert(d.key_seq() =~= o.key_seq());
            HayashiValue::Dict(d)
        },
    }
}

/// Converts a JSON object into a Hayashi dictionary, key by key; anything but
/// an object gives the empty dictionary.
pub fn json_object_to_dict(value: &JsonValue) -> (r: Dict<HayashiValue>)
    ensures
        match value {
            JsonValue::Object(o) => converts(*value, HayashiValue::Dict(r)),
            _ => r.key_seq() == Seq::<Seq<char>>::empty() && r.as_map() == Map::<
                Seq<char>,
                HayashiValue,
            >::empty(),
        },
{
    match value {
        JsonValue::Object(_) => {
            match json_value_to_hayashi(value) {
                HayashiValue::Dict(d) => d,
                _ => {
                    assert(false);
                    Dict::new()
                },
            }
        },
        _ => Dict::new(),
    }
}

} // verus!
