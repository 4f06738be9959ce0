//! JSON values as the library reads and builds them.
//!
//! `Json` mirrors `serde_json::Value` (numbers keep serde_json's three
//! kinds; a float is carried by its text). Its model `JsonV` replaces
//! strings and vectors by sequences, and the specifications of the
//! readers below follow the `serde_json::Value` accessors they stand for.

use vstd::prelude::*;
use crate::text::{chars_of, dec, is_ascii_digit, str_views, trim};

verus! {

/// A JSON number as serde_json keeps it.
pub enum JsonNumber {
    PosInt(u64),
    NegInt(i64),
    /// A number with a fraction or exponent, by its text.
    Float(String),
}

/// A JSON value; an object's fields keep their order, and a key is
/// looked up at its first occurrence.
pub enum Json {
    Null,
    Bool(bool),
    Number(JsonNumber),
    Str(String),
    Array(Vec<Json>),
    Object(Vec<(String, Json)>),
}

/// Model of a JSON number.
pub enum NumberV {
    PosInt(u64),
    NegInt(i64),
    Float(Seq<char>),
}

/// Model of a JSON value.
pub enum JsonV {
    Null,
    Bool(bool),
    Number(NumberV),
    Str(Seq<char>),
    Array(Seq<JsonV>),
    Object(Seq<(Seq<char>, JsonV)>),
}

pub open spec fn number_view(n: JsonNumber) -> NumberV {
    match n {
        JsonNumber::PosInt(u) => NumberV::PosInt(u),
        JsonNumber::NegInt(i) => NumberV::NegInt(i),
        JsonNumber::Float(s) => NumberV::Float(s@),
    }
}

/// The model of a JSON value.
pub open spec fn json_view(j: Json) -> JsonV
    decreases j,
{
    match j {
        Json::Null => JsonV::Null,
        Json::Bool(b) => JsonV::Bool(b),
        Json::Number(n) => JsonV::Number(number_view(n)),
        Json::Str(s) => JsonV::Str(s@),
        Json::Array(items) => JsonV::Array(
            Seq::new(items@.len(), |i: int| if 0 <= i < items@.len() { json_view(items@[i]) } else { JsonV::Null }),
        ),
        Json::Object(fields) => JsonV::Object(
            Seq::new(fields@.len(), |i: int| if 0 <= i < fields@.len() { (fields@[i].0@, json_view(fields@[i].1)) } else { (Seq::empty(), JsonV::Null) }),
        ),
    }
}

pub open spec fn fields_view(fields: Seq<(String, Json)>) -> Seq<(Seq<char>, JsonV)> {
    Seq::new(fields.len(), |i: int| (fields[i].0@, json_view(fields[i].1)))
}

pub open spec fn items_view(items: Seq<Json>) -> Seq<JsonV> {
    Seq::new(items.len(), |i: int| json_view(items[i]))
}

pub proof fn lemma_views(j: Json)
    ensures
        j matches Json::Array(items) ==> json_view(j) == JsonV::Array(items_view(items@)),
        j matches Json::Object(fields) ==> json_view(j) == JsonV::Object(fields_view(fields@)),
{
    match j {
        Json::Array(items) => {
            assert(json_view(j)->Array_0 =~= items_view(items@));
        },
        Json::Object(fields) => {
            assert(json_view(j)->Object_0 =~= fields_view(fields@));
        },
        _ => {},
    }
}

// ---------------------------------------------------------------------------
// Reading values (serde_json::Value accessors)
// ---------------------------------------------------------------------------

/// The value of the first field named `key`.
pub open spec fn field_value(fields: Seq<(Seq<char>, JsonV)>, key: Seq<char>) -> Option<JsonV>
    decreases fields.len(),
{
    if fields.len() == 0 {
        None
    } else if fields[0].0 == key {
        Some(fields[0].1)
    } else {
        field_value(fields.drop_first(), key)
    }
}

/// `Value::get(key)`: a field of an object, `None` for other values.
pub open spec fn get(v: JsonV, key: Seq<char>) -> Option<JsonV> {
    match v {
        JsonV::Object(fields) => field_value(fields, key),
        _ => None,
    }
}

/// `Option<&Value>::and_then(|v| v.get(key))`.
pub open spec fn get_opt(v: Option<JsonV>, key: Seq<char>) -> Option<JsonV> {
    match v {
        Some(v) => get(v, key),
        None => None,
    }
}

/// `Value::as_str`.
pub open spec fn as_str(v: JsonV) -> Option<Seq<char>> {
    match v {
        JsonV::Str(s) => Some(s),
        _ => None,
    }
}

pub open spec fn as_str_opt(v: Option<JsonV>) -> Option<Seq<char>> {
    match v {
        Some(v) => as_str(v),
        None => None,
    }
}

/// `Value::as_u64`.
pub open spec fn as_u64(v: JsonV) -> Option<u64> {
    match v {
        JsonV::Number(NumberV::PosInt(u)) => Some(u),
        _ => None,
    }
}

/// `Value::as_i64`.
pub open spec fn as_i64(v: JsonV) -> Option<i64> {
    match v {
        JsonV::Number(NumberV::PosInt(u)) => if u <= i64::MAX {
            Some(u as i64)
        } else {
            None
        },
        JsonV::Number(NumberV::NegInt(i)) => Some(i),
        _ => None,
    }
}

/// `Value::as_array`.
pub open spec fn as_array(v: JsonV) -> Option<Seq<JsonV>> {
    match v {
        JsonV::Array(items) => Some(items),
        _ => None,
    }
}

/// `Value::is_object`.
pub open spec fn is_object(v: JsonV) -> bool {
    v is Object
}

/// Value of a run of decimal digits.
pub open spec fn digits_value(s: Seq<char>) -> nat
    decreases s.len(),
{
    if s.len() == 0 {
        0
    } else {
        (digits_value(s.drop_last()) * 10 + (s.last() as int - 48)) as nat
    }
}

pub open spec fn all_digits(s: Seq<char>) -> bool {
    forall|i: int| 0 <= i < s.len() ==> is_ascii_digit(#[trigger] s[i])
}

/// `u64::from_str`: an optional `+`, then at least one decimal digit, and
/// a value that fits.
pub open spec fn parse_u64(s: Seq<char>) -> Option<u64> {
    let d = if s.len() > 0 && s[0] == '+' {
        s.drop_first()
    } else {
        s
    };
    if d.len() > 0 && all_digits(d) && digits_value(d) <= u64::MAX {
        Some(digits_value(d) as u64)
    } else {
        None
    }
}

/// A count read from a number or a numeric text.
pub open spec fn u64_value(v: JsonV) -> Option<u64> {
    match as_u64(v) {
        Some(n) => Some(n),
        None => match as_i64(v) {
            Some(i) if i >= 0 => Some(i as u64),
            _ => match as_str(v) {
                Some(s) => parse_u64(trim(s)),
                None => None,
            },
        },
    }
}

/// The first of `keys` whose value reads as a count; 0 when none does.
pub open spec fn u64_by_keys(fields: Seq<(Seq<char>, JsonV)>, keys: Seq<Seq<char>>) -> u64
    decreases keys.len(),
{
    if keys.len() == 0 {
        0
    } else {
        match field_value(fields, keys[0]) {
            Some(v) => match u64_value(v) {
                Some(n) => n,
                None => u64_by_keys(fields, keys.drop_first()),
            },
            None => u64_by_keys(fields, keys.drop_first()),
        }
    }
}

/// The first of `keys` holding a non-empty string or a count (as decimal
/// text).
pub open spec fn str_by_keys(fields: Seq<(Seq<char>, JsonV)>, keys: Seq<Seq<char>>) -> Option<
    Seq<char>,
>
    decreases keys.len(),
{
    if keys.len() == 0 {
        None
    } else {
        match field_value(fields, keys[0]) {
            Some(v) => match as_str(v) {
                Some(s) => if s.len() > 0 {
                    Some(s)
                } else {
                    str_by_keys(fields, keys.drop_first())
                },
                None => match u64_value(v) {
                    Some(n) => Some(dec(n as nat)),
                    None => str_by_keys(fields, keys.drop_first()),
                },
            },
            None => str_by_keys(fields, keys.drop_first()),
        }
    }
}

/// The value of the first of `keys` that is present.
pub open spec fn first_by_keys(fields: Seq<(Seq<char>, JsonV)>, keys: Seq<Seq<char>>) -> Option<JsonV>
    decreases keys.len(),
{
    if keys.len() == 0 {
        None
    } else {
        match field_value(fields, keys[0]) {
            Some(v) => Some(v),
            None => first_by_keys(fields, keys.drop_first()),
        }
    }
}

/// Whether a value holds anything: a boolean or number, a non-blank
/// string, or a container with such a value inside.
pub open spec fn non_empty(v: JsonV) -> bool
    decreases v,
{
    match v {
        JsonV::Null => false,
        JsonV::Bool(_) => true,
        JsonV::Number(_) => true,
        JsonV::Str(s) => trim(s).len() > 0,
        JsonV::Array(items) => exists|i: int| 0 <= i < items.len() && non_empty(#[trigger] items[i]),
        JsonV::Object(fields) => exists|i: int|
            0 <= i < fields.len() && non_empty(#[trigger] fields[i].1),
    }
}

// ---------------------------------------------------------------------------
// Executable readers
// ---------------------------------------------------------------------------

/// The first field of `fields` named `key`.
pub fn field_of<'a>(fields: &'a Vec<(String, Json)>, key: &str) -> (r: Option<&'a Json>)
    ensures
        match r {
            Some(x) => field_value(fields_view(fields@), key@) == Some(json_view(*x)),
            None => field_value(fields_view(fields@), key@) is None,
        },
{
    let k = key.to_string();
    let ghost fv = fields_view(fields@);
    let mut i: usize = 0;
    assert(fv.skip(0) =~= fv);
    while i < fields.len()
        invariant
            i <= fields@.len(),
            k@ == key@,
            fv == fields_view(fields@),
            field_value(fv, key@) == field_value(fv.skip(i as int), key@),
        decreases fields@.len() - i,
    {
        let ghost rest = fv.skip(i as int);
        assert(rest[0] == (fields@[i as int].0@, json_view(fields@[i as int].1)));
        assert(rest.drop_first() =~= fv.skip(i + 1));
        if fields[i].0 == k {
            return Some(&fields[i].1);
        }
        i += 1;
    }
    assert(fv.skip(i as int) =~= Seq::<(Seq<char>, JsonV)>::empty());
    None
}

impl Json {
    /// `Value::get`: a field of an object.
    pub fn get(&self, key: &str) -> (r: Option<&Json>)
        ensures
            match r {
                Some(x) => get(json_view(*self), key@) == Some(json_view(*x)),
                None => get(json_view(*self), key@) is None,
            },
    {
        proof {
            lemma_views(*self);
        }
        match self {
            Json::Object(fields) => field_of(fields, key),
            _ => None,
        }
    }

    /// `Value::as_str`.
    pub fn as_str(&self) -> (r: Option<&str>)
        ensures
            match r {
                Some(s) => as_str(json_view(*self)) == Some(s@),
                None => as_str(json_view(*self)) is None,
            },
    {
        match self {
            Json::Str(s) => Some(s.as_str()),
            _ => None,
        }
    }

    /// A copy of the value.
    pub fn deep_copy(&self) -> (r: Json)
        ensures
            json_view(r) == json_view(*self),
        decreases self,
    {
        proof {
            lemma_views(*self);
        }
        match self {
            Json::Null => Json::Null,
            Json::Bool(b) => Json::Bool(*b),
            Json::Number(JsonNumber::PosInt(u)) => Json::Number(JsonNumber::PosInt(*u)),
            Json::Number(JsonNumber::NegInt(i)) => Json::Number(JsonNumber::NegInt(*i)),
            Json::Number(JsonNumber::Float(t)) => Json::Number(JsonNumber::Float(t.clone())),
            Json::Str(s) => Json::Str(s.clone()),
            Json::Array(items) => {
                let mut out: Vec<Json> = Vec::new();
                let mut i: usize = 0;
                while i < items.len()
                    invariant
                        i <= items@.len(),
                        *self == Json::Array(*items),
                        out@.len() == i,
                        forall|k: int| 0 <= k < i ==> json_view(#[trigger] out@[k]) == json_view(
                            items@[k],
                        ),
                    decreases items@.len() - i,
                {
                    proof {
                        assert(decreases_to!(*self => (*self)->Array_0));
                        vstd::std_specs::vec::axiom_vec_decreases_to_view(*items);
                        assert(decreases_to!(*items => items@[i as int]));
                    }
                    let c = items[i].deep_copy();
                    out.push(c);
                    i += 1;
                }
                let r = Json::Array(out);
                proof {
                    lemma_views(r);
                    assert(items_view(out@) =~= items_view(items@));
                }
                r
            },
            Json::Object(fields) => {
                let mut out: Vec<(String, Json)> = Vec::new();
                let mut i: usize = 0;
                while i < fields.len()
                    invariant
                        i <= fields@.len(),
                        *self == Json::Object(*fields),
                        out@.len() == i,
                        forall|k: int|
                            0 <= k < i ==> (#[trigger] out@[k]).0@ == fields@[k].0@ && json_view(
                                out@[k].1,
                            ) == json_view(fields@[k].1),
                    decreases fields@.len() - i,
                {
                    proof {
                        assert(decreases_to!(*self => (*self)->Object_0));
                        vstd::std_specs::vec::axiom_vec_decreases_to_view(*fields);
                        assert(decreases_to!(*fields => fields@[i as int]));
                        assert(decreases_to!(fields@[i as int] => fields@[i as int].1));
                    }
                    let c = fields[i].1.deep_copy();
                    let key = fields[i].0.clone();
                    out.push((key, c));
                    i += 1;
                }
                let r = Json::Object(out);
                proof {
                    lemma_views(r);
                    assert(fields_view(out@) =~= fields_view(fields@));
                }
                r
            },
        }
    }
}

proof fn lemma_digits_prefix(d: Seq<char>, k: int)
    requires
        0 <= k <= d.len(),
        all_digits(d),
    ensures
        digits_value(d.take(k)) <= digits_value(d),
    decreases d.len(),
{
    if k < d.len() {
        assert(all_digits(d.drop_last())) by {
            assert forall|i: int| 0 <= i < d.drop_last().len() implies is_ascii_digit(
                #[trigger] d.drop_last()[i],
            ) by {
                assert(d.drop_last()[i] == d[i]);
            }
        }
        lemma_digits_prefix(d.drop_last(), k);
        assert(d.drop_last().take(k) =~= d.take(k));
        assert(is_ascii_digit(d.last()));
    } else {
        assert(d.take(k) =~= d);
    }
}

/// `u64::from_str` on a character sequence.
pub fn parse_u64_chars(cs: &Vec<char>) -> (r: Option<u64>)
    ensures
        r == parse_u64(cs@),
{
    let n = cs.len();
    let start: usize = if n > 0 && cs[0] == '+' {
        1
    } else {
        0
    };
    let ghost d = cs@.skip(start as int);
    assert(d =~= if cs@.len() > 0 && cs@[0] == '+' {
        cs@.drop_first()
    } else {
        cs@
    });
    if start == n {
        return None;
    }
    let mut value: u64 = 0;
    let mut i = start;
    assert(d.take(0) =~= Seq::<char>::empty());
    while i < n
        invariant
            start <= i <= n == cs@.len(),
            start < n,
            d == cs@.skip(start as int),
            d == if cs@.len() > 0 && cs@[0] == '+' {
                cs@.drop_first()
            } else {
                cs@
            },
            all_digits(d.take(i - start)),
            value == digits_value(d.take(i - start)),
        decreases n - i,
    {
        let c = cs[i];
        let ghost k = i - start;
        assert(d[k] == c);
        if !('0' <= c && c <= '9') {
            assert(!all_digits(d));
            return None;
        }
        let digit = (c as u32 - 48) as u64;
        assert(d.take(k + 1).drop_last() =~= d.take(k));
        assert(digits_value(d.take(k + 1)) == value * 10 + digit);
        let m = value.checked_mul(10);
        let next = match m {
            Some(m) => m.checked_add(digit),
            None => None,
        };
        match next {
            Some(v) => {
                value = v;
            },
            None => {
                proof {
                    if all_digits(d) {
                        lemma_digits_prefix(d, k + 1);
                    }
                }
                return None;
            },
        }
        i += 1;
        assert(all_digits(d.take(i - start))) by {
            assert forall|j: int| 0 <= j < i - start implies is_ascii_digit(
                #[trigger] d.take(i - start)[j],
            ) by {
                if j < k {
                    assert(d.take(i - start)[j] == d.take(k)[j]);
                }
            }
        }
    }
    assert(d.take(n - start) =~= d);
    Some(value)
}

/// `parse_u64_val`: a count from a non-negative integer, or from a text
/// holding one (surrounding whitespace allowed).
pub fn parse_u64_val(v: &Json) -> (r: Option<u64>)
    ensures
        r == u64_value(json_view(*v)),
{
    match v {
        Json::Number(JsonNumber::PosInt(u)) => Some(*u),
        Json::Number(JsonNumber::NegInt(i)) => if *i >= 0 {
            Some(*i as u64)
        } else {
            None
        },
        Json::Str(s) => parse_u64_chars(&crate::text::trimmed_str(s.as_str())),
        _ => None,
    }
}

/// `get_u64_by_keys`: the first of `keys` whose value reads as a count,
/// else 0.
pub fn get_u64_by_keys(fields: &Vec<(String, Json)>, keys: &[&str]) -> (r: u64)
    ensures
        r == u64_by_keys(fields_view(fields@), str_views(keys@)),
{
    let ghost ks = str_views(keys@);
    let mut i: usize = 0;
    assert(ks.skip(0) =~= ks);
    while i < keys.len()
        invariant
            i <= keys@.len(),
            ks == str_views(keys@),
            u64_by_keys(fields_view(fields@), ks) == u64_by_keys(
                fields_view(fields@),
                ks.skip(i as int),
            ),
        decreases keys@.len() - i,
    {
        assert(ks.skip(i as int)[0] == keys@[i as int]@);
        assert(ks.skip(i as int).drop_first() =~= ks.skip(i + 1));
        if let Some(val) = field_of(fields, keys[i]) {
            if let Some(n) = parse_u64_val(val) {
                return n;
            }
        }
        i += 1;
    }
    assert(ks.skip(i as int) =~= Seq::<Seq<char>>::empty());
    0
}

/// `get_str_by_keys`: the first of `keys` holding a non-empty string, or a
/// count written in decimal.
pub fn get_str_by_keys(fields: &Vec<(String, Json)>, keys: &[&str]) -> (r: Option<String>)
    ensures
        match r {
            Some(s) => str_by_keys(fields_view(fields@), str_views(keys@)) == Some(s@),
            None => str_by_keys(fields_view(fields@), str_views(keys@)) is None,
        },
{
    let ghost ks = str_views(keys@);
    let mut i: usize = 0;
    assert(ks.skip(0) =~= ks);
    while i < keys.len()
        invariant
            i <= keys@.len(),
            ks == str_views(keys@),
            str_by_keys(fields_view(fields@), ks) == str_by_keys(
                fields_view(fields@),
                ks.skip(i as int),
            ),
        decreases keys@.len() - i,
    {
        assert(ks.skip(i as int)[0] == keys@[i as int]@);
        assert(ks.skip(i as int).drop_first() =~= ks.skip(i + 1));
        if let Some(val) = field_of(fields, keys[i]) {
            match val.as_str() {
                Some(s) => {
                    if !s.is_empty() {
                        return Some(s.to_string());
                    }
                },
                None => {
                    if let Some(n) = parse_u64_val(val) {
                        return Some(crate::text::u64_to_string(n));
                    }
                },
            }
        }
        i += 1;
    }
    assert(ks.skip(i as int) =~= Seq::<Seq<char>>::empty());
    None
}

/// `first_value_by_keys`: the value of the first of `keys` present.
pub fn first_value_by_keys<'a>(fields: &'a Vec<(String, Json)>, keys: &[&str]) -> (r: Option<
    &'a Json,
>)
    ensures
        match r {
            Some(x) => first_by_keys(fields_view(fields@), str_views(keys@)) == Some(json_view(*x)),
            None => first_by_keys(fields_view(fields@), str_views(keys@)) is None,
        },
{
    let ghost ks = str_views(keys@);
    let mut i: usize = 0;
    assert(ks.skip(0) =~= ks);
    while i < keys.len()
        invariant
            i <= keys@.len(),
            ks == str_views(keys@),
            first_by_keys(fields_view(fields@), ks) == first_by_keys(
                fields_view(fields@),
                ks.skip(i as int),
            ),
        decreases keys@.len() - i,
    {
        assert(ks.skip(i as int)[0] == keys@[i as int]@);
        assert(ks.skip(i as int).drop_first() =~= ks.skip(i + 1));
        if let Some(val) = field_of(fields, keys[i]) {
            return Some(val);
        }
        i += 1;
    }
    assert(ks.skip(i as int) =~= Seq::<Seq<char>>::empty());
    None
}

proof fn lemma_non_empty_array(items: Seq<JsonV>, i: int)
    requires
        0 <= i < items.len(),
        non_empty(items[i]),
    ensures
        non_empty(JsonV::Array(items)),
{
    let v = JsonV::Array(items);
    assert(v->Array_0 == items);
    assert(exists|k: int| 0 <= k < items.len() && non_empty(#[trigger] items[k]));
    assert(non_empty(v) == (exists|k: int| 0 <= k < items.len() && non_empty(#[trigger] items[k])));
}

proof fn lemma_non_empty_object(fields: Seq<(Seq<char>, JsonV)>, i: int)
    requires
        0 <= i < fields.len(),
        non_empty(fields[i].1),
    ensures
        non_empty(JsonV::Object(fields)),
{
    let v = JsonV::Object(fields);
    assert(v->Object_0 == fields);
    assert(exists|k: int| 0 <= k < fields.len() && non_empty(#[trigger] fields[k].1));
    assert(non_empty(v) == (exists|k: int| 0 <= k < fields.len() && non_empty(#[trigger] fields[k].1)));
}

/// `has_non_empty_json_value`.
pub fn has_non_empty_json_value(v: &Json) -> (r: bool)
    ensures
        r == non_empty(json_view(*v)),
    decreases v,
{
    proof {
        lemma_views(*v);
    }
    match v {
        Json::Null => false,
        Json::Bool(_) => true,
        Json::Number(_) => true,
        Json::Str(s) => crate::text::trimmed_str(s.as_str()).len() > 0,
        Json::Array(items) => {
            let ghost iv = items_view(items@);
            let mut i: usize = 0;
            while i < items.len()
                invariant
                    i <= items@.len(),
                    *v == Json::Array(*items),
                    iv == items_view(items@),
                    json_view(*v) == JsonV::Array(iv),
                    forall|k: int| 0 <= k < i ==> !non_empty(#[trigger] iv[k]),
                decreases items@.len() - i,
            {
                proof {
                    assert(decreases_to!(*v => (*v)->Array_0));
                    vstd::std_specs::vec::axiom_vec_decreases_to_view(*items);
                    assert(decreases_to!(*items => items@[i as int]));
                }
                if has_non_empty_json_value(&items[i]) {
                    assert(non_empty(iv[i as int]));
                    proof {
                        lemma_non_empty_array(iv, i as int);
                    }
                    return true;
                }
                i += 1;
            }
            false
        },
        Json::Object(fields) => {
            let ghost fv = fields_view(fields@);
            let mut i: usize = 0;
            while i < fields.len()
                invariant
                    i <= fields@.len(),
                    *v == Json::Object(*fields),
                    fv == fields_view(fields@),
                    json_view(*v) == JsonV::Object(fv),
                    forall|k: int| 0 <= k < i ==> !non_empty(#[trigger] fv[k].1),
                decreases fields@.len() - i,
            {
                proof {
                    assert(decreases_to!(*v => (*v)->Object_0));
                    vstd::std_specs::vec::axiom_vec_decreases_to_view(*fields);
                    assert(decreases_to!(*fields => fields@[i as int]));
                    assert(decreases_to!(fields@[i as int] => fields@[i as int].1));
                }
                if has_non_empty_json_value(&fields[i].1) {
                    assert(non_empty(fv[i as int].1));
                    proof {
                        lemma_non_empty_object(fv, i as int);
                    }
                    return true;
                }
                i += 1;
            }
            false
        },
    }
}

/// `has_any_non_empty_field`: the first of `keys` present holds something.
pub fn has_any_non_empty_field(fields: &Vec<(String, Json)>, keys: &[&str]) -> (r: bool)
    ensures
        r == match first_by_keys(fields_view(fields@), str_views(keys@)) {
            Some(v) => non_empty(v),
            None => false,
        },
{
    match first_value_by_keys(fields, keys) {
        Some(v) => has_non_empty_json_value(v),
        None => false,
    }
}

} // verus!
