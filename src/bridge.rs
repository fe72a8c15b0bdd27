//! Conversion between dynamic JSON values (what the shell sends) and the
//! typed values that WebAssembly components take and return.
//!
//! Floating-point numbers are carried as the bit pattern of an IEEE-754
//! double; the engine boundary turns them into real floats.
use vstd::prelude::*;

verus! {

/// A JSON value as the shell hands it over. Numbers that fit an `i64` are
/// `Int`, larger non-negative integers are `UInt`, everything else is `Float`
/// (the bits of a finite double). Object fields keep their order.
#[derive(Debug, PartialEq)]
pub enum JsonValue {
    Null,
    Bool(bool),
    Int(i64),
    UInt(u64),
    Float(u64),
    Str(String),
    Array(Vec<JsonValue>),
    Object(Vec<(String, JsonValue)>),
}

/// The mathematical content of a [`JsonValue`]: integers are unbounded and
/// the two integer representations coincide.
pub enum Json {
    Null,
    Bool(bool),
    Number(int),
    Float(u64),
    Str(Seq<char>),
    Array(Seq<Json>),
    Object(Seq<(Seq<char>, Json)>),
}

/// A component-model value. `Float32` and `Float64` hold the bits of a
/// double; the value of a `Float32` is narrowed to single precision when it
/// enters the engine. `Other` stands for a value kind the bridge does not
/// convert, held as its debug text.
#[derive(Debug, PartialEq)]
pub enum ComponentVal {
    Bool(bool),
    S8(i8),
    S16(i16),
    S32(i32),
    S64(i64),
    U8(u8),
    U16(u16),
    U32(u32),
    U64(u64),
    Float32(u64),
    Float64(u64),
    Str(String),
    List(Vec<ComponentVal>),
    Record(Vec<(String, ComponentVal)>),
    Tuple(Vec<ComponentVal>),
    Opt(Option<Box<ComponentVal>>),
    ResOk(Option<Box<ComponentVal>>),
    ResErr(Option<Box<ComponentVal>>),
    Other(String),
}

/// The mathematical content of a [`ComponentVal`].
pub enum Component {
    Bool(bool),
    S8(int),
    S16(int),
    S32(int),
    S64(int),
    U8(int),
    U16(int),
    U32(int),
    U64(int),
    Float32(u64),
    Float64(u64),
    Str(Seq<char>),
    List(Seq<Component>),
    Record(Seq<(Seq<char>, Component)>),
    Tuple(Seq<Component>),
    OptNone,
    OptSome(Box<Component>),
    ResOk(Option<Box<Component>>),
    ResErr(Option<Box<Component>>),
    Other(Seq<char>),
}

impl View for JsonValue {
    type V = Json;

    open spec fn view(&self) -> Json {
        json_model(*self)
    }
}

/// The model of a JSON value, recursively.
pub open spec fn json_model(j: JsonValue) -> Json
    decreases j,
{
    match j {
        JsonValue::Null => Json::Null,
        JsonValue::Bool(b) => Json::Bool(b),
        JsonValue::Int(i) => Json::Number(i as int),
        JsonValue::UInt(u) => Json::Number(u as int),
        JsonValue::Float(b) => Json::Float(b),
        JsonValue::Str(s) => Json::Str(s@),
        JsonValue::Array(v) => Json::Array(
            Seq::new(v@.len(), |k: int| if 0 <= k < v@.len() { json_model(v@[k]) } else { Json::Null }),
        ),
        JsonValue::Object(v) => Json::Object(
            Seq::new(
                v@.len(),
                |k: int|
                    if 0 <= k < v@.len() {
                        (v@[k].0@, json_model(v@[k].1))
                    } else {
                        (Seq::empty(), Json::Null)
                    },
            ),
        ),
    }
}

impl View for ComponentVal {
    type V = Component;

    open spec fn view(&self) -> Component {
        component_model(*self)
    }
}

/// The model of a component value, recursively.
pub open spec fn component_model(c: ComponentVal) -> Component
    decreases c,
{
    match c {
        ComponentVal::Bool(b) => Component::Bool(b),
        ComponentVal::S8(i) => Component::S8(i as int),
        ComponentVal::S16(i) => Component::S16(i as int),
        ComponentVal::S32(i) => Component::S32(i as int),
        ComponentVal::S64(i) => Component::S64(i as int),
        ComponentVal::U8(i) => Component::U8(i as int),
        ComponentVal::U16(i) => Component::U16(i as int),
        ComponentVal::U32(i) => Component::U32(i as int),
        ComponentVal::U64(i) => Component::U64(i as int),
        ComponentVal::Float32(b) => Component::Float32(b),
        ComponentVal::Float64(b) => Component::Float64(b),
        ComponentVal::Str(s) => Component::Str(s@),
        ComponentVal::List(v) => Component::List(
            Seq::new(v@.len(), |k: int| if 0 <= k < v@.len() { component_model(v@[k]) } else { Component::OptNone }),
        ),
        ComponentVal::Record(v) => Component::Record(
            Seq::new(
                v@.len(),
                |k: int|
                    if 0 <= k < v@.len() {
                        (v@[k].0@, component_model(v@[k].1))
                    } else {
                        (Seq::empty(), Component::OptNone)
                    },
            ),
        ),
        ComponentVal::Tuple(v) => Component::Tuple(
            Seq::new(v@.len(), |k: int| if 0 <= k < v@.len() { component_model(v@[k]) } else { Component::OptNone }),
        ),
        ComponentVal::Opt(o) => match o {
            Some(b) => Component::OptSome(Box::new(component_model(*b))),
            None => Component::OptNone,
        },
        ComponentVal::ResOk(o) => match o {
            Some(b) => Component::ResOk(Some(Box::new(component_model(*b)))),
            None => Component::ResOk(None),
        },
        ComponentVal::ResErr(o) => match o {
            Some(b) => Component::ResErr(Some(Box::new(component_model(*b)))),
            None => Component::ResErr(None),
        },
        ComponentVal::Other(s) => Component::Other(s@),
    }
}

/// Whether the double with bits `b` lies within the range of a 32-bit float
/// (`f32::MIN ..= f32::MAX`); NaN does not.
pub open spec fn fits_f32(b: u64) -> bool {
    b & 0x7FFF_FFFF_FFFF_FFFFu64 <= 0x47EF_FFFF_E000_0000u64
}

/// Whether the double with bits `b` is finite (neither infinite nor NaN).
pub open spec fn is_finite(b: u64) -> bool {
    b & 0x7FF0_0000_0000_0000u64 != 0x7FF0_0000_0000_0000u64
}

/// The bits of the double nearest to `u` (ties to even), for an integer
/// `u` in `2^63 .. 2^64`: such a double has exponent 63 or, after rounding
/// up, 64, and a 53-bit significand taken from the top bits of `u`.
pub open spec fn large_double_bits(u: int) -> int {
    let m = u / 2048;
    let rest = u % 2048;
    let rounded = if rest > 1024 || (rest == 1024 && m % 2 == 1) {
        m + 1
    } else {
        m
    };
    0x43D0_0000_0000_0000 + rounded
}

/// The component value a double becomes: single precision where it fits.
pub open spec fn float_component(b: u64) -> Component {
    if fits_f32(b) {
        Component::Float32(b)
    } else {
        Component::Float64(b)
    }
}

/// The component value a JSON number becomes: a signed 32-bit integer where
/// it fits, else a signed 64-bit integer where it fits, else a float.
pub open spec fn number_component(n: int) -> Component {
    if i32::MIN <= n <= i32::MAX {
        Component::S32(n)
    } else if i64::MIN <= n <= i64::MAX {
        Component::S64(n)
    } else {
        float_component(large_double_bits(n) as u64)
    }
}

/// The conversion of a JSON value into a component value.
pub open spec fn to_component(j: Json) -> Component
    decreases j,
{
    match j {
        Json::Null => Component::OptNone,
        Json::Bool(b) => Component::Bool(b),
        Json::Number(n) => number_component(n),
        Json::Float(b) => float_component(b),
        Json::Str(s) => Component::Str(s),
        Json::Array(xs) => Component::List(
            Seq::new(xs.len(), |k: int| if 0 <= k < xs.len() { to_component(xs[k]) } else { Component::OptNone }),
        ),
        Json::Object(fs) => Component::Record(
            Seq::new(
                fs.len(),
                |k: int|
                    if 0 <= k < fs.len() {
                        (fs[k].0, to_component(fs[k].1))
                    } else {
                        (Seq::empty(), Component::OptNone)
                    },
            ),
        ),
    }
}

fn large_to_double_bits(u: u64) -> (r: u64)
    requires
        u > i64::MAX,
    ensures
        r as int == large_double_bits(u as int),
{
    let m = u / 2048;
    let rest = u % 2048;
    let rounded = if rest > 1024 || (rest == 1024 && m % 2 == 1) {
        m + 1
    } else {
        m
    };
    0x43D0_0000_0000_0000u64 + rounded
}

fn float_to_component(b: u64) -> (r: ComponentVal)
    ensures
        r@ == float_component(b),
{
    if b & 0x7FFF_FFFF_FFFF_FFFFu64 <= 0x47EF_FFFF_E000_0000u64 {
        ComponentVal::Float32(b)
    } else {
        ComponentVal::Float64(b)
    }
}

/// Converts a JSON value into a component value. The conversion is total:
/// `null` becomes an empty option, numbers take the narrowest of `s32`,
/// `s64` and a float, arrays become lists and objects become records with
/// their fields in order.
pub fn std_val_to_wasm_val(value: &JsonValue) -> (r: ComponentVal)
    ensures
        r@ == to_component(value@),
    decreases value,
{
    match value {
        JsonValue::Null => ComponentVal::Opt(None),
        JsonValue::Bool(b) => ComponentVal::Bool(*b),
        JsonValue::Int(i) => {
            if i32::MIN as i64 <= *i && *i <= i32::MAX as i64 {
                ComponentVal::S32(*i as i32)
            } else {
                ComponentVal::S64(*i)
            }
        },
        JsonValue::UInt(u) => {
            if *u <= i32::MAX as u64 {
                ComponentVal::S32(*u as i32)
            } else if *u <= i64::MAX as u64 {
                ComponentVal::S64(*u as i64)
            } else {
                float_to_component(large_to_double_bits(*u))
            }
        },
        JsonValue::Float(b) => float_to_component(*b),
        JsonValue::Str(s) => ComponentVal::Str(s.clone()),
        JsonValue::Array(items) => {
            assert forall|t: int| 0 <= t < items.len() implies decreases_to!(*value => items@[t]) by {
                assert(decreases_to!(*value => (*value)->Array_0));
                assert(decreases_to!(items => items@));
                assert(decreases_to!(items@ => items@[t]));
            }
            let mut out: Vec<ComponentVal> = Vec::new();
            let mut k: usize = 0;
            while k < items.len()
                invariant
                    k <= items.len(),
                    out.len() == k,
                    forall|t: int| 0 <= t < items.len() ==> decreases_to!(*value => items@[t]),
                    forall|t: int| 0 <= t < k ==> out[t]@ == to_component(items[t]@),
                decreases items.len() - k,
            {
                let c = std_val_to_wasm_val(&items[k]);
                out.push(c);
                k += 1;
            }
            let r = ComponentVal::List(out);
            assert(r@->List_0 =~= to_component(value@)->List_0);
            r
        },
        JsonValue::Object(fields) => {
            assert forall|t: int| 0 <= t < fields.len() implies decreases_to!(*value => fields@[t].1) by {
                assert(decreases_to!(*value => (*value)->Object_0));
                assert(decreases_to!(fields => fields@));
                assert(decreases_to!(fields@ => fields@[t]));
                assert(decreases_to!(fields@[t] => fields@[t].1));
            }
            let mut out: Vec<(String, ComponentVal)> = Vec::new();
            let mut k: usize = 0;
            while k < fields.len()
                invariant
                    k <= fields.len(),
                    out.len() == k,
                    forall|t: int| 0 <= t < fields.len() ==> decreases_to!(*value => fields@[t].1),
                    forall|t: int|
                        0 <= t < k ==> out[t].0@ == fields[t].0@ && out[t].1@ == to_component(
                            fields[t].1@,
                        ),
                decreases fields.len() - k,
            {
                let c = std_val_to_wasm_val(&fields[k].1);
                out.push((fields[k].0.clone(), c));
                k += 1;
            }
            let r = ComponentVal::Record(out);
            assert(r@ == to_component(value@)) by {
                assert(r@->Record_0 =~= to_component(value@)->Record_0);
            }
            r
        },
    }
}


/// Whether no two fields of an object share a key.
pub open spec fn keys_unique(fs: Seq<(Seq<char>, Json)>) -> bool {
    forall|i: int, j: int| 0 <= i < j < fs.len() ==> fs[i].0 != fs[j].0
}

/// Sets field `k` of an object to `v`: an existing field keeps its place and
/// takes the new value, a new key is appended.
pub open spec fn insert_field(obj: Seq<(Seq<char>, Json)>, k: Seq<char>, v: Json) -> Seq<(Seq<char>, Json)> {
    if exists|i: int| 0 <= i < obj.len() && obj[i].0 == k {
        obj.update(choose|i: int| 0 <= i < obj.len() && obj[i].0 == k, (k, v))
    } else {
        obj.push((k, v))
    }
}

/// The object obtained by setting the given fields one after another,
/// starting from an empty object.
pub open spec fn insert_all(fs: Seq<(Seq<char>, Json)>) -> Seq<(Seq<char>, Json)>
    decreases fs.len(),
{
    if fs.len() == 0 {
        Seq::empty()
    } else {
        insert_field(insert_all(fs.drop_last()), fs.last().0, fs.last().1)
    }
}

/// The JSON form of a double: a number when finite, else `null`.
pub open spec fn float_json(b: u64) -> Json {
    if is_finite(b) {
        Json::Float(b)
    } else {
        Json::Null
    }
}

/// The JSON form of the payload of a result value.
pub open spec fn payload_json(o: Option<Box<Component>>) -> Json
    decreases o,
{
    match o {
        Some(b) => to_json(*b),
        None => Json::Null,
    }
}

/// The fields of a record, each value converted to JSON.
pub open spec fn fields_json(fs: Seq<(Seq<char>, Component)>) -> Seq<(Seq<char>, Json)>
    decreases fs,
{
    Seq::new(
        fs.len(),
        |k: int|
            if 0 <= k < fs.len() {
                (fs[k].0, to_json(fs[k].1))
            } else {
                (Seq::empty(), Json::Null)
            },
    )
}

/// The conversion of a component value into a JSON value.
pub open spec fn to_json(c: Component) -> Json
    decreases c,
{
    match c {
        Component::Bool(b) => Json::Bool(b),
        Component::S8(n) => Json::Number(n),
        Component::S16(n) => Json::Number(n),
        Component::S32(n) => Json::Number(n),
        Component::S64(n) => Json::Number(n),
        Component::U8(n) => Json::Number(n),
        Component::U16(n) => Json::Number(n),
        Component::U32(n) => Json::Number(n),
        Component::U64(n) => Json::Number(n),
        Component::Float32(b) => float_json(b),
        Component::Float64(b) => float_json(b),
        Component::Str(s) => Json::Str(s),
        Component::List(xs) => Json::Array(
            Seq::new(xs.len(), |k: int| if 0 <= k < xs.len() { to_json(xs[k]) } else { Json::Null }),
        ),
        Component::Tuple(xs) => Json::Array(
            Seq::new(xs.len(), |k: int| if 0 <= k < xs.len() { to_json(xs[k]) } else { Json::Null }),
        ),
        Component::Record(fs) => Json::Object(insert_all(fields_json(fs))),
        Component::OptNone => Json::Null,
        Component::OptSome(b) => to_json(*b),
        Component::ResOk(o) => Json::Object(seq![("Ok"@, match o { Some(b) => to_json(*b), None => Json::Null })]),
        Component::ResErr(o) => Json::Object(seq![("Err"@, match o { Some(b) => to_json(*b), None => Json::Null })]),
        Component::Other(s) => Json::Str(s),
    }
}

/// The model of the fields of an object under construction.
pub open spec fn fields_model(v: Seq<(String, JsonValue)>) -> Seq<(Seq<char>, Json)> {
    Seq::new(v.len(), |k: int| (v[k].0@, v[k].1@))
}

proof fn lemma_insert_field_unique(obj: Seq<(Seq<char>, Json)>, k: Seq<char>, v: Json)
    requires
        keys_unique(obj),
    ensures
        keys_unique(insert_field(obj, k, v)),
{
}

fn set_field(out: &mut Vec<(String, JsonValue)>, key: String, value: JsonValue)
    requires
        keys_unique(fields_model(old(out)@)),
    ensures
        fields_model(final(out)@) == insert_field(fields_model(old(out)@), key@, value@),
        keys_unique(fields_model(final(out)@)),
{
    let ghost before = fields_model(out@);
    let mut i: usize = 0;
    while i < out.len()
        invariant
            i <= out.len(),
            out@ == old(out)@,
            before == fields_model(out@),
            keys_unique(before),
            forall|t: int| 0 <= t < i ==> before[t].0 != key@,
        decreases out.len() - i,
    {
        if out[i].0 == key {
            let ghost idx = i as int;
            proof {
                assert(before[idx].0 == key@);
                let c = choose|t: int| 0 <= t < before.len() && before[t].0 == key@;
                assert(c == idx);
            }
            out[i] = (key, value);
            proof {
                lemma_insert_field_unique(before, key@, value@);
                assert(fields_model(out@) =~= insert_field(before, key@, value@));
            }
            return;
        }
        i += 1;
    }
    out.push((key, value));
    proof {
        lemma_insert_field_unique(before, key@, value@);
        assert(fields_model(out@) =~= insert_field(before, key@, value@));
    }
}

fn float_to_json(b: u64) -> (r: JsonValue)
    ensures
        r@ == float_json(b),
{
    if b & 0x7FF0_0000_0000_0000u64 != 0x7FF0_0000_0000_0000u64 {
        JsonValue::Float(b)
    } else {
        JsonValue::Null
    }
}

fn list_to_json(items: &Vec<ComponentVal>) -> (r: Vec<JsonValue>)
    ensures
        r@.len() == items@.len(),
        forall|t: int| 0 <= t < items@.len() ==> #[trigger] r@[t]@ == to_json(items@[t]@),
    decreases items,
{
    let mut out: Vec<JsonValue> = Vec::new();
    let mut k: usize = 0;
    while k < items.len()
        invariant
            k <= items.len(),
            out.len() == k,
            forall|t: int| 0 <= t < k ==> #[trigger] out@[t]@ == to_json(items@[t]@),
        decreases items.len() - k,
    {
        proof {
            assert(decreases_to!(items => items@));
            assert(decreases_to!(items@ => items@[k as int]));
        }
        let j = wasm_val_to_std_val(&items[k]);
        out.push(j);
        k += 1;
    }
    out
}

fn payload_to_json(o: &Option<Box<ComponentVal>>) -> (r: JsonValue)
    ensures
        r@ == match o {
            Some(b) => to_json((**b)@),
            None => Json::Null,
        },
    decreases o,
{
    match o {
        Some(b) => wasm_val_to_std_val(b),
        None => JsonValue::Null,
    }
}

/// Converts a component value into a JSON value. Integers and finite floats
/// become numbers (non-finite floats become `null`), lists and tuples become
/// arrays, records become objects (a repeated field name keeps its first
/// place and its last value), `none` becomes `null` and `some(v)` becomes
/// `v`, results become `{"Ok": v}` or `{"Err": v}`, and a value of another
/// kind becomes the string of its debug text.
pub fn wasm_val_to_std_val(val: &ComponentVal) -> (r: JsonValue)
    ensures
        r@ == to_json(val@),
    decreases val,
{
    match val {
        ComponentVal::Bool(b) => JsonValue::Bool(*b),
        ComponentVal::S8(i) => JsonValue::Int(*i as i64),
        ComponentVal::S16(i) => JsonValue::Int(*i as i64),
        ComponentVal::S32(i) => JsonValue::Int(*i as i64),
        ComponentVal::S64(i) => JsonValue::Int(*i),
        ComponentVal::U8(i) => JsonValue::Int(*i as i64),
        ComponentVal::U16(i) => JsonValue::Int(*i as i64),
        ComponentVal::U32(i) => JsonValue::Int(*i as i64),
        ComponentVal::U64(u) => JsonValue::UInt(*u),
        ComponentVal::Float32(b) => float_to_json(*b),
        ComponentVal::Float64(b) => float_to_json(*b),
        ComponentVal::Str(s) => JsonValue::Str(s.clone()),
        ComponentVal::List(items) => {
            let out = list_to_json(items);
            let r = JsonValue::Array(out);
            assert(r@->Array_0 =~= to_json(val@)->Array_0) by {
                let xs = val@->List_0;
                assert(val@ == Component::List(xs));
                assert forall|t: int| 0 <= t < items@.len() implies #[trigger] xs[t] == items@[t]@ by {}
                assert forall|t: int| 0 <= t < items@.len() implies #[trigger] r@->Array_0[t] == out@[t]@ by {}
                assert forall|t: int| 0 <= t < items@.len() implies #[trigger] to_json(val@)->Array_0[t] == to_json(xs[t]) by {}
            }
            r
        },
        ComponentVal::Tuple(items) => {
            let out = list_to_json(items);
            let r = JsonValue::Array(out);
            assert(r@->Array_0 =~= to_json(val@)->Array_0) by {
                let xs = val@->Tuple_0;
                assert(val@ == Component::Tuple(xs));
                assert forall|t: int| 0 <= t < items@.len() implies #[trigger] xs[t] == items@[t]@ by {}
                assert forall|t: int| 0 <= t < items@.len() implies #[trigger] r@->Array_0[t] == out@[t]@ by {}
                assert forall|t: int| 0 <= t < items@.len() implies #[trigger] to_json(val@)->Array_0[t] == to_json(xs[t]) by {}
            }
            r
        },
        ComponentVal::Record(fields) => {
            let ghost mapped = fields_json(val@->Record_0);
            assert forall|t: int| 0 <= t < fields@.len() implies #[trigger] mapped[t] == (fields@[t].0@, to_json(fields@[t].1@)) by {
                assert(val@->Record_0[t] == (fields@[t].0@, fields@[t].1@));
            }
            assert forall|t: int| 0 <= t < fields@.len() implies decreases_to!(*val => fields@[t].1) by {
                assert(decreases_to!(*val => (*val)->Record_0));
                assert(decreases_to!(fields => fields@));
                assert(decreases_to!(fields@ => fields@[t]));
                assert(decreases_to!(fields@[t] => fields@[t].1));
            }
            let mut out: Vec<(String, JsonValue)> = Vec::new();
            let mut k: usize = 0;
            while k < fields.len()
                invariant
                    k <= fields.len(),
                    mapped.len() == fields@.len(),
                    forall|t: int| 0 <= t < fields@.len() ==> #[trigger] mapped[t] == (fields@[t].0@, to_json(fields@[t].1@)),
                    forall|t: int| 0 <= t < fields@.len() ==> decreases_to!(*val => fields@[t].1),
                    keys_unique(fields_model(out@)),
                    fields_model(out@) == insert_all(mapped.take(k as int)),
                decreases fields.len() - k,
            {
                let j = wasm_val_to_std_val(&fields[k].1);
                set_field(&mut out, fields[k].0.clone(), j);
                proof {
                    assert(mapped.take(k as int + 1).drop_last() =~= mapped.take(k as int));
                }
                k += 1;
            }
            let r = JsonValue::Object(out);
            assert(r@ == to_json(val@)) by {
                assert(mapped.take(k as int) =~= mapped);
                assert(r@->Object_0 =~= fields_model(out@));
                assert(val@ == Component::Record(val@->Record_0));
            }
            r
        },
        ComponentVal::Opt(o) => match o {
            Some(b) => wasm_val_to_std_val(b),
            None => JsonValue::Null,
        },
        ComponentVal::ResOk(o) => {
            let inner = payload_to_json(o);
            let r = JsonValue::Object(vec![(String::from_str("Ok"), inner)]);
            assert(r@->Object_0 =~= to_json(val@)->Object_0);
            r
        },
        ComponentVal::ResErr(o) => {
            let inner = payload_to_json(o);
            let r = JsonValue::Object(vec![(String::from_str("Err"), inner)]);
            assert(r@->Object_0 =~= to_json(val@)->Object_0);
            r
        },
        ComponentVal::Other(s) => JsonValue::Str(s.clone()),
    }
}

/// The JSON values that cross the bridge and back unchanged: integers that
/// fit in 64 signed bits, finite floats, and objects without repeated keys,
/// at every depth.
pub open spec fn lossless(j: Json) -> bool
    decreases j,
{
    match j {
        Json::Number(n) => i64::MIN <= n <= i64::MAX,
        Json::Float(b) => is_finite(b),
        Json::Array(xs) => forall|k: int| 0 <= k < xs.len() ==> lossless(#[trigger] xs[k]),
        Json::Object(fs) => keys_unique(fs) && forall|k: int| 0 <= k < fs.len() ==> lossless(#[trigger] fs[k].1),
        _ => true,
    }
}

/// Setting the fields of an object without repeated keys, one after another,
/// rebuilds that object.
pub proof fn lemma_insert_all_unique(fs: Seq<(Seq<char>, Json)>)
    requires
        keys_unique(fs),
    ensures
        insert_all(fs) == fs,
    decreases fs.len(),
{
    if fs.len() > 0 {
        let init = fs.drop_last();
        assert(keys_unique(init));
        lemma_insert_all_unique(init);
        assert(!(exists|i: int| 0 <= i < init.len() && init[i].0 == fs.last().0)) by {
            if exists|i: int| 0 <= i < init.len() && init[i].0 == fs.last().0 {
                let i = choose|i: int| 0 <= i < init.len() && init[i].0 == fs.last().0;
                assert(fs[i].0 == fs[fs.len() - 1].0);
            }
        }
        assert(init.push(fs.last()) =~= fs);
    }
}

/// Converting a JSON value to a component value and back gives the value
/// itself, for every value on which the bridge is lossless: `null`, booleans,
/// strings, integers within the signed 64-bit range, finite floats, and
/// arrays and objects (without repeated keys) of such values.
pub proof fn lemma_round_trip(j: Json)
    requires
        lossless(j),
    ensures
        to_json(to_component(j)) == j,
    decreases j,
{
    match j {
        Json::Array(xs) => {
            let cs = to_component(j)->List_0;
            assert(to_component(j) == Component::List(cs));
            assert forall|k: int| 0 <= k < xs.len() implies #[trigger] to_json(cs[k]) == xs[k] by {
                lemma_round_trip(xs[k]);
            }
            let ys = to_json(to_component(j))->Array_0;
            assert forall|k: int| 0 <= k < xs.len() implies #[trigger] ys[k] == to_json(cs[k]) by {}
            assert(ys =~= xs);
        },
        Json::Object(fs) => {
            let cfs = to_component(j)->Record_0;
            assert forall|k: int| 0 <= k < fs.len() implies #[trigger] fields_json(cfs)[k] == fs[k] by {
                lemma_round_trip(fs[k].1);
            }
            assert(fields_json(cfs) =~= fs);
            lemma_insert_all_unique(fs);
        },
        _ => {},
    }
}

/// The arguments of a call: the elements of a JSON array, each converted;
/// `None` for any other JSON value.
pub fn std_array_to_vals(value: &JsonValue) -> (r: Option<Vec<ComponentVal>>)
    ensures
        r is Some <==> value@ is Array,
        r is Some ==> r->Some_0@.len() == value@->Array_0.len() && forall|k: int|
            0 <= k < r->Some_0@.len() ==> #[trigger] r->Some_0@[k]@ == to_component(value@->Array_0[k]),
{
    match value {
        JsonValue::Array(_) => {
            assert(value@ == Json::Array(value@->Array_0));
            let c = std_val_to_wasm_val(value);
            match c {
                ComponentVal::List(items) => {
                    let ghost xs = value@->Array_0;
                    let ghost cs = to_component(value@)->List_0;
                    assert(to_component(value@) == Component::List(cs));
                    assert(c@ == Component::List(c@->List_0));
                    assert(cs.len() == xs.len());
                    assert(c@->List_0.len() == items@.len());
                    assert forall|k: int| 0 <= k < xs.len() implies #[trigger] cs[k] == to_component(xs[k]) by {}
                    assert forall|k: int| 0 <= k < items@.len() implies #[trigger] items@[k]@ == to_component(value@->Array_0[k]) by {
                        assert(c@ == Component::List(c@->List_0));
                        assert(c@->List_0[k] == items@[k]@);
                    }
                    Some(items)
                },
                _ => None,
            }
        },
        _ => None,
    }
}

} // verus!
