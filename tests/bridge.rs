use sparus::bridge::{std_array_to_vals, std_val_to_wasm_val, wasm_val_to_std_val, ComponentVal, JsonValue};
use sparus::plugins::plugin_call_args;
use sparus::plugins::PluginsErr;

fn s(text: &str) -> String {
    text.to_string()
}

fn echo_arg() -> JsonValue {
    JsonValue::Object(vec![
        (s("n"), JsonValue::Int(7)),
        (s("s"), JsonValue::Str(s("hi"))),
        (
            s("xs"),
            JsonValue::Array(vec![JsonValue::Int(1), JsonValue::Int(2), JsonValue::Int(3)]),
        ),
    ])
}

#[test]
fn plugin_arg_marshalling_round_trips() {
    let args = JsonValue::Array(vec![echo_arg()]);
    let vals = plugin_call_args(Some(args)).unwrap();
    assert_eq!(vals.len(), 1);
    assert_eq!(
        vals[0],
        ComponentVal::Record(vec![
            (s("n"), ComponentVal::S32(7)),
            (s("s"), ComponentVal::Str(s("hi"))),
            (
                s("xs"),
                ComponentVal::List(vec![ComponentVal::S32(1), ComponentVal::S32(2), ComponentVal::S32(3)]),
            ),
        ])
    );
    assert_eq!(wasm_val_to_std_val(&vals[0]), echo_arg());
}

#[test]
fn json_scalars_convert() {
    assert_eq!(std_val_to_wasm_val(&JsonValue::Null), ComponentVal::Opt(None));
    assert_eq!(std_val_to_wasm_val(&JsonValue::Bool(true)), ComponentVal::Bool(true));
    assert_eq!(std_val_to_wasm_val(&JsonValue::Int(-2147483648)), ComponentVal::S32(i32::MIN));
    assert_eq!(std_val_to_wasm_val(&JsonValue::Int(2147483648)), ComponentVal::S64(2147483648));
    assert_eq!(std_val_to_wasm_val(&JsonValue::UInt(2147483647)), ComponentVal::S32(i32::MAX));
    assert_eq!(
        std_val_to_wasm_val(&JsonValue::UInt(9223372036854775807)),
        ComponentVal::S64(i64::MAX)
    );
    assert_eq!(std_val_to_wasm_val(&JsonValue::Str(s("x"))), ComponentVal::Str(s("x")));
}

#[test]
fn floats_pick_their_width() {
    let half = 0.5f64.to_bits();
    assert_eq!(std_val_to_wasm_val(&JsonValue::Float(half)), ComponentVal::Float32(half));
    let big = 1e300f64.to_bits();
    assert_eq!(std_val_to_wasm_val(&JsonValue::Float(big)), ComponentVal::Float64(big));
    let edge = (f32::MAX as f64).to_bits();
    assert_eq!(std_val_to_wasm_val(&JsonValue::Float(edge)), ComponentVal::Float32(edge));
    let neg = (-1e39f64).to_bits();
    assert_eq!(std_val_to_wasm_val(&JsonValue::Float(neg)), ComponentVal::Float64(neg));
}

#[test]
fn integers_beyond_i64_become_the_nearest_double() {
    let top = std_val_to_wasm_val(&JsonValue::UInt(u64::MAX));
    assert_eq!(top, ComponentVal::Float32((u64::MAX as f64).to_bits()));
    let low = std_val_to_wasm_val(&JsonValue::UInt(9223372036854775809));
    assert_eq!(low, ComponentVal::Float32((9223372036854775809u64 as f64).to_bits()));
    let odd = 9223372036854777856u64 + 1024;
    assert_eq!(
        std_val_to_wasm_val(&JsonValue::UInt(odd)),
        ComponentVal::Float32((odd as f64).to_bits())
    );
}

#[test]
fn component_numbers_become_json_numbers() {
    assert_eq!(wasm_val_to_std_val(&ComponentVal::S8(-3)), JsonValue::Int(-3));
    assert_eq!(wasm_val_to_std_val(&ComponentVal::U16(65535)), JsonValue::Int(65535));
    assert_eq!(wasm_val_to_std_val(&ComponentVal::U32(4294967295)), JsonValue::Int(4294967295));
    assert_eq!(wasm_val_to_std_val(&ComponentVal::S64(i64::MIN)), JsonValue::Int(i64::MIN));
    assert_eq!(wasm_val_to_std_val(&ComponentVal::U64(u64::MAX)), JsonValue::UInt(u64::MAX));
    let f = 1.25f64.to_bits();
    assert_eq!(wasm_val_to_std_val(&ComponentVal::Float64(f)), JsonValue::Float(f));
    assert_eq!(wasm_val_to_std_val(&ComponentVal::Float32(f64::NAN.to_bits())), JsonValue::Null);
    assert_eq!(
        wasm_val_to_std_val(&ComponentVal::Float64(f64::INFINITY.to_bits())),
        JsonValue::Null
    );
}

#[test]
fn options_results_and_tuples_become_json() {
    assert_eq!(wasm_val_to_std_val(&ComponentVal::Opt(None)), JsonValue::Null);
    assert_eq!(
        wasm_val_to_std_val(&ComponentVal::Opt(Some(Box::new(ComponentVal::Bool(false))))),
        JsonValue::Bool(false)
    );
    assert_eq!(
        wasm_val_to_std_val(&ComponentVal::ResOk(Some(Box::new(ComponentVal::S32(1))))),
        JsonValue::Object(vec![(s("Ok"), JsonValue::Int(1))])
    );
    assert_eq!(
        wasm_val_to_std_val(&ComponentVal::ResErr(None)),
        JsonValue::Object(vec![(s("Err"), JsonValue::Null)])
    );
    assert_eq!(
        wasm_val_to_std_val(&ComponentVal::Tuple(vec![ComponentVal::U8(1), ComponentVal::Str(s("a"))])),
        JsonValue::Array(vec![JsonValue::Int(1), JsonValue::Str(s("a"))])
    );
    assert_eq!(
        wasm_val_to_std_val(&ComponentVal::Other(s("Char('x')"))),
        JsonValue::Str(s("Char('x')"))
    );
}

#[test]
fn repeated_record_fields_keep_first_place_and_last_value() {
    let rec = ComponentVal::Record(vec![
        (s("a"), ComponentVal::S32(1)),
        (s("b"), ComponentVal::S32(2)),
        (s("a"), ComponentVal::S32(3)),
    ]);
    assert_eq!(
        wasm_val_to_std_val(&rec),
        JsonValue::Object(vec![(s("a"), JsonValue::Int(3)), (s("b"), JsonValue::Int(2))])
    );
}

#[test]
fn round_trip_on_nested_values() {
    let v = JsonValue::Object(vec![
        (s("null"), JsonValue::Null),
        (s("t"), JsonValue::Bool(true)),
        (s("min"), JsonValue::Int(-2147483648)),
        (s("max"), JsonValue::Int(2147483647)),
        (s("f"), JsonValue::Float(3.5f64.to_bits())),
        (s("nested"), JsonValue::Array(vec![JsonValue::Array(vec![]), JsonValue::Object(vec![])])),
    ]);
    assert_eq!(wasm_val_to_std_val(&std_val_to_wasm_val(&v)), v);
}

#[test]
fn array_arguments_only() {
    assert_eq!(std_array_to_vals(&JsonValue::Int(1)), None);
    assert_eq!(std_array_to_vals(&JsonValue::Array(vec![])), Some(vec![]));
    assert_eq!(plugin_call_args(None), Ok(vec![]));
    assert_eq!(
        plugin_call_args(Some(JsonValue::Str(s("x")))),
        Err(PluginsErr::Wasmerr(s("Expected an array")))
    );
}
