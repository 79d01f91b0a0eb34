use pahoa::datastore::integer::Integer;
use pahoa::datastore::metrics::{
    apply_stats, failure_label, failures, json_len, record_apply, record_failure, StoreMetrics,
};
use pahoa::datastore::ops::{
    apply, apply_all, finish, resume, FloatCall, OpError, Outcome, Progress,
};
use pahoa::datastore::opspec::FloatOp;
use pahoa::datastore::pyvalue::{
    as_num, floor_mod_big, floor_mod_i64, is_hashable, py_cmp, py_contains, py_eq, PyNum,
};
use pahoa::datastore::render::{pad_exponent, wants_exponent};
use pahoa::datastore::value::{Number, Value};
use pahoa::json::encode;
use std::cmp::Ordering;

fn from_serde(v: &serde_json::Value) -> Value {
    match v {
        serde_json::Value::Null => Value::Null,
        serde_json::Value::Bool(b) => Value::Bool(*b),
        serde_json::Value::Number(n) => {
            let text = n.to_string();
            let float = text.parse::<f64>().ok().filter(|f| f.is_finite()).map(f64::to_bits);
            Value::Number(Number { text, float })
        }
        serde_json::Value::String(s) => Value::String(s.clone()),
        serde_json::Value::Array(items) => Value::Array(items.iter().map(from_serde).collect()),
        serde_json::Value::Object(map) => {
            Value::Object(map.iter().map(|(k, v)| (k.clone(), from_serde(v))).collect())
        }
    }
}

fn v(text: &str) -> Value {
    from_serde(&serde_json::from_str(text).expect("JSON"))
}

fn py_repr_f64(f: f64) -> Option<String> {
    if !f.is_finite() {
        return None;
    }
    let text = if wants_exponent(f.to_bits()) {
        format!("{f:e}")
    } else {
        serde_json::Number::from_f64(f)?.to_string()
    };
    Some(pad_exponent(&text))
}

fn floor_mod_f64(a: f64, b: f64) -> Option<f64> {
    if b == 0.0 {
        return None;
    }
    let m = a % b;
    if m == 0.0 {
        return Some(0.0f64.copysign(b));
    }
    Some(if (m < 0.0) != (b < 0.0) { m + b } else { m })
}

fn as_f64(n: &PyNum) -> f64 {
    match n {
        PyNum::Int(i) => i.to_text().parse().expect("a number"),
        PyNum::Float(bits) => f64::from_bits(*bits),
    }
}

fn compute(call: &FloatCall) -> Option<Number> {
    let (a, b) = (as_f64(&call.left), as_f64(&call.right));
    let f = match call.op {
        FloatOp::Add => a + b,
        FloatOp::Mul => a * b,
        FloatOp::Pow => a.powf(b),
        FloatOp::Mod => floor_mod_f64(a, b)?,
    };
    py_repr_f64(f).map(|text| Number { text, float: Some(f.to_bits()) })
}

fn run(op: &str, current: &str, arg: &str) -> Result<String, OpError> {
    match apply(op, v(current), &v(arg))? {
        Outcome::Value(value) => Ok(encode(&value)),
        Outcome::Float(call) => finish(compute(&call)).map(|value| encode(&value)),
    }
}

fn run_all(value: &str, ops: &[(&str, &str)]) -> Result<String, (usize, OpError)> {
    let ops: Vec<(String, Value)> = ops.iter().map(|(o, a)| (o.to_string(), v(a))).collect();
    let mut progress = apply_all(v(value), &ops);
    loop {
        match progress {
            Progress::Done(value) => return Ok(encode(&value)),
            Progress::Failed(at, e) => return Err((at, e)),
            Progress::Float(at, call) => progress = resume(&ops, at, compute(&call)),
        }
    }
}

fn ok(op: &str, current: &str, arg: &str) -> String {
    run(op, current, arg).expect("should succeed")
}

#[test]
fn json_len_agrees_with_actually_encoding_it() {
    for text in [
        "null",
        "0",
        "-17.5",
        "\"ab\"",
        "\"quote\\\" backslash\\\\ newline\\n\"",
        "\"héllo ☃\"",
        "[]",
        "{}",
        "[1, [2, [3, {\"k\": \"v\"}]]]",
        "{\"a\": [1, 2, 3], \"b\": {\"c\": true}}",
        "2361183241434822606849",
    ] {
        let serde: serde_json::Value = serde_json::from_str(text).unwrap();
        let value = from_serde(&serde);
        let want = serde_json::to_string(&serde).unwrap();
        assert_eq!(encode(&value), want);
        assert_eq!(json_len(&value), want.len(), "{text}");
    }
}

#[test]
fn control_characters_are_written_as_serde_json_writes_them() {
    for code in 0..0x20u32 {
        let s: String = std::iter::once(char::from_u32(code).unwrap()).collect();
        let want = serde_json::to_string(&s).unwrap();
        assert_eq!(encode(&Value::String(s)), want);
    }
}

#[test]
fn the_worst_apply_is_remembered_and_the_total_accumulates() {
    let mut m = StoreMetrics::new();
    let before = apply_stats(&m);
    record_apply(&mut m, 5_000_000);
    record_apply(&mut m, 1_000_000);
    let after = apply_stats(&m);
    assert_eq!(after.applied, before.applied + 2);
    assert!(after.total >= before.total + 6_000_000);
    assert!(after.max >= 5_000_000, "the 1ms call must not lower the high-water mark");
    record_apply(&mut m, u128::MAX);
    assert_eq!(apply_stats(&m).max, u64::MAX);
}

#[test]
fn failures_are_counted_by_operation() {
    let mut m = StoreMetrics::new();
    record_failure(&mut m, "pop");
    record_failure(&mut m, "mod");
    record_failure(&mut m, "pop");
    let f = failures(&m);
    assert_eq!(f.len(), 2);
    assert_eq!(f.get(&"pop".to_string()), Some(&2));
    assert_eq!(failure_label("pop", &OpError::IndexError), "pop");
    assert_eq!(failure_label("zz", &OpError::UnknownOperation("zz".into())), "unknown");
}

#[test]
fn floats_render_as_cpython_reprs_them() {
    for (value, want) in [
        (1e16, "1e+16"),
        (1e15, "1000000000000000.0"),
        (1e-5, "1e-05"),
        (1e-4, "0.0001"),
        (1e100, "1e+100"),
        (1e-100, "1e-100"),
        (1.2142656789020123e-6, "1.2142656789020123e-06"),
        (0.1, "0.1"),
        (1.0, "1.0"),
        (-0.0, "-0.0"),
        (0.0, "0.0"),
        (2.5, "2.5"),
        (1e17, "1e+17"),
        (1.5e-7, "1.5e-07"),
        (5e-324, "5e-324"),
        (1.7976931348623157e308, "1.7976931348623157e+308"),
        (-9.9e-5, "-9.9e-05"),
        (0.00012, "0.00012"),
        (-1e-6, "-1e-06"),
        (3.0, "3.0"),
    ] {
        assert_eq!(py_repr_f64(value).as_deref(), Some(want));
    }
}

#[test]
fn a_rendered_float_still_reads_back_as_itself() {
    for value in [1e-5, 1.2142656789020123e-6, 5e-324, -9.9e-5, 0.1, 2.5] {
        let text = py_repr_f64(value).unwrap();
        assert_eq!(text.parse::<f64>().unwrap(), value, "{text}");
    }
}

#[test]
fn non_finite_floats_have_no_rendering() {
    assert_eq!(py_repr_f64(f64::NAN), None);
    assert_eq!(py_repr_f64(f64::INFINITY), None);
    assert_eq!(py_repr_f64(f64::NEG_INFINITY), None);
    assert!(matches!(finish(None), Err(OpError::NotFinite)));
}

#[test]
fn a_zero_remainder_takes_the_divisors_sign() {
    assert_eq!(floor_mod_f64(0.0, -2.5).map(f64::is_sign_negative), Some(true));
    assert_eq!(floor_mod_f64(2.5, -2.5).map(f64::is_sign_negative), Some(true));
    assert_eq!(floor_mod_f64(-2.5, 2.5).map(f64::is_sign_negative), Some(false));
    assert_eq!(floor_mod_f64(2.0, -1.0).map(f64::is_sign_negative), Some(true));
    assert_eq!(floor_mod_f64(-7.0, 3.0), Some(2.0));
    assert_eq!(ok("mod", "0.0", "-2.5"), "-0.0");
}

#[test]
fn booleans_are_integers() {
    let one = as_num(&v("true")).unwrap();
    let zero = as_num(&v("false")).unwrap();
    assert!(matches!(one, PyNum::Int(i) if i.to_i64() == Some(1)));
    assert!(matches!(zero, PyNum::Int(i) if i.to_i64() == Some(0)));
}

#[test]
fn modulo_follows_the_divisors_sign() {
    assert_eq!(floor_mod_i64(-7, 3), Some(2));
    assert_eq!(floor_mod_i64(7, -3), Some(-2));
    assert_eq!(floor_mod_i64(7, 3), Some(1));
    assert_eq!(floor_mod_i64(-7, -3), Some(-1));
    assert_eq!(floor_mod_i64(6, 3), Some(0));
    assert_eq!(floor_mod_i64(1, 0), None);
    assert_eq!(floor_mod_i64(i64::MIN, -1), Some(0));
}

#[test]
fn float_modulo_matches_python_too() {
    assert_eq!(floor_mod_f64(-7.0, 3.0), Some(2.0));
    assert_eq!(floor_mod_f64(7.5, -3.0), Some(-1.5));
    assert_eq!(ok("mod", "-7.0", "3"), "2.0");
    assert_eq!(ok("mod", "7.5", "-3.0"), "-1.5");
}

#[test]
fn wide_integers_are_computed_exactly() {
    let a = Integer::from_text("-2361183241434822606849").unwrap();
    let b = Integer::from_text("1180591620717411303424").unwrap();
    assert_eq!(a.plus(&b).to_text(), "-1180591620717411303425");
    assert_eq!(a.times(&b).to_text(), "-2787593149816327892693145375701762599550976");
    assert_eq!(floor_mod_big(&a, &b).unwrap().to_text(), "1180591620717411303423");
    assert_eq!(Integer::from_i64(-5).bit_and(&Integer::from_i64(12)).to_text(), "8");
    assert_eq!(Integer::from_i64(-5).bit_or(&Integer::from_i64(12)).to_text(), "-1");
    assert_eq!(Integer::from_i64(-5).bit_xor(&Integer::from_i64(12)).to_text(), "-9");
    assert_eq!(Integer::from_i64(3).shifted_left(100).to_text(), "3802951800684688204490109616128");
    assert_eq!(Integer::from_i64(-5).shifted_right(1).to_text(), "-3");
    assert_eq!(Integer::from_i64(-3).power(41).to_text(), "-36472996377170786403");
    assert_eq!(a.remainder(&b).to_text(), "-1");
    assert_eq!(b.bits(), 71);
    assert!(a.less(&b) && !b.less(&a) && a.is_negative());
    assert_eq!(a.to_i64(), None);
    assert_eq!(Integer::from_text("18446744073709551615").unwrap().to_u64(), Some(u64::MAX));
    assert!(Integer::from_text("12x").is_none());
    assert!(Integer::from_i64(5).bit(0) && !Integer::from_i64(5).bit(1));
    assert!(Integer::from_i64(-1).bit(500));
    assert!(Integer::from_i64(7).equals(&Integer::from_text("7").unwrap()));
}

#[test]
fn equality_crosses_numeric_types() {
    assert!(py_eq(&v("1"), &v("1.0")));
    assert!(py_eq(&v("1"), &v("true")));
    assert!(py_eq(&v("0"), &v("false")));
    assert!(!py_eq(&v("1"), &v("\"1\"")));
    assert!(!py_eq(&v("null"), &v("0")));
}

#[test]
fn equality_recurses_through_containers() {
    assert!(py_eq(&v("[1, 2]"), &v("[1.0, 2.0]")));
    assert!(py_eq(&v("[1, [2]]"), &v("[true, [2.0]]")));
    assert!(!py_eq(&v("[1, 2]"), &v("[1, 2, 3]")));
    assert!(py_eq(&v("{\"a\": 1}"), &v("{\"a\": 1.0}")));
    assert!(!py_eq(&v("{\"a\": 1}"), &v("{\"b\": 1}")));
}

#[test]
fn membership_uses_python_equality() {
    assert!(py_contains(&vec![v("1")], &v("1.0")));
    assert!(py_contains(&vec![v("true")], &v("1")));
    assert!(!py_contains(&vec![v("\"1\"")], &v("1")));
}

#[test]
fn ordering_is_defined_within_types_and_absent_across_them() {
    assert_eq!(py_cmp(&v("1"), &v("2")), Some(Ordering::Less));
    assert_eq!(py_cmp(&v("\"a\""), &v("\"b\"")), Some(Ordering::Less));
    assert_eq!(py_cmp(&v("[1, 2]"), &v("[1, 3]")), Some(Ordering::Less));
    assert_eq!(py_cmp(&v("1"), &v("\"a\"")), None);
    assert_eq!(py_cmp(&v("2.5"), &v("2")), Some(Ordering::Greater));
    assert_eq!(py_cmp(&v("9007199254740993"), &v("9007199254740992.0")), Some(Ordering::Greater));
}

#[test]
fn containers_are_unhashable() {
    assert!(is_hashable(&v("1")));
    assert!(is_hashable(&v("\"a\"")));
    assert!(is_hashable(&v("null")));
    assert!(!is_hashable(&v("[1]")));
    assert!(!is_hashable(&v("{\"a\": 1}")));
}

#[test]
fn modulo_follows_the_divisor_not_the_dividend() {
    assert_eq!(ok("mod", "-7", "3"), "2");
    assert_eq!(ok("mod", "7", "-3"), "-2");
}

#[test]
fn booleans_participate_as_integers() {
    assert_eq!(ok("add", "true", "1"), "2");
    assert_eq!(ok("add", "true", "true"), "2");
    assert_eq!(ok("and", "true", "true"), "true");
    assert_eq!(ok("or", "false", "true"), "true");
}

#[test]
fn max_and_min_return_the_first_maximal_element() {
    assert_eq!(ok("max", "1", "1.0"), "1");
    assert_eq!(ok("max", "1.0", "1"), "1.0");
    assert_eq!(ok("min", "1", "1.0"), "1");
}

#[test]
fn multiplication_repeats_sequences_in_either_order() {
    assert_eq!(ok("mul", "\"ab\"", "3"), "\"ababab\"");
    assert_eq!(ok("mul", "3", "\"ab\""), "\"ababab\"");
    assert_eq!(ok("mul", "[1]", "2"), "[1,1]");
    assert_eq!(ok("mul", "\"ab\"", "0"), "\"\"");
    assert_eq!(ok("mul", "\"ab\"", "-1"), "\"\"");
}

#[test]
fn addition_concatenates_and_extends() {
    assert_eq!(ok("add", "\"ab\"", "\"c\""), "\"abc\"");
    assert_eq!(ok("add", "[1]", "[2]"), "[1,2]");
}

#[test]
fn or_merges_dictionaries() {
    assert_eq!(
        ok("or", "{\"a\": 1, \"b\": 2}", "{\"b\": 3, \"c\": 4}"),
        "{\"a\":1,\"b\":3,\"c\":4}"
    );
}

#[test]
fn floor_and_ceil_ignore_the_argument_and_return_integers() {
    assert_eq!(ok("floor", "2.7", "\"ignored\""), "2");
    assert_eq!(ok("ceil", "2.1", "null"), "3");
    assert_eq!(ok("floor", "-2.1", "null"), "-3");
    assert_eq!(ok("ceil", "1e20", "null"), "100000000000000000000");
}

#[test]
fn update_on_a_list_appends_only_what_is_absent_by_python_equality() {
    assert_eq!(ok("update", "[1, 2]", "[2, 3]"), "[1,2,3]");
    assert_eq!(ok("update", "[1]", "[1.0]"), "[1]");
    assert_eq!(ok("update", "[1]", "[true]"), "[1]");
}

#[test]
fn update_on_a_list_of_unhashables_is_refused() {
    assert!(matches!(run("update", "[[1]]", "[2]"), Err(OpError::Unhashable)));
}

#[test]
fn remove_drops_only_the_first_match_and_ignores_absent_values() {
    assert_eq!(ok("remove", "[1, 2, 1]", "1"), "[2,1]");
    assert_eq!(ok("remove", "[1]", "9"), "[1]");
    assert!(run("remove", "{\"a\": 1}", "\"a\"").is_err());
}

#[test]
fn pop_guards_positive_out_of_range_but_not_negative() {
    assert_eq!(ok("pop", "[1, 2]", "5"), "[1,2]");
    assert_eq!(ok("pop", "[1, 2]", "1"), "[1]");
    assert_eq!(ok("pop", "[1, 2, 3]", "-1"), "[1,2]");
    assert!(matches!(run("pop", "[1, 2]", "-5"), Err(OpError::IndexError)));
    assert_eq!(ok("pop", "{\"a\": 1}", "\"zz\""), "{\"a\":1}");
}

#[test]
fn default_keeps_the_existing_value_and_replace_takes_the_new_one() {
    assert_eq!(ok("default", "1", "2"), "1");
    assert_eq!(ok("replace", "1", "2"), "2");
}

#[test]
fn unknown_operations_are_refused_by_name() {
    match run("nonsense", "1", "1") {
        Err(OpError::UnknownOperation(name)) => assert_eq!(name, "nonsense"),
        other => panic!("got {other:?}"),
    }
    assert_eq!(
        OpError::UnknownOperation("a\"b".into()).message(),
        "unknown data storage operation \"a\\\"b\""
    );
}

#[test]
fn the_denial_of_service_shapes_are_bounded() {
    assert!(matches!(run("pow", "2", "1000000000"), Err(OpError::Overflow)));
    assert!(matches!(run("mul", "\"x\"", "1000000000"), Err(OpError::ResultTooLarge)));
    assert!(matches!(run("left_shift", "1", "1000000"), Err(OpError::Overflow)));
}

#[test]
fn a_failed_sequence_changes_nothing() {
    assert!(matches!(
        run_all("5", &[("add", "1"), ("mod", "0")]),
        Err((1, OpError::ZeroDivisionError))
    ));
    assert_eq!(run_all("5", &[("add", "1"), ("mul", "2")]).unwrap(), "12");
    assert_eq!(run_all("5", &[("add", "0.5"), ("mul", "2"), ("floor", "0")]).unwrap(), "11");
}

#[test]
fn floats_go_through_the_caller() {
    assert_eq!(ok("add", "1.5", "2"), "3.5");
    assert_eq!(ok("mul", "2.5", "-2"), "-5.0");
    assert_eq!(ok("pow", "2", "-1"), "0.5");
    assert!(matches!(run("mul", "1e308", "10.0"), Err(OpError::NotFinite)));
}

#[test]
fn each_refusal_has_its_own_error() {
    assert!(matches!(run("add", "1", "\"a\""), Err(OpError::TypeError { .. })));
    assert!(matches!(run("mod", "1", "0"), Err(OpError::ZeroDivisionError)));
    assert!(matches!(run("mod", "\"a %s\"", "1"), Err(OpError::StringFormatting)));
    assert!(matches!(run("left_shift", "1", "-1"), Err(OpError::ValueError(_))));
    let wide = format!("1{}", "0".repeat(20_000));
    assert!(matches!(run("add", &wide, "1"), Err(OpError::IntegerTooWide)));
    assert_eq!(ok("replace", "1", &wide), wide);
}

#[test]
fn bitwise_operations_and_shifts_work_on_any_width() {
    assert_eq!(ok("and", "12", "10"), "8");
    assert_eq!(ok("or", "12", "10"), "14");
    assert_eq!(ok("xor", "12", "10"), "6");
    assert_eq!(ok("left_shift", "1", "70"), "1180591620717411303424");
    assert_eq!(ok("right_shift", "1180591620717411303424", "70"), "1");
    assert_eq!(ok("pow", "2", "70"), "1180591620717411303424");
}
