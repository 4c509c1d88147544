use cc_wasm_api::either::Either;
use cc_wasm_api::lua_api::{
    assert_type, ExportQueue, Exportable, ImportQueue, Importable, LuaError, LuaValue, Nil, Typed,
};

fn queue_of(values: Vec<LuaValue>) -> ImportQueue {
    let mut q = ImportQueue::new();
    for v in values {
        q.push_value(v);
    }
    q
}

#[test]
fn typed_tags_decode_from_numbers() {
    assert_eq!(Typed::from_i32(0), Typed::Nothing);
    assert_eq!(Typed::from_i32(1), Typed::I32);
    assert_eq!(Typed::from_i32(2), Typed::I64);
    assert_eq!(Typed::from_i32(3), Typed::String);
    assert_eq!(Typed::from_i32(4), Typed::F32);
    assert_eq!(Typed::from_i32(5), Typed::F64);
    assert_eq!(Typed::from_i32(6), Typed::Type);
    assert_eq!(Typed::from_i32(7), Typed::Object);
    assert_eq!(Typed::from_i32(8), Typed::Nil);
    assert_eq!(Typed::from_i32(9), Typed::Bool);
    assert_eq!(Typed::from_i32(10), Typed::Error);
    assert_eq!(Typed::from_i32(-1), Typed::Error);
}

#[test]
fn scalars_cross_the_boundary_both_ways() {
    let mut q = queue_of(vec![
        LuaValue::I32(-7),
        LuaValue::I64(1 << 40),
        LuaValue::Bool(true),
        LuaValue::Str("hey".to_string()),
    ]);
    assert_eq!(i32::import(&mut q).unwrap(), -7);
    assert_eq!(i64::import(&mut q).unwrap(), 1 << 40);
    assert_eq!(bool::import(&mut q).unwrap(), true);
    assert_eq!(String::import(&mut q).unwrap(), "hey");
    assert_eq!(q.next_import_type(), Typed::Nothing);

    let mut out = ExportQueue::new();
    12i32.export(&mut out);
    (-3i64).export(&mut out);
    false.export(&mut out);
    "back".to_string().export(&mut out);
    Nil.export(&mut out);
    ().export(&mut out);
    let sent = out.drain();
    assert_eq!(sent.len(), 5);
    assert!(matches!(sent[0], LuaValue::I32(12)));
    assert!(matches!(sent[1], LuaValue::I64(-3)));
    assert!(matches!(sent[2], LuaValue::Bool(false)));
    assert!(matches!(&sent[3], LuaValue::Str(s) if s == "back"));
    assert!(matches!(sent[4], LuaValue::Nil));
}

#[test]
fn a_wrong_type_is_refused_and_not_consumed() {
    let mut q = queue_of(vec![LuaValue::Bool(true)]);
    let e = i32::import(&mut q).unwrap_err();
    assert_eq!(e.as_str(), "expect i32, got bool");
    // the refusing check consumed nothing
    assert_eq!(bool::import(&mut q).unwrap(), true);

    let mut empty = ImportQueue::new();
    let e = String::import(&mut empty).unwrap_err();
    assert_eq!(e.as_str(), "expect string, got none");
}

#[test]
fn assert_type_names_both_types() {
    let q = queue_of(vec![LuaValue::Str("x".to_string())]);
    assert!(assert_type(Typed::String, &q).is_ok());
    let e = assert_type(Typed::I64, &q).unwrap_err();
    assert_eq!(e.as_str(), "expect i64, got string");
}

#[test]
fn lua_errors_keep_their_message() {
    let e = LuaError::from_str("fixed");
    assert_eq!(e.as_str(), "fixed");
    let e = LuaError::from_string(format!("built {}", 3));
    assert_eq!(e.as_str(), "built 3");
}

#[test]
fn unit_and_nil_swallow_an_explicit_nil() {
    let mut q = queue_of(vec![LuaValue::Nil, LuaValue::I32(5)]);
    <()>::import(&mut q).unwrap();
    assert_eq!(i32::import(&mut q).unwrap(), 5);

    let mut q = queue_of(vec![LuaValue::I32(6)]);
    <()>::import(&mut q).unwrap(); // nothing to swallow
    assert_eq!(i32::import(&mut q).unwrap(), 6);

    let mut q = queue_of(vec![LuaValue::Nil]);
    assert_eq!(Nil::import(&mut q).unwrap(), Nil);
    assert_eq!(q.next_import_type(), Typed::Nothing);
}

#[test]
fn options_read_missing_and_nil_as_none() {
    let mut q = ImportQueue::new();
    assert_eq!(Option::<i32>::import(&mut q).unwrap(), None);

    let mut q = queue_of(vec![LuaValue::Nil]);
    assert_eq!(Option::<i32>::import(&mut q).unwrap(), None);

    let mut q = queue_of(vec![LuaValue::I32(9)]);
    assert_eq!(Option::<i32>::import(&mut q).unwrap(), Some(9));

    let mut out = ExportQueue::new();
    Some(4i32).export(&mut out);
    None::<i32>.export(&mut out);
    let sent = out.drain();
    assert_eq!(sent.len(), 1);
    assert!(matches!(sent[0], LuaValue::I32(4)));
}

#[test]
fn pairs_cross_in_order() {
    let mut q = queue_of(vec![LuaValue::I32(1), LuaValue::Bool(true)]);
    let (a, b) = <(i32, bool)>::import(&mut q).unwrap();
    assert_eq!((a, b), (1, true));

    // a failure inside the pair stops at the failing part
    let mut q = queue_of(vec![LuaValue::I32(1), LuaValue::I32(2)]);
    assert!(<(i32, bool)>::import(&mut q).is_err());
    assert_eq!(i32::import(&mut q).unwrap(), 2);

    let mut out = ExportQueue::new();
    (7i32, true).export(&mut out);
    let sent = out.drain();
    assert!(matches!(sent[0], LuaValue::I32(7)));
    assert!(matches!(sent[1], LuaValue::Bool(true)));
}

#[test]
fn either_takes_the_first_side_that_fits() {
    let mut q = queue_of(vec![LuaValue::I32(3)]);
    assert_eq!(Either::<i32, bool>::import(&mut q).unwrap(), Either::First(3));

    let mut q = queue_of(vec![LuaValue::Bool(false)]);
    assert_eq!(Either::<i32, bool>::import(&mut q).unwrap(), Either::Second(false));

    let mut q = queue_of(vec![LuaValue::Str("neither".to_string())]);
    let e = Either::<i32, bool>::import(&mut q).unwrap_err();
    assert_eq!(e.as_str(), "neither of the value matches");

    let mut out = ExportQueue::new();
    Either::<i32, bool>::First(11).export(&mut out);
    Either::<i32, bool>::Second(true).export(&mut out);
    let sent = out.drain();
    assert!(matches!(sent[0], LuaValue::I32(11)));
    assert!(matches!(sent[1], LuaValue::Bool(true)));
}

#[test]
fn abort_skips_one_value() {
    let mut q = queue_of(vec![LuaValue::I32(1), LuaValue::I32(2)]);
    q.abort_next_import();
    assert_eq!(i32::import(&mut q).unwrap(), 2);
    q.abort_next_import(); // empty: nothing happens
    assert_eq!(q.next_import_type(), Typed::Nothing);
}
