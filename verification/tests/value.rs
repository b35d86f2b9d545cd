use cvar::{ClampedProp, OwnedProp, PropState, Property, ReadOnlyProp, Value};

#[test]
fn display_forms() {
    assert_eq!(Value::Int(0).to_display(), "0");
    assert_eq!(Value::Int(-5).to_display(), "-5");
    assert_eq!(Value::Int(1234567890).to_display(), "1234567890");
    assert_eq!(Value::Int(i64::MIN).to_display(), "-9223372036854775808");
    assert_eq!(Value::Hex(0).to_display(), "0");
    assert_eq!(Value::Hex(31).to_display(), "0x1f");
    assert_eq!(Value::Hex(u64::MAX).to_display(), "0xffffffffffffffff");
    assert_eq!(Value::Bool(true).to_display(), "true");
    assert_eq!(Value::Bool(false).to_display(), "false");
    assert_eq!(Value::Str(String::from("any")).to_display(), "any");
}

#[test]
fn parse_forms() {
    let int = Value::Int(0);
    assert_eq!(int.parse_as("42"), Some(Value::Int(42)));
    assert_eq!(int.parse_as("-42"), Some(Value::Int(-42)));
    assert_eq!(int.parse_as("-9223372036854775808"), Some(Value::Int(i64::MIN)));
    assert_eq!(int.parse_as("9223372036854775808"), None);
    assert_eq!(int.parse_as("+42"), Some(Value::Int(42)));
    assert_eq!(int.parse_as("+"), None);
    assert_eq!(int.parse_as("+-1"), None);
    assert_eq!(int.parse_as(""), None);
    assert_eq!(int.parse_as("4x"), None);

    let hex = Value::Hex(0);
    assert_eq!(hex.parse_as("0x10"), Some(Value::Hex(16)));
    assert_eq!(hex.parse_as("10"), Some(Value::Hex(10)));
    assert_eq!(hex.parse_as("-1"), Some(Value::Hex(u64::MAX)));
    assert_eq!(hex.parse_as("!0"), Some(Value::Hex(u64::MAX)));
    assert_eq!(hex.parse_as("!-1"), Some(Value::Hex(0)));
    assert_eq!(hex.parse_as("0xFF"), Some(Value::Hex(255)));
    assert_eq!(hex.parse_as("+10"), Some(Value::Hex(10)));
    assert_eq!(hex.parse_as("0x+10"), Some(Value::Hex(16)));
    assert_eq!(hex.parse_as("-+1"), Some(Value::Hex(u64::MAX)));
    assert_eq!(hex.parse_as("0x"), None);

    let b = Value::Bool(false);
    assert_eq!(b.parse_as("true"), Some(Value::Bool(true)));
    assert_eq!(b.parse_as("false"), Some(Value::Bool(false)));
    assert_eq!(b.parse_as("yes"), None);

    let s = Value::Str(String::new());
    assert_eq!(s.parse_as("anything"), Some(Value::Str(String::from("anything"))));
}

#[test]
fn round_trip_through_set_and_get() {
    // For each concrete type: format a value, parse it back, get it equal.
    let mut writer = String::new();
    let cases = vec![
        (Value::Int(-77), Value::Int(0)),
        (Value::Hex(4096), Value::Hex(0)),
        (Value::Bool(true), Value::Bool(false)),
        (Value::Str(String::from("it is")), Value::Str(String::new())),
    ];
    for (v, zero) in cases {
        let mut p = Property::new("p", zero.duplicate(), v.duplicate());
        assert!(p.set(v.to_display().as_str(), &mut writer));
        assert_eq!(p.get_value(), &v);
        assert_eq!(writer, "");
    }
}

#[test]
fn clamped_set_lands_on_bounds() {
    let mut writer = String::new();
    let mut p = ClampedProp::new(
        "c",
        Value::Int(5),
        Value::Int(5),
        Some(Value::Int(0)),
        Some(Value::Int(10)),
    );
    assert!(p.set("-3", &mut writer));
    assert_eq!(p.get_value(), &Value::Int(0));
    assert!(p.set("99", &mut writer));
    assert_eq!(p.get_value(), &Value::Int(10));
    assert!(p.set("7", &mut writer));
    assert_eq!(p.get_value(), &Value::Int(7));
    // One-sided bounds leave the other side open.
    let mut q = ClampedProp::new("c", Value::Int(0), Value::Int(0), Some(Value::Int(-2)), None);
    assert!(q.set("-100", &mut writer));
    assert_eq!(q.get_value(), &Value::Int(-2));
    assert!(q.set("100000", &mut writer));
    assert_eq!(q.get_value(), &Value::Int(100000));
}

#[test]
fn reset_is_idempotent_and_restores_default() {
    let mut writer = String::new();
    let mut p = Property::new("p", Value::Int(3), Value::Int(42));
    assert_eq!(p.state(), PropState::UserSet);
    p.reset();
    assert_eq!(p.get_value(), &Value::Int(42));
    assert_eq!(p.state(), PropState::Default);
    p.reset();
    assert_eq!(p.get_value(), &Value::Int(42));
    assert_eq!(p.state(), PropState::Default);
    assert!(p.set("9", &mut writer));
    assert_eq!(p.state(), PropState::UserSet);
}

#[test]
fn read_only_refuses_mutation() {
    let mut writer = String::new();
    let mut p = ReadOnlyProp::new("r", Value::Int(3), Value::Int(42));
    assert!(!p.set("9", &mut writer));
    assert_eq!(writer, "cannot set read-only property");
    writer.clear();
    assert!(!p.set_value(&Value::Int(9), &mut writer));
    assert_eq!(writer, "cannot set read-only property");
    p.reset();
    assert_eq!(p.get_value(), &Value::Int(3));
    assert_eq!(p.state(), PropState::UserSet);
}

#[test]
fn set_value_checks_the_concrete_type() {
    let mut writer = String::new();
    let mut p = OwnedProp::new(String::from("o"), Value::Int(3), Value::Int(3));
    assert!(!p.set_value(&Value::Bool(true), &mut writer));
    assert_eq!(writer, "mismatched types");
    assert_eq!(p.get_value(), &Value::Int(3));
    writer.clear();
    assert!(p.set_value(&Value::Int(8), &mut writer));
    assert_eq!(p.get_value(), &Value::Int(8));
    assert_eq!(writer, "");
}

#[test]
fn hex_prop_round_trip() {
    let mut writer = String::new();
    let mut p = cvar::HexProp("h", 31, 0);
    assert_eq!(p.get_value().to_display(), "0x1f");
    assert!(p.set("!0", &mut writer));
    assert_eq!(p.get_value(), &Value::Hex(u64::MAX));
    assert!(p.set("-2", &mut writer));
    assert_eq!(p.get_value(), &Value::Hex(u64::MAX - 1));
}
