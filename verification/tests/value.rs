use flu::nil;
use flu::Context;
use flu::LuaValue;
use flu::NumBits;

#[test]
fn read_value() {
    let mut cxt = Context::new();

    cxt.push((nil, NumBits((45f32 as f64).to_bits()), "Hello world!"));

    assert_eq!(cxt.remove::<LuaValue>(1), LuaValue::Nil);
    assert_eq!(cxt.remove::<LuaValue>(1), LuaValue::Number(45f64.to_bits()));
    assert_eq!(
        cxt.remove::<LuaValue>(1),
        LuaValue::Str("Hello world!".to_string())
    );
}

#[test]
fn typename_of_each_kind() {
    assert_eq!(LuaValue::Nil.typename(), "nil");
    assert_eq!(LuaValue::Bool(true).typename(), "bool");
    assert_eq!(LuaValue::Number(0).typename(), "number");
    assert_eq!(LuaValue::Str(String::new()).typename(), "string");
    assert_eq!(LuaValue::Table(0).typename(), "table");
    assert_eq!(LuaValue::Function(0).typename(), "function");
    assert_eq!(LuaValue::Missing.typename(), "none");
}

#[test]
fn number_encoding_is_ieee() {
    // the verified integer encoder produces the platform's own
    // double patterns
    for n in [0i64, 1, -1, 2, 42, -42, 1000000, -123456789, 0xdeadbeef] {
        assert_eq!(flu::f64_bits_of_int(n), (n as f64).to_bits());
        assert_eq!(flu::int_of_f64_bits((n as f64).to_bits()), Some(n));
        assert_eq!(flu::trunc_of_f64_bits((n as f64).to_bits()), n);
    }
    // truncation toward zero on fractional values
    assert_eq!(flu::trunc_of_f64_bits(2.75f64.to_bits()), 2);
    assert_eq!(flu::trunc_of_f64_bits((-2.75f64).to_bits()), -2);
    assert_eq!(flu::int_of_f64_bits(2.75f64.to_bits()), None);
}

#[test]
fn int_rendering() {
    assert_eq!(flu::int_to_string(0), "0");
    assert_eq!(flu::int_to_string(45), "45");
    assert_eq!(flu::int_to_string(-178), "-178");
    assert_eq!(flu::int_to_string(1000000007), "1000000007");
}

#[test]
fn narrow_reads_saturate() {
    let mut cxt = Context::new();

    // magnitudes beyond the target width clamp at its bounds
    cxt.push(NumBits(300f64.to_bits()));
    assert_eq!(cxt.pop::<i8>(), 127i8);

    cxt.push(NumBits((-300f64).to_bits()));
    assert_eq!(cxt.pop::<i8>(), -128i8);

    // unsigned targets clamp at zero and their upper bound
    let mut w = flu::WeakState::new();
    w.set("n", 70000i32);
    assert_eq!(w.get::<u16>("n"), Ok(65535u16));
    assert_eq!(w.get::<i16>("n"), Ok(32767i16));
    w.set("m", -5i32);
    assert_eq!(w.get::<u16>("m"), Ok(0u16));
}
