use flu::nil;
use flu::Context;
use flu::LuaRef;
use flu::LuaValue;
use flu::NumBits;
use flu::collections::Table;

#[test]
fn flu_stack_size() {
    let mut cxt = Context::new();

    cxt.push(true);
    cxt.push(false);
    cxt.push(true);
    cxt.push(false);

    assert_eq!(cxt.size(), 4);
}

#[test]
fn stack_flu_stack_read_int() {
    let mut cxt = Context::new();

    cxt.push(42i8);
    assert_eq!(cxt.pop::<i8>(), 42i8);

    cxt.push(16i16);
    assert_eq!(cxt.pop::<i16>(), 16i16);

    cxt.push(101i32);
    assert_eq!(cxt.pop::<i32>(), 101i32);
}

#[test]
fn stack_flu_stack_read_num() {
    let mut cxt = Context::new();

    cxt.push(NumBits(42f64.to_bits()));
    assert_eq!(f64::from_bits(cxt.pop::<NumBits>().0), 42f64);

    cxt.push(NumBits((16f32 as f64).to_bits()));
    assert_eq!(f64::from_bits(cxt.pop::<NumBits>().0) as f32, 16f32);

    cxt.push(NumBits((101f32 as f64).to_bits()));
    assert_eq!(f64::from_bits(cxt.pop::<NumBits>().0), 101f64);

    cxt.push(NumBits(99f64.to_bits()));
    assert_eq!(f64::from_bits(cxt.pop::<NumBits>().0) as f32, 99f32);
}

#[test]
fn stack_flu_stack_read_string() {
    let mut cxt = Context::new();

    cxt.push("Hello world!");
    cxt.push("Hello rust!".to_string());

    assert_eq!(cxt.pop::<String>(), "Hello rust!");
    assert_eq!(cxt.pop::<String>(), "Hello world!");
}

#[test]
fn stack_flu_stack_read_optional() {
    let mut cxt = Context::new();

    cxt.push("Hello world!");
    cxt.push(nil);

    assert_eq!(cxt.pop::<Option<String>>(), None);
    assert_eq!(cxt.pop::<Option<String>>(), Some("Hello world!".to_string()));
}

#[test]
fn flu_stack_read_value() {
    let mut cxt = Context::new();

    cxt.push(nil);
    cxt.push(NumBits((45f32 as f64).to_bits()));
    cxt.push("Hello world!");

    assert_eq!(cxt.remove::<LuaValue>(1), LuaValue::Nil);
    assert_eq!(cxt.remove::<LuaValue>(1), LuaValue::Number(45f64.to_bits()));
    assert_eq!(
        cxt.remove::<LuaValue>(1),
        LuaValue::Str("Hello world!".to_string())
    );
}

#[test]
fn flu_stack_read_table() {
    let mut cxt = Context::new();

    let table = Table::new(&mut cxt);

    table.set(&mut cxt, "alongkeyinatable", nil);
    table.set(&mut cxt, 0, NumBits(5f64.to_bits()));
    table.set(&mut cxt, "akey", "flim-flam");

    assert_eq!(table.get::<Option<i32>, _>(&mut cxt, "alongkeyinatable"), None);
    assert_eq!(
        f64::from_bits(table.get::<NumBits, _>(&mut cxt, 0).0),
        5f64
    );
    assert_eq!(table.get::<String, _>(&mut cxt, "akey"), "flim-flam");
}

#[test]
fn flu_stack_read_ref() {
    let mut cxt = Context::new();

    cxt.push("Hello world!");

    {
        assert_eq!(cxt.size(), 1);

        let r = cxt.pop::<LuaRef>();

        assert_eq!(cxt.size(), 0);

        cxt.push(r);

        assert_eq!(cxt.pop::<String>(), "Hello world!");
    }
}
