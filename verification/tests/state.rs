use flu::Error;
use flu::LuaValue;
use flu::Ref;
use flu::State;
use flu::TKey;
use flu::WeakState;
use flu::FromLua;
use flu::ToLua;

#[test]
fn typed_globals() {
    let mut w = WeakState::new();

    w.set("answer", 42i32);
    w.set("greeting", "hi there");
    w.set("flag", true);

    assert_eq!(w.get::<i32>("answer"), Ok(42));
    assert_eq!(w.get::<String>("greeting"), Ok("hi there".to_string()));
    assert_eq!(w.get::<bool>("flag"), Ok(true));
    assert_eq!(w.L.stack.len(), 0);
}

#[test]
fn typed_read_reports_kinds() {
    let mut w = WeakState::new();

    w.set("n", 5i32);
    assert_eq!(
        w.get::<String>("n"),
        Err(Error::TypeError("string".to_string(), "number".to_string()))
    );
    // error injection leaves the stack balanced
    assert_eq!(w.L.stack.len(), 0);

    assert_eq!(
        w.get::<bool>("n"),
        Err(Error::TypeError("bool".to_string(), "number".to_string()))
    );
    assert_eq!(
        w.get::<i32>("absent"),
        Err(Error::TypeError("number".to_string(), "nil".to_string()))
    );
}

#[test]
fn typed_ref_rejects_nil() {
    let mut w = WeakState::new();
    w.L.push_value(LuaValue::Nil);
    match <Ref as FromLua>::read(&mut w, -1) {
        Err(Error::TypeError(a, b)) => {
            assert_eq!(a, "function");
            assert_eq!(b, "nil");
        },
        other => panic!("expected a type error, got {:?}", other),
    }
    // a rejected anchor never disturbs the slot
    assert_eq!(w.L.stack.len(), 1);
}

#[test]
fn typed_ref_anchors_and_releases() {
    let mut w = WeakState::new();
    w.L.push_value(LuaValue::Str("kept alive".to_string()));
    let r = <Ref as FromLua>::read(&mut w, -1).unwrap();
    // the anchored slot is not consumed; the caller discards it
    assert_eq!(w.L.stack.len(), 1);
    w.L.pop_n(1);

    r.write(&mut w);
    assert_eq!(
        w.L.stack[0],
        LuaValue::Str("kept alive".to_string())
    );
    let key = r.key;
    r.release(&mut w);
    assert_eq!(w.L.free[w.L.free.len() - 1], key);
}

#[test]
fn typed_integer_widths() {
    let mut w = WeakState::new();
    w.set("a", 7i8);
    w.set("b", 300i16);
    w.set("c", 70000u32);
    w.set("d", 200u8);
    w.set("e", 60000u16);
    assert_eq!(w.get::<i8>("a"), Ok(7));
    assert_eq!(w.get::<i16>("b"), Ok(300));
    assert_eq!(w.get::<u32>("c"), Ok(70000));
    assert_eq!(w.get::<u8>("d"), Ok(200));
    assert_eq!(w.get::<u16>("e"), Ok(60000));
}

#[test]
fn state_owns_a_fresh_instance() {
    let s = State::new();
    assert_eq!(s.state.L.stack.len(), 0);
    assert_eq!(s.state.L.tables.len(), 1);
}

#[test]
fn raw_update_semantics() {
    // assigning nil removes an entry; a border reflects it
    let mut w = WeakState::new();
    w.set("k", 1i32);
    assert_eq!(w.get::<i32>("k"), Ok(1));

    let nil_val = LuaValue::Nil;
    w.L.raw_set(0, TKey::Str("k".to_string()), nil_val);
    assert_eq!(
        w.get::<i32>("k"),
        Err(Error::TypeError("number".to_string(), "nil".to_string()))
    );
}
