use flu::nil;
use flu::Context;
use flu::Error;
use flu::FunctionStack;
use flu::LuaValue;
use flu::NumBits;
use flu::TKey;
use flu::UncheckedFunctionStack;
use flu::WeakState;
use flu::collections::Table;

#[test]
fn scenario_nested_chain() {
    // setting a nested nil-then-non-nil table chain from native code,
    // then reading the chain back, yields the stored integer
    let mut cxt = Context::new();

    let a = Table::new(&mut cxt);
    let b = Table::new(&mut cxt);
    let c = Table::new(&mut cxt);

    c.set(&mut cxt, "d", NumBits((0xdeadbeefu32 as f64).to_bits()));
    b.set(&mut cxt, "c", &c);
    a.set(&mut cxt, "b", &b);
    cxt.set("a", &a);

    // walk a.b.c.d through the raw accessors
    let ta = match cxt.handle.raw_get(0, &TKey::Str("a".to_string())) {
        LuaValue::Table(t) => t,
        other => panic!("expected a table, got {:?}", other),
    };
    let tb = match cxt.handle.raw_get(ta, &TKey::Str("b".to_string())) {
        LuaValue::Table(t) => t,
        other => panic!("expected a table, got {:?}", other),
    };
    let tc = match cxt.handle.raw_get(tb, &TKey::Str("c".to_string())) {
        LuaValue::Table(t) => t,
        other => panic!("expected a table, got {:?}", other),
    };
    match cxt.handle.raw_get(tc, &TKey::Str("d".to_string())) {
        LuaValue::Number(bits) => assert_eq!(f64::from_bits(bits) as i64, 0xdeadbeef),
        other => panic!("expected a number, got {:?}", other),
    }
    assert_eq!(cxt.size(), 0);
}

#[test]
fn scenario_three_values() {
    // pushing (nil, 45.0, "hello") and reading three generic values
    // from the bottom yields exactly those
    let mut cxt = Context::new();

    cxt.push((nil, NumBits(45f64.to_bits()), "hello"));

    assert_eq!(cxt.peek::<LuaValue>(1), LuaValue::Nil);
    assert_eq!(cxt.peek::<LuaValue>(2), LuaValue::Number(45f64.to_bits()));
    assert_eq!(cxt.peek::<LuaValue>(3), LuaValue::Str("hello".to_string()));
    assert_eq!(cxt.size(), 3);
}

#[test]
fn fast_path_matches_generic_path() {
    // a metatable-free table: the fast accessor and the generic entry
    // point produce the same value
    let mut cxt = Context::new();
    let t = Table::new(&mut cxt);
    t.set(&mut cxt, "x", 7);

    let tid = table_id(&mut cxt, &t);

    let generic = cxt.handle.get_field(tid, &TKey::Str("x".to_string())).unwrap();

    cxt.handle.push_value(LuaValue::Table(tid));
    let top = cxt.size();
    flu::flu_getlfield(&mut cxt.handle, top, "x").unwrap();
    let fast = cxt.pop::<LuaValue>();
    cxt.pop_discard(1);

    assert_eq!(fast, generic);
    assert_eq!(fast, LuaValue::Number(7f64.to_bits()));
}

#[test]
fn fast_path_falls_back_on_metatables() {
    // a metamethod-bearing value: the fast path must fall back to the
    // generic dispatch and see the parent's field
    let mut cxt = Context::new();
    let parent = Table::new(&mut cxt);
    parent.set(&mut cxt, "inherited", 11);
    let meta = Table::new(&mut cxt);
    let child = Table::new(&mut cxt);

    let ptid = table_id(&mut cxt, &parent);
    let mtid = table_id(&mut cxt, &meta);
    let ctid = table_id(&mut cxt, &child);

    cxt.handle.raw_set(
        mtid,
        TKey::Str("__index".to_string()),
        LuaValue::Table(ptid),
    );
    cxt.handle.set_meta(ctid, mtid);

    // generic dispatch resolves through the metatable
    let generic = cxt
        .handle
        .get_field(ctid, &TKey::Str("inherited".to_string()))
        .unwrap();
    assert_eq!(generic, LuaValue::Number(11f64.to_bits()));

    // the fast accessor gives the identical observable result
    cxt.handle.push_value(LuaValue::Table(ctid));
    let top = cxt.size();
    flu::flu_getlfield(&mut cxt.handle, top, "inherited").unwrap();
    let fast = cxt.pop::<LuaValue>();
    cxt.pop_discard(1);
    assert_eq!(fast, generic);
}

#[test]
fn view_access_dispatches_through_metatables() {
    // the composite view itself follows the generic path for string
    // keys: a metamethod-bearing child sees the parent's field
    let mut cxt = Context::new();
    let parent = Table::new(&mut cxt);
    parent.set(&mut cxt, "inherited", 11);
    let meta = Table::new(&mut cxt);
    let child = Table::new(&mut cxt);

    let ptid = table_id(&mut cxt, &parent);
    let mtid = table_id(&mut cxt, &meta);
    let ctid = table_id(&mut cxt, &child);

    cxt.handle.raw_set(
        mtid,
        TKey::Str("__index".to_string()),
        LuaValue::Table(ptid),
    );
    cxt.handle.set_meta(ctid, mtid);

    assert_eq!(child.get::<i32, _>(&mut cxt, "inherited"), 11);
    assert_eq!(cxt.size(), 0);
}

fn table_id(cxt: &mut Context, t: &Table) -> usize {
    let r = flu::LuaRef { key: t.ptr.key };
    cxt.push(r);
    match cxt.pop::<LuaValue>() {
        LuaValue::Table(tid) => tid,
        other => panic!("expected a table, got {:?}", other),
    }
}

#[test]
fn error_display_texts() {
    assert_eq!(
        Error::RuntimeError("boom".to_string()).display(),
        "Lua runtime error: boom"
    );
    assert_eq!(
        Error::SyntaxError("eof".to_string()).display(),
        "Lua syntax error: eof"
    );
    assert_eq!(
        Error::TypeError("number".to_string(), "string".to_string()).display(),
        "invalid type: expected 'number', got 'string'"
    );
    assert_eq!(Error::MemoryError.display(), "memory allocation error");
    assert_eq!(
        Error::ErrorHandler.display(),
        "error while running the error handler function"
    );
    assert_eq!(
        Error::ArgCount(1, 2, 3).display(),
        "wrong argument count (1 to 2 expected, got 3)"
    );
    assert_eq!(
        Error::ArgTypeError(2, "table".to_string()).display(),
        "type error #2 (table)"
    );
}

#[test]
fn pcall_classification() {
    let mut w = WeakState::new();

    assert!(flu::pcall_errck(&w, 0).is_ok());
    assert_eq!(flu::pcall_errck(&w, flu::LUA_ERRMEM), Err(Error::MemoryError));
    assert_eq!(flu::pcall_errck(&w, flu::LUA_ERRERR), Err(Error::ErrorHandler));

    // a raised message is read back verbatim
    w.L.push_value(LuaValue::Str("ouch".to_string()));
    assert_eq!(
        flu::pcall_errck(&w, flu::LUA_ERRRUN),
        Err(Error::RuntimeError("ouch".to_string()))
    );

    // a loader message classifies as a syntax error, verbatim
    let mut w2 = WeakState::new();
    w2.L.push_value(LuaValue::Str("unexpected symbol".to_string()));
    assert_eq!(
        flu::pcall_errck(&w2, flu::LUA_ERRSYNTAX),
        Err(Error::SyntaxError("unexpected symbol".to_string()))
    );
}

#[test]
fn trampoline_error_crosses_verbatim() {
    let w = WeakState::new();
    let mut fs = FunctionStack { state: w };

    let e = Error::RuntimeError("panic in callback".to_string());
    let raised = flu::trampoline_result(&mut fs, Err(e.clone())).unwrap_err();
    assert_eq!(raised, e.display());
    // the raised text sits on the frame, ready for the foreign raise
    assert_eq!(
        fs.state.L.stack[0],
        flu::LuaValue::Str(e.display())
    );

    // simulate the raise landing on the stack and being classified
    let mut w2 = WeakState::new();
    w2.L.push_value(LuaValue::Str(raised.clone()));
    match flu::pcall_errck(&w2, flu::LUA_ERRRUN) {
        Err(Error::RuntimeError(m)) => assert_eq!(m, e.display()),
        other => panic!("expected a runtime error, got {:?}", other),
    }
}

#[test]
fn frame_argument_checks() {
    let mut w = WeakState::new();
    w.L.push_value(LuaValue::Number(3f64.to_bits()));
    w.L.push_value(LuaValue::Str("abc".to_string()));
    let fs = FunctionStack { state: w };

    assert_eq!(fs.check_size(1..2), Ok(2));
    assert_eq!(
        fs.check_size(3..4),
        Err(Error::ArgCount(3, 4, 2))
    );

    assert_eq!(fs.arg::<i32>(1), Ok(3));
    assert_eq!(fs.arg::<String>(2), Ok("abc".to_string()));
    assert_eq!(
        fs.arg::<i32>(2),
        Err(Error::ArgTypeError(2, "string".to_string()))
    );

    let us = UncheckedFunctionStack { state: fs.state };
    assert_eq!(us.arg::<i32>(1), 3);
    assert_eq!(
        us.check_size(3..4),
        Err("wrong argument count (3 to 4 expected, got 2)".to_string())
    );
}

#[test]
fn stack_dump_renders_kinds() {
    let mut cxt = Context::new();
    cxt.push((nil, true, "x"));
    assert_eq!(cxt.dump(), "[ (3) 1: nil 2: bool 3: string ]");
}
