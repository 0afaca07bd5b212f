use flu::Context;
use flu::Error;
use flu::Function;
use flu::LuaDispatch;
use flu::NativeRef;
use flu::lua_State;

/// A dispatcher standing in for the engine's call machinery: it runs
/// the registered native closures by identifier.
struct Natives;

impl LuaDispatch for Natives {
    fn dispatch(&self, id: u64, st: lua_State) -> (lua_State, Result<i32, Error>) {
        let mut cxt = Context::from_state_weak(st);
        match id {
            // doubles its first argument
            0 => {
                let a = cxt.pop::<i32>();
                cxt.push(a + a);
                (cxt.handle, Ok(1))
            },
            // always fails with a native error
            1 => (
                cxt.handle,
                Err(Error::RuntimeError("it broke".to_string())),
            ),
            // observes three arguments in order and returns their sum
            2 => {
                let a = cxt.peek::<i32>(1);
                let b = cxt.peek::<i32>(2);
                let c = cxt.peek::<i32>(3);
                assert_eq!(cxt.size(), 3);
                cxt.push(a + 10 * b + 100 * c);
                (cxt.handle, Ok(1))
            },
            _ => (cxt.handle, Ok(0)),
        }
    }
}

#[test]
fn rust_fn() {
    let mut cxt = Context::new();

    cxt.set("foo", NativeRef { id: 0 });
    let func = cxt.get::<Function>("foo");

    assert_eq!(func.call::<i32, i32, _>(&mut cxt, &Natives, 10).unwrap(), 20);
}

#[test]
fn trampoline_observes_args_in_order() {
    let mut cxt = Context::new();

    cxt.set("observe", NativeRef { id: 2 });
    let func = cxt.get::<Function>("observe");

    let r = func
        .call::<(i32, i32, i32), i32, _>(&mut cxt, &Natives, (1, 2, 3))
        .unwrap();
    assert_eq!(r, 321);
    assert_eq!(cxt.size(), 0);
}

#[test]
fn native_error_text_is_preserved() {
    let mut cxt = Context::new();

    cxt.set("boom", NativeRef { id: 1 });
    let func = cxt.get::<Function>("boom");

    let err = func.call::<i32, i32, _>(&mut cxt, &Natives, 1).unwrap_err();
    assert_eq!(err, "Lua runtime error: it broke");
    assert_eq!(cxt.size(), 0);
}

#[test]
fn calling_a_non_function_fails() {
    let mut cxt = Context::new();

    cxt.push("not callable");
    let f = cxt.pop::<flu::LuaRef>();
    let func = Function { ptr: f };

    let err = func.call::<i32, i32, _>(&mut cxt, &Natives, 1).unwrap_err();
    assert_eq!(err, "attempt to call a non-function value");
    assert_eq!(cxt.size(), 0);
}

#[test]
fn call_completion_adjusts_results() {
    // the completion pads a short frame with nil and trims a long one,
    // fixing the declared arity exactly
    let mut cxt = Context::new();
    let frame: Vec<flu::LuaValue> = vec![
        flu::LuaValue::Number(1f64.to_bits()),
        flu::LuaValue::Number(2f64.to_bits()),
        flu::LuaValue::Number(3f64.to_bits()),
    ];
    // the callee reports two results: the topmost two, first kept
    let r = Function::call_finish::<i32>(&mut cxt, frame.clone(), Ok(2)).unwrap();
    assert_eq!(r, 2);
    assert_eq!(cxt.size(), 0);

    // the callee reports none: the declared slot is nil-padded
    let r = Function::call_finish::<Option<i32>>(&mut cxt, frame.clone(), Ok(0)).unwrap();
    assert_eq!(r, None);
    assert_eq!(cxt.size(), 0);

    // a raised error's display text crosses verbatim
    let e = Error::RuntimeError("raise".to_string());
    let m = Function::call_finish::<i32>(&mut cxt, frame, Err(e.clone())).unwrap_err();
    assert_eq!(m, e.display());
    assert_eq!(cxt.size(), 0);
}
