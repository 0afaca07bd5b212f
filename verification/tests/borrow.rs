use flu::Context;
use flu::LuaRef;

#[test]
fn read_ref() {
    let mut cxt = Context::new();

    cxt.push("Hello world!");

    {
        assert_eq!(cxt.size(), 1);

        let r = cxt.pop::<LuaRef>();

        assert_eq!(cxt.size(), 0);

        cxt.push(r);

        assert_eq!(cxt.pop::<String>(), "Hello world!");
    }
}

#[test]
fn ref_release_returns_key() {
    let mut cxt = Context::new();

    cxt.push("first");
    let a = cxt.pop::<LuaRef>();
    let key_a = a.key;
    a.release(&mut cxt);

    // the most recently released key is reused first
    cxt.push("second");
    let b = cxt.pop::<LuaRef>();
    assert_eq!(b.key, key_a);
    b.release(&mut cxt);
}

#[test]
fn ref_lifecycle_any_order() {
    let mut cxt = Context::new();

    cxt.push("one");
    let a = cxt.pop::<LuaRef>();
    cxt.push("two");
    let b = cxt.pop::<LuaRef>();
    let (ka, kb) = (a.key, b.key);
    assert_ne!(ka, kb);

    // drop in allocation order; both keys become reusable
    a.release(&mut cxt);
    b.release(&mut cxt);

    cxt.push("three");
    let c = cxt.pop::<LuaRef>();
    cxt.push("four");
    let d = cxt.pop::<LuaRef>();
    let mut got = vec![c.key, d.key];
    got.sort();
    let mut want = vec![ka, kb];
    want.sort();
    assert_eq!(got, want);
    c.release(&mut cxt);
    d.release(&mut cxt);
}

#[test]
fn sentinel_ref_pushes_nil() {
    let mut cxt = Context::new();

    cxt.push(flu::nil);
    let r = cxt.pop::<LuaRef>();
    assert_eq!(r.key, -1);

    cxt.push(r);
    assert_eq!(cxt.pop::<Option<i32>>(), None);
}
