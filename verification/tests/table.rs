use flu::LuaValue;
use flu::State;
use flu::TKey;
use flu::Table;
use flu::TableBuilder;
use flu::TableContext;
use flu::WeakState;
use flu::ToLua;

struct Secret;

impl TableBuilder for Secret {
    fn build(&self, st: &mut WeakState, cxt: TableContext) {
        cxt.set(st, "secret", 7i32).unwrap();
    }
}

struct Pair;

impl TableBuilder for Pair {
    fn build(&self, st: &mut WeakState, cxt: TableContext) {
        cxt.set(st, "x", 1i32).unwrap();
        cxt.set(st, "y", 2i32).unwrap();
        assert_eq!(cxt.get::<i32>(st, "x"), Ok(1));
    }
}

struct Nested;

impl TableBuilder for Nested {
    fn build(&self, st: &mut WeakState, cxt: TableContext) {
        cxt.set(st, "inner", Table::new(Secret)).unwrap();
    }
}

fn field(w: &WeakState, tid: usize, k: &str) -> LuaValue {
    w.L.raw_get(tid, &TKey::Str(k.to_string()))
}

#[test]
fn table_init_builds_fields() {
    let mut s = State::new();
    s.state.set("t", Table::new(Pair));
    assert_eq!(s.state.L.stack.len(), 0);

    let tid = match field(&s.state, 0, "t") {
        LuaValue::Table(t) => t,
        other => panic!("expected a table, got {:?}", other),
    };
    assert_eq!(field(&s.state, tid, "x"), LuaValue::Number(1f64.to_bits()));
    assert_eq!(field(&s.state, tid, "y"), LuaValue::Number(2f64.to_bits()));
}

#[test]
fn table_init_nests() {
    let mut s = State::new();
    s.state.set("outer", Table::new(Nested));

    let outer = match field(&s.state, 0, "outer") {
        LuaValue::Table(t) => t,
        other => panic!("expected a table, got {:?}", other),
    };
    let inner = match field(&s.state, outer, "inner") {
        LuaValue::Table(t) => t,
        other => panic!("expected a table, got {:?}", other),
    };
    assert_eq!(
        field(&s.state, inner, "secret"),
        LuaValue::Number(7f64.to_bits())
    );
}

#[test]
fn table_reference_survives_the_stack() {
    let mut s = State::new();
    let t = Table::reference(&mut s, Secret);
    assert_eq!(s.state.L.stack.len(), 0);

    // the anchored table stays reachable through its registry key
    let tbl = t;
    tbl.write(&mut s.state);
    let tid = match s.state.L.stack[0].clone() {
        LuaValue::Table(t) => t,
        other => panic!("expected a table, got {:?}", other),
    };
    assert_eq!(
        field(&s.state, tid, "secret"),
        LuaValue::Number(7f64.to_bits())
    );
}

struct WithMeta;

impl TableBuilder for WithMeta {
    fn build(&self, st: &mut WeakState, cxt: TableContext) {
        cxt.set(st, "own", 1i32).unwrap();
        cxt.set_meta(st, Table::new(Pair));
        let marker = cxt.as_table();
        assert!(marker.idx >= 1);
    }
}

struct ReadInner;

impl flu::TableArgFn<i32> for ReadInner {
    fn call_with(&self, st: &mut WeakState, cxt: TableContext) -> Result<i32, flu::Error> {
        cxt.get::<i32>(st, "inner")
    }
}

#[test]
fn with_arg_scopes_a_table_argument() {
    let mut s = State::new();
    s.state.set("t", Table::new(Inner));
    // hand the global to a frame as its only argument
    let tid = match field(&s.state, 0, "t") {
        LuaValue::Table(t) => t,
        other => panic!("expected a table, got {:?}", other),
    };
    s.state.L.push_value(LuaValue::Table(tid));
    let mut fs = flu::FunctionStack { state: s.state };

    assert_eq!(fs.with_arg(1, ReadInner), Ok(5));
    assert_eq!(
        fs.with_arg(2, ReadInner),
        Err(flu::Error::ArgTypeError(2, "none".to_string()))
    );
}

struct Inner;

impl TableBuilder for Inner {
    fn build(&self, st: &mut WeakState, cxt: TableContext) {
        cxt.set(st, "inner", 5i32).unwrap();
    }
}

#[test]
fn table_init_installs_metatables() {
    let mut s = State::new();
    s.state.set("m", Table::new(WithMeta));

    let tid = match field(&s.state, 0, "m") {
        LuaValue::Table(t) => t,
        other => panic!("expected a table, got {:?}", other),
    };
    assert!(s.state.L.tables[tid].meta.is_some());
}
