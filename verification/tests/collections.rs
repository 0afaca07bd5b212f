use flu::nil;
use flu::Context;
use flu::LuaValue;
use flu::NumBits;
use flu::collections::Array;
use flu::collections::Table;

#[test]
fn array_len() {
    let mut cxt = Context::new();

    let table = Array::new(&mut cxt);

    table.set(&mut cxt, 0, 100);
    table.set(&mut cxt, 1, 200);
    table.set(&mut cxt, 2, 300);

    assert_eq!(table.len(&cxt), 3);
}

#[test]
fn array_access() {
    let mut cxt = Context::new();

    let table = Array::new(&mut cxt);

    table.set(&mut cxt, 0, nil);
    table.set(&mut cxt, 1, NumBits(5f64.to_bits()));
    table.set(&mut cxt, 2, "flim-flam");

    assert_eq!(table.get::<Option<i32>>(&mut cxt, 0), None);
    assert_eq!(f64::from_bits(table.get::<NumBits>(&mut cxt, 1).0), 5f64);
    assert_eq!(table.get::<String>(&mut cxt, 2), "flim-flam");
}

#[test]
fn array_iter() {
    let mut cxt = Context::new();

    let table = Array::new(&mut cxt);

    table.set(&mut cxt, 0, 5);
    table.set(&mut cxt, 1, 10);
    table.set(&mut cxt, 2, 15);

    let mut it = table.iter::<i32>();
    let mut acc = 0;
    while let Some(item) = it.next(&mut cxt) {
        acc += item;
    }
    assert_eq!(acc, 30);
    assert_eq!(cxt.size(), 0);
}

#[test]
fn array_from_vec() {
    let mut cxt = Context::new();

    let vec = vec![2, 4, 6, 8];
    let table = Array::from_vec(&mut cxt, &vec);

    assert_eq!(cxt.size(), 0);
    assert_eq!(table.len(&cxt), 4);

    assert_eq!(table.get::<i32>(&mut cxt, 0), 2);
    assert_eq!(table.get::<i32>(&mut cxt, 1), 4);
    assert_eq!(table.get::<i32>(&mut cxt, 2), 6);
    assert_eq!(table.get::<i32>(&mut cxt, 3), 8);
}

#[test]
fn table_len() {
    let mut cxt = Context::new();

    let table = Table::new(&mut cxt);

    table.set(&mut cxt, 1, 100);
    table.set(&mut cxt, 2, 200);
    table.set(&mut cxt, 3, 300);

    assert_eq!(table.len(&cxt), 3);
}

#[test]
fn table_access() {
    let mut cxt = Context::new();

    let table = Table::new(&mut cxt);

    table.set(&mut cxt, "alongkeyinatable", nil);
    table.set(&mut cxt, 1, NumBits(5f64.to_bits()));
    table.set(&mut cxt, "akey", "flim-flam");

    assert_eq!(table.get::<Option<i32>, _>(&mut cxt, "alongkeyinatable"), None);
    assert_eq!(f64::from_bits(table.get::<NumBits, _>(&mut cxt, 1).0), 5f64);
    assert_eq!(table.get::<String, _>(&mut cxt, "akey"), "flim-flam");
}

#[test]
fn table_iter() {
    let mut cxt = Context::new();

    let table = Table::new(&mut cxt);

    table.set(&mut cxt, 1, 5);
    table.set(&mut cxt, 2, 15);
    table.set(&mut cxt, "woop", false);

    let mut it = table.iter::<LuaValue>();
    let mut got: Vec<(LuaValue, LuaValue)> = Vec::new();
    while let Some(pair) = it.next(&mut cxt) {
        got.push(pair);
    }
    assert_eq!(
        got,
        vec![
            (
                LuaValue::Number(1f64.to_bits()),
                LuaValue::Number(5f64.to_bits())
            ),
            (
                LuaValue::Number(2f64.to_bits()),
                LuaValue::Number(15f64.to_bits())
            ),
            (
                LuaValue::Str("woop".to_string()),
                LuaValue::Bool(false)
            ),
        ]
    );
    assert_eq!(cxt.size(), 0);
}

#[test]
fn table_from_vec() {
    let mut cxt = Context::new();

    let vec = vec![2, 4, 6, 8];
    let table = Table::from_vec(&mut cxt, &vec);

    assert_eq!(cxt.size(), 0);
    assert_eq!(table.len(&cxt), 4);

    assert_eq!(table.get::<i32, _>(&mut cxt, 1), 2);
    assert_eq!(table.get::<i32, _>(&mut cxt, 2), 4);
    assert_eq!(table.get::<i32, _>(&mut cxt, 3), 6);
    assert_eq!(table.get::<i32, _>(&mut cxt, 4), 8);
}

#[test]
fn table_view_reads_off_the_stack() {
    let mut cxt = Context::new();

    let tid = cxt.handle.new_table();
    assert_eq!(cxt.size(), 1);

    // anchoring the view consumes the slot
    let view = cxt.pop::<Table>();
    assert_eq!(cxt.size(), 0);

    view.set(&mut cxt, "k", 9);
    assert_eq!(view.get::<i32, _>(&mut cxt, "k"), 9);
    assert_eq!(cxt.handle.tables.len(), tid + 1);
}


#[test]
fn from_map() {
    let mut cxt = Context::new();

    let map = vec![("foo".to_string(), 5), ("bar".to_string(), 10)];
    let table = Table::from_map(&mut cxt, &map);

    assert_eq!(cxt.size(), 0);

    assert_eq!(table.get::<i32, _>(&mut cxt, "foo"), 5);
    assert_eq!(table.get::<i32, _>(&mut cxt, "bar"), 10);
}

#[test]
fn from_map_later_pairs_override() {
    let mut cxt = Context::new();

    let map = vec![
        ("k".to_string(), 1),
        ("other".to_string(), 2),
        ("k".to_string(), 3),
    ];
    let table = Table::from_map(&mut cxt, &map);

    assert_eq!(table.get::<i32, _>(&mut cxt, "k"), 3);
    assert_eq!(table.get::<i32, _>(&mut cxt, "other"), 2);
}
