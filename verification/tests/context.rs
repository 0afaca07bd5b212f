use flu::Context;
use flu::NumBits;

#[test]
fn get_globals() {
    let mut cxt = Context::new();

    cxt.set("foo", NumBits((1.32f32 as f64).to_bits()));
    cxt.set("bar", "quux");

    assert_eq!(cxt.size(), 0);

    assert_eq!(f64::from_bits(cxt.get::<NumBits>("foo").0) as f32, 1.32f32);
    assert_eq!(cxt.get::<String>("bar"), "quux");

    assert_eq!(cxt.size(), 0);
}

#[test]
fn stack_size() {
    let mut cxt = Context::new();

    cxt.push((true, false, true, false));

    assert_eq!(cxt.size(), 4);
}
