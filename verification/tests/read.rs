use flu::nil;
use flu::Context;
use flu::NumBits;

#[test]
fn read_int() {
    let mut cxt = Context::new();

    cxt.push(42i8);
    assert_eq!(cxt.pop::<i8>(), 42i8);

    cxt.push(16i16);
    assert_eq!(cxt.pop::<i16>(), 16i16);

    cxt.push(101i32);
    assert_eq!(cxt.pop::<i32>(), 101i32);
}

#[test]
fn read_num() {
    let mut cxt = Context::new();

    cxt.push(NumBits(42f64.to_bits()));
    assert_eq!(f64::from_bits(cxt.pop::<NumBits>().0), 42f64);

    cxt.push(NumBits((16f32 as f64).to_bits()));
    assert_eq!(f64::from_bits(cxt.pop::<NumBits>().0) as f32, 16f32);

    cxt.push(NumBits((101f32 as f64).to_bits()));
    assert_eq!(f64::from_bits(cxt.pop::<NumBits>().0), 101f64);

    cxt.push(NumBits(99f64.to_bits()));
    assert_eq!(f64::from_bits(cxt.pop::<NumBits>().0) as f32, 99f32);
}

#[test]
fn read_string() {
    let mut cxt = Context::new();

    cxt.push(("Hello world!", "Hello rust!".to_string()));

    assert_eq!(cxt.pop::<String>(), "Hello rust!");
    assert_eq!(cxt.pop::<String>(), "Hello world!");
}

#[test]
fn read_optional() {
    let mut cxt = Context::new();

    cxt.push(("Hello world!", nil));

    assert_eq!(cxt.pop::<Option<String>>(), None);
    assert_eq!(cxt.pop::<Option<String>>(), Some("Hello world!".to_string()));
}

#[test]
fn read_flu_stack_read_int() {
    let mut cxt = Context::new();

    cxt.push(42i8);
    assert_eq!(cxt.pop::<i8>(), 42i8);

    cxt.push(16i16);
    assert_eq!(cxt.pop::<i16>(), 16i16);

    cxt.push(101i32);
    assert_eq!(cxt.pop::<i32>(), 101i32);
}

#[test]
fn read_flu_stack_read_num() {
    let mut cxt = Context::new();

    cxt.push(NumBits(42f64.to_bits()));
    assert_eq!(f64::from_bits(cxt.pop::<NumBits>().0), 42f64);

    cxt.push(NumBits((16f32 as f64).to_bits()));
    assert_eq!(f64::from_bits(cxt.pop::<NumBits>().0) as f32, 16f32);

    cxt.push(NumBits((101f32 as f64).to_bits()));
    assert_eq!(f64::from_bits(cxt.pop::<NumBits>().0), 101f64);

    cxt.push(NumBits(99f64.to_bits()));
    assert_eq!(f64::from_bits(cxt.pop::<NumBits>().0) as f32, 99f32);
}

#[test]
fn read_flu_stack_read_string() {
    let mut cxt = Context::new();

    cxt.push(("Hello world!", "Hello rust!".to_string()));

    assert_eq!(cxt.pop::<String>(), "Hello rust!");
    assert_eq!(cxt.pop::<String>(), "Hello world!");
}

#[test]
fn read_flu_stack_read_optional() {
    let mut cxt = Context::new();

    cxt.push(("Hello world!", nil));

    assert_eq!(cxt.pop::<Option<String>>(), None);
    assert_eq!(cxt.pop::<Option<String>>(), Some("Hello world!".to_string()));
}
