//! The tagged union of foreign values and table keys, as the model
//! represents them.

use vstd::prelude::*;
use vstd::string::StringExecFns;

verus! {

/// A native representation of one foreign stack slot.
///
/// Numbers carry the IEEE-754 bit pattern of the runtime's double-width
/// number type, so that the model never performs floating-point
/// arithmetic; integer marshalling encodes and decodes the pattern
/// exactly.  `Table` carries an index into the model's table arena and
/// `Function` the identifier under which the embedder registered a native
/// closure.  `Missing` stands for the runtime's "none": the result of
/// addressing a slot outside the current stack.
#[derive(Debug, Clone, PartialEq)]
pub enum LuaValue {
    Nil,
    Bool(bool),
    Number(u64),
    Str(String),
    Table(usize),
    Function(u64),
    Missing,
}

/// A number slot's raw encoding: the bit pattern of the runtime's
/// double-width number, marshalled as-is.  The embedder converts
/// between native floating point and this pattern outside the bridge.
#[derive(Debug, Clone, Copy, PartialEq, Eq)]
pub struct NumBits(pub u64);

/// A table key: the runtime interns integer and string keys; the bridge
/// never produces any other key kind.
#[derive(Debug, Clone, PartialEq)]
pub enum TKey {
    Int(i64),
    Str(String),
}

/// The mathematical identity of a value: what a slot holds with every
/// `String` replaced by its character content.  Contracts about pushes
/// speak in these terms, so that a freshly built string and its source
/// text compare equal.
pub ghost enum VV {
    VNil,
    VBool(bool),
    VNum(u64),
    VStr(Seq<char>),
    VTbl(int),
    VFn(u64),
    VNone,
}

/// The identity of one value.
pub open spec fn vv(v: LuaValue) -> VV {
    match v {
        LuaValue::Nil => VV::VNil,
        LuaValue::Bool(b) => VV::VBool(b),
        LuaValue::Number(n) => VV::VNum(n),
        LuaValue::Str(s) => VV::VStr(s@),
        LuaValue::Table(t) => VV::VTbl(t as int),
        LuaValue::Function(f) => VV::VFn(f),
        LuaValue::Missing => VV::VNone,
    }
}

/// The identities of a whole stack.
pub open spec fn stack_vv(stack: Seq<LuaValue>) -> Seq<VV> {
    stack.map(|i: int, v: LuaValue| vv(v))
}

/// The mathematical identity of a table key: an integer, or a string
/// key's character content.
pub ghost enum KeyView {
    KInt(int),
    KStr(Seq<char>),
}

/// Integer keys the runtime can hold exactly in its double-width
/// number representation.
pub open spec fn key_in_range(k: TKey) -> bool {
    match k {
        TKey::Int(n) => -0x20000000000000 < n < 0x20000000000000,
        TKey::Str(_) => true,
    }
}

/// The identity under which a key addresses table entries.
pub open spec fn key_view(k: TKey) -> KeyView {
    match k {
        TKey::Int(n) => KeyView::KInt(n as int),
        TKey::Str(s) => KeyView::KStr(s@),
    }
}

/// Executable key comparison: two keys address the same entry exactly
/// when their views agree.
pub fn key_eq(a: &TKey, b: &TKey) -> (r: bool)
    ensures
        r == (key_view(*a) == key_view(*b)),
{
    match (a, b) {
        (TKey::Int(x), TKey::Int(y)) => *x == *y,
        (TKey::Str(x), TKey::Str(y)) => {
            let r = x.eq(y);
            proof {
                if x@ == y@ {
                    assert(key_view(*a) == key_view(*b));
                }
            }
            r
        },
        (TKey::Int(_), TKey::Str(_)) => false,
        (TKey::Str(_), TKey::Int(_)) => false,
    }
}

/// The numeric tag the runtime reports for a value's kind: the model's
/// copy of the `LUA_T*` constants.
pub open spec fn kind_tag(v: LuaValue) -> int {
    match v {
        LuaValue::Missing => -1,
        LuaValue::Nil => 0,
        LuaValue::Bool(_) => 1,
        LuaValue::Number(_) => 3,
        LuaValue::Str(_) => 4,
        LuaValue::Table(_) => 5,
        LuaValue::Function(_) => 6,
    }
}

/// The kind name the runtime's diagnostics use for a value.
pub open spec fn kind_name(v: LuaValue) -> Seq<char> {
    match v {
        LuaValue::Missing => "none"@,
        LuaValue::Nil => "nil"@,
        LuaValue::Bool(_) => "bool"@,
        LuaValue::Number(_) => "number"@,
        LuaValue::Str(_) => "string"@,
        LuaValue::Table(_) => "table"@,
        LuaValue::Function(_) => "function"@,
    }
}

impl LuaValue {
    /// The runtime's numeric type tag for this value.
    pub fn type_tag(&self) -> (t: i32)
        ensures
            t == kind_tag(*self),
    {
        match self {
            LuaValue::Missing => -1,
            LuaValue::Nil => 0,
            LuaValue::Bool(_) => 1,
            LuaValue::Number(_) => 3,
            LuaValue::Str(_) => 4,
            LuaValue::Table(_) => 5,
            LuaValue::Function(_) => 6,
        }
    }

    /// The runtime's kind name for this value.
    pub fn typename(&self) -> (s: String)
        ensures
            s@ == kind_name(*self),
    {
        let s = match self {
            LuaValue::Missing => "none",
            LuaValue::Nil => "nil",
            LuaValue::Bool(_) => "bool",
            LuaValue::Number(_) => "number",
            LuaValue::Str(_) => "string",
            LuaValue::Table(_) => "table",
            LuaValue::Function(_) => "function",
        };
        String::from_str(s)
    }

    /// Whether this value is `Nil`.
    pub fn is_nil(&self) -> (r: bool)
        ensures
            r == (*self is Nil),
    {
        match self {
            LuaValue::Nil => true,
            _ => false,
        }
    }
}

} // verus!
