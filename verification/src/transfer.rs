//! The value transfer protocol for [`WeakState`]: reads that report
//! typed errors, writes, and the footprint capability.

use vstd::prelude::*;
use vstd::string::StringExecFns;
use crate::errors::Error;
use crate::state::WeakState;
use crate::state::Ref;
use crate::num::int_bits;
use crate::num::num_trunc_of_bits;
use crate::num::sat;
use crate::rt::MAXCSTACK;
use crate::rt::RegSlot;
use crate::rt::reg_val;
use crate::rt::resolve;
use crate::rt::slot;
use crate::rt::spec_anchor;
use crate::value::LuaValue;
use crate::value::VV;
use crate::value::vv;
use crate::value::stack_vv;
use crate::value::kind_name;

verus! {

/// The stack footprint capability of the transfer protocol.
pub trait LuaSize {
    /// The footprint as the specification sees it.
    spec fn size_spec() -> int;

    /// The footprint, exactly [`LuaSize::size_spec`].
    fn size() -> (r: i32)
        ensures
            r == Self::size_spec(),
            0 <= Self::size_spec() <= 16,
    ;
}

/// The write capability: pushing a value's foreign form.  Unlike the
/// positional protocol, a write may create tables (a table
/// initializer does), so the contract allows the arena to grow while
/// keeping every pre-existing table intact.
pub trait ToLua: Sized {
    /// The identities of the appended slots.
    spec fn pushed(&self, s: crate::rt::lua_State) -> Seq<VV>;

    /// What the write needs of the state.
    spec fn push_req(&self, s: crate::rt::lua_State) -> bool;

    /// Appends the value's foreign form; slots below are untouched,
    /// the registry is untouched, and existing tables are unchanged.
    fn write(&self, state: &mut WeakState)
        requires
            old(state).L.wf(),
            self.push_req(old(state).L),
        ensures
            final(state).L.wf(),
            stack_vv(final(state).L.stack@) == stack_vv(old(state).L.stack@) + self.pushed(
                old(state).L,
            ),
            final(state).L.stack@.subrange(0, old(state).L.stack@.len() as int) == old(
                state,
            ).L.stack@,
            final(state).L.reg@ == old(state).L.reg@,
            final(state).L.free@ == old(state).L.free@,
            final(state).L.tables@.len() >= old(state).L.tables@.len(),
            forall|i: int|
                0 <= i < old(state).L.tables@.len() ==> final(state).L.tables@[i] == old(
                    state,
                ).L.tables@[i],
    ;
}

/// The read capability: constructing a native value from a stack slot
/// or failing with a typed error naming the expected and actual kinds.
pub trait FromLua: Sized {
    /// What the read needs of the state (machine limits only).
    spec fn from_req(stack: Seq<LuaValue>, reg_len: int, idx: int) -> bool;

    /// Whether the slot holds the expected foreign kind.
    spec fn from_ok(stack: Seq<LuaValue>, idx: int) -> bool;

    /// The value produced on success.
    spec fn from_val(stack: Seq<LuaValue>, reg: Seq<RegSlot>, free: Seq<i32>, idx: int) -> Self;

    /// The stack after a successful read.
    spec fn from_stack(stack: Seq<LuaValue>, idx: int) -> Seq<LuaValue>;

    /// The registry and free-list after a successful read.
    spec fn from_reg(stack: Seq<LuaValue>, reg: Seq<RegSlot>, free: Seq<i32>, idx: int) -> (
        Seq<RegSlot>,
        Seq<i32>,
    );

    /// The kind name a mismatch reports as expected.
    spec fn expected() -> Seq<char>;

    /// Reads the value at `idx`, or reports the expected and actual
    /// kinds.  A failed read never disturbs the state: error
    /// injection must not discard what was already marshalled.
    fn read(state: &mut WeakState, idx: i32) -> (r: Result<Self, Error>)
        requires
            old(state).L.wf(),
            Self::from_req(old(state).L.stack@, old(state).L.reg@.len() as int, idx as int),
        ensures
            final(state).L.wf(),
            final(state).L.tables@ == old(state).L.tables@,
            if Self::from_ok(old(state).L.stack@, idx as int) {
                ({
                    &&& r matches Ok(v) && v == Self::from_val(
                        old(state).L.stack@,
                        old(state).L.reg@,
                        old(state).L.free@,
                        idx as int,
                    )
                    &&& final(state).L.stack@ == Self::from_stack(
                        old(state).L.stack@,
                        idx as int,
                    )
                    &&& (final(state).L.reg@, final(state).L.free@) == Self::from_reg(
                        old(state).L.stack@,
                        old(state).L.reg@,
                        old(state).L.free@,
                        idx as int,
                    )
                })
            } else {
                ({
                    &&& r matches Err(e) && e matches Error::TypeError(t, g) && t@
                        == Self::expected() && g@ == kind_name(
                        slot(old(state).L.stack@, idx as int),
                    )
                    &&& *final(state) == *old(state)
                })
            },
    ;
}

impl LuaSize for () {
    open spec fn size_spec() -> int {
        0
    }

    fn size() -> i32 {
        0
    }
}

impl FromLua for () {
    open spec fn from_req(stack: Seq<LuaValue>, reg_len: int, idx: int) -> bool {
        true
    }

    open spec fn from_ok(stack: Seq<LuaValue>, idx: int) -> bool {
        true
    }

    open spec fn from_val(
        stack: Seq<LuaValue>,
        reg: Seq<RegSlot>,
        free: Seq<i32>,
        idx: int,
    ) -> () {
        ()
    }

    open spec fn from_stack(stack: Seq<LuaValue>, idx: int) -> Seq<LuaValue> {
        stack
    }

    open spec fn from_reg(stack: Seq<LuaValue>, reg: Seq<RegSlot>, free: Seq<i32>, idx: int) -> (
        Seq<RegSlot>,
        Seq<i32>,
    ) {
        (reg, free)
    }

    open spec fn expected() -> Seq<char> {
        "nil"@
    }

    fn read(state: &mut WeakState, idx: i32) -> Result<(), Error> {
        Ok(())
    }
}

impl LuaSize for String {
    open spec fn size_spec() -> int {
        1
    }

    fn size() -> i32 {
        1
    }
}

impl FromLua for String {
    open spec fn from_req(stack: Seq<LuaValue>, reg_len: int, idx: int) -> bool {
        true
    }

    open spec fn from_ok(stack: Seq<LuaValue>, idx: int) -> bool {
        slot(stack, idx) is Str
    }

    open spec fn from_val(
        stack: Seq<LuaValue>,
        reg: Seq<RegSlot>,
        free: Seq<i32>,
        idx: int,
    ) -> String {
        slot(stack, idx)->Str_0
    }

    open spec fn from_stack(stack: Seq<LuaValue>, idx: int) -> Seq<LuaValue> {
        stack
    }

    open spec fn from_reg(stack: Seq<LuaValue>, reg: Seq<RegSlot>, free: Seq<i32>, idx: int) -> (
        Seq<RegSlot>,
        Seq<i32>,
    ) {
        (reg, free)
    }

    open spec fn expected() -> Seq<char> {
        "string"@
    }

    /// A number slot reports the kind mismatch rather than coercing:
    /// the engine's number-to-text coercion rewrites the slot in
    /// place through its own float formatter, and reads here must not
    /// disturb slots.
    fn read(state: &mut WeakState, idx: i32) -> Result<String, Error> {
        let v = state.L.read_slot(idx);
        match v {
            LuaValue::Str(s) => Ok(s),
            other => Err(
                Error::TypeError(String::from_str("string"), other.typename()),
            ),
        }
    }
}

impl ToLua for String {
    open spec fn pushed(&self, s: crate::rt::lua_State) -> Seq<VV> {
        seq![VV::VStr(self@)]
    }

    open spec fn push_req(&self, s: crate::rt::lua_State) -> bool {
        s.stack@.len() < MAXCSTACK
    }

    fn write(&self, state: &mut WeakState) {
        let c = self.clone();
        proof {
            crate::push::lemma_stack_vv_push(state.L.stack@, LuaValue::Str(c));
            assert(state.L.stack@.push(LuaValue::Str(c)).subrange(
                0,
                state.L.stack@.len() as int,
            ) =~= state.L.stack@);
        }
        state.L.push_value(LuaValue::Str(c));
    }
}

impl<'a> ToLua for &'a str {
    open spec fn pushed(&self, s: crate::rt::lua_State) -> Seq<VV> {
        seq![VV::VStr(self@)]
    }

    open spec fn push_req(&self, s: crate::rt::lua_State) -> bool {
        s.stack@.len() < MAXCSTACK
    }

    fn write(&self, state: &mut WeakState) {
        let c = String::from_str(self);
        proof {
            crate::push::lemma_stack_vv_push(state.L.stack@, LuaValue::Str(c));
            assert(state.L.stack@.push(LuaValue::Str(c)).subrange(
                0,
                state.L.stack@.len() as int,
            ) =~= state.L.stack@);
        }
        state.L.push_value(LuaValue::Str(c));
    }
}

impl LuaSize for bool {
    open spec fn size_spec() -> int {
        1
    }

    fn size() -> i32 {
        1
    }
}

impl FromLua for bool {
    open spec fn from_req(stack: Seq<LuaValue>, reg_len: int, idx: int) -> bool {
        true
    }

    open spec fn from_ok(stack: Seq<LuaValue>, idx: int) -> bool {
        slot(stack, idx) is Bool
    }

    open spec fn from_val(
        stack: Seq<LuaValue>,
        reg: Seq<RegSlot>,
        free: Seq<i32>,
        idx: int,
    ) -> bool {
        slot(stack, idx)->Bool_0
    }

    open spec fn from_stack(stack: Seq<LuaValue>, idx: int) -> Seq<LuaValue> {
        stack
    }

    open spec fn from_reg(stack: Seq<LuaValue>, reg: Seq<RegSlot>, free: Seq<i32>, idx: int) -> (
        Seq<RegSlot>,
        Seq<i32>,
    ) {
        (reg, free)
    }

    open spec fn expected() -> Seq<char> {
        "bool"@
    }

    fn read(state: &mut WeakState, idx: i32) -> Result<bool, Error> {
        let v = state.L.read_slot(idx);
        match v {
            LuaValue::Bool(b) => Ok(b),
            other => Err(Error::TypeError(String::from_str("bool"), other.typename())),
        }
    }
}

impl ToLua for bool {
    open spec fn pushed(&self, s: crate::rt::lua_State) -> Seq<VV> {
        seq![VV::VBool(*self)]
    }

    open spec fn push_req(&self, s: crate::rt::lua_State) -> bool {
        s.stack@.len() < MAXCSTACK
    }

    fn write(&self, state: &mut WeakState) {
        proof {
            crate::push::lemma_stack_vv_push(state.L.stack@, LuaValue::Bool(*self));
            assert(state.L.stack@.push(LuaValue::Bool(*self)).subrange(
                0,
                state.L.stack@.len() as int,
            ) =~= state.L.stack@);
        }
        state.L.push_value(LuaValue::Bool(*self));
    }
}

impl LuaSize for Ref {
    open spec fn size_spec() -> int {
        1
    }

    fn size() -> i32 {
        1
    }
}

impl FromLua for Ref {
    open spec fn from_req(stack: Seq<LuaValue>, reg_len: int, idx: int) -> bool {
        resolve(stack, idx) != 0 && reg_len < 0x40000000 && stack.len() < MAXCSTACK
    }

    open spec fn from_ok(stack: Seq<LuaValue>, idx: int) -> bool {
        !(slot(stack, idx) is Nil)
    }

    open spec fn from_val(
        stack: Seq<LuaValue>,
        reg: Seq<RegSlot>,
        free: Seq<i32>,
        idx: int,
    ) -> Ref {
        Ref { key: spec_anchor(reg, free, slot(stack, idx)).2 as i32 }
    }

    open spec fn from_stack(stack: Seq<LuaValue>, idx: int) -> Seq<LuaValue> {
        stack
    }

    open spec fn from_reg(stack: Seq<LuaValue>, reg: Seq<RegSlot>, free: Seq<i32>, idx: int) -> (
        Seq<RegSlot>,
        Seq<i32>,
    ) {
        let t = spec_anchor(reg, free, slot(stack, idx));
        (t.0, t.1)
    }

    open spec fn expected() -> Seq<char> {
        "function"@
    }

    /// Anchoring a nil slot is refused: the sentinel arises only
    /// through the positional protocol, never through this typed one.
    /// The anchored slot is not consumed: callers discard explicitly.
    fn read(state: &mut WeakState, idx: i32) -> (r: Result<Ref, Error>) {
        let v = state.L.read_slot(idx);
        match v {
            LuaValue::Nil => Err(
                Error::TypeError(
                    String::from_str("function"),
                    String::from_str("nil"),
                ),
            ),
            _ => {
                let ghost s0 = state.L.stack@;
                state.L.dup_slot(idx);
                let key = state.L.reg_anchor();
                proof {
                    assert(state.L.stack@ =~= s0);
                }
                Ok(Ref { key })
            },
        }
    }
}

impl ToLua for Ref {
    open spec fn pushed(&self, s: crate::rt::lua_State) -> Seq<VV> {
        if self.key == -1 {
            seq![VV::VNil]
        } else {
            seq![vv(reg_val(s.reg@, self.key as int))]
        }
    }

    open spec fn push_req(&self, s: crate::rt::lua_State) -> bool {
        s.stack@.len() < MAXCSTACK && (self.key == -1 || (1 <= self.key <= s.reg@.len()
            && s.reg@[self.key - 1] is Val))
    }

    fn write(&self, state: &mut WeakState) {
        let ghost s0 = state.L.stack@;
        state.L.reg_push(self.key);
        proof {
            crate::push::lemma_stack_vv_push(s0, final(state).L.stack@.last());
            assert(final(state).L.stack@.subrange(0, s0.len() as int) =~= s0);
        }
    }
}

impl LuaSize for i32 {
    open spec fn size_spec() -> int {
        1
    }

    fn size() -> i32 {
        1
    }
}

impl FromLua for i32 {
    open spec fn from_req(stack: Seq<LuaValue>, reg_len: int, idx: int) -> bool {
        true
    }

    open spec fn from_ok(stack: Seq<LuaValue>, idx: int) -> bool {
        slot(stack, idx) is Number
    }

    open spec fn from_val(
        stack: Seq<LuaValue>,
        reg: Seq<RegSlot>,
        free: Seq<i32>,
        idx: int,
    ) -> i32 {
        sat(num_trunc_of_bits(slot(stack, idx)->Number_0), -2147483648, 2147483647) as i32
    }

    open spec fn from_stack(stack: Seq<LuaValue>, idx: int) -> Seq<LuaValue> {
        stack
    }

    open spec fn from_reg(stack: Seq<LuaValue>, reg: Seq<RegSlot>, free: Seq<i32>, idx: int) -> (
        Seq<RegSlot>,
        Seq<i32>,
    ) {
        (reg, free)
    }

    open spec fn expected() -> Seq<char> {
        "number"@
    }

    fn read(state: &mut WeakState, idx: i32) -> Result<i32, Error> {
        let v = state.L.read_slot(idx);
        match v {
            LuaValue::Number(b) => Ok(crate::num::sat_i64(crate::num::trunc_of_f64_bits(b), -2147483648, 2147483647) as i32),
            other => Err(
                Error::TypeError(String::from_str("number"), other.typename()),
            ),
        }
    }
}

impl ToLua for i32 {
    open spec fn pushed(&self, s: crate::rt::lua_State) -> Seq<VV> {
        seq![VV::VNum(int_bits(*self as int))]
    }

    open spec fn push_req(&self, s: crate::rt::lua_State) -> bool {
        s.stack@.len() < MAXCSTACK
    }

    fn write(&self, state: &mut WeakState) {
        let b = crate::num::f64_bits_of_int(*self as i64);
        proof {
            crate::push::lemma_stack_vv_push(state.L.stack@, LuaValue::Number(b));
            assert(state.L.stack@.push(LuaValue::Number(b)).subrange(
                0,
                state.L.stack@.len() as int,
            ) =~= state.L.stack@);
        }
        state.L.push_value(LuaValue::Number(b));
    }
}


impl LuaSize for u32 {
    open spec fn size_spec() -> int {
        1
    }

    fn size() -> i32 {
        1
    }
}

impl FromLua for u32 {
    open spec fn from_req(stack: Seq<LuaValue>, reg_len: int, idx: int) -> bool {
        true
    }

    open spec fn from_ok(stack: Seq<LuaValue>, idx: int) -> bool {
        slot(stack, idx) is Number
    }

    open spec fn from_val(
        stack: Seq<LuaValue>,
        reg: Seq<RegSlot>,
        free: Seq<i32>,
        idx: int,
    ) -> u32 {
        sat(num_trunc_of_bits(slot(stack, idx)->Number_0), 0, 4294967295) as u32
    }

    open spec fn from_stack(stack: Seq<LuaValue>, idx: int) -> Seq<LuaValue> {
        stack
    }

    open spec fn from_reg(stack: Seq<LuaValue>, reg: Seq<RegSlot>, free: Seq<i32>, idx: int) -> (
        Seq<RegSlot>,
        Seq<i32>,
    ) {
        (reg, free)
    }

    open spec fn expected() -> Seq<char> {
        "number"@
    }

    fn read(state: &mut WeakState, idx: i32) -> Result<u32, Error> {
        let v = state.L.read_slot(idx);
        match v {
            LuaValue::Number(b) => Ok(crate::num::sat_i64(crate::num::trunc_of_f64_bits(b), 0, 4294967295) as u32),
            other => Err(
                Error::TypeError(String::from_str("number"), other.typename()),
            ),
        }
    }
}

impl ToLua for u32 {
    open spec fn pushed(&self, s: crate::rt::lua_State) -> Seq<VV> {
        seq![VV::VNum(int_bits(*self as int))]
    }

    open spec fn push_req(&self, s: crate::rt::lua_State) -> bool {
        s.stack@.len() < MAXCSTACK
    }

    fn write(&self, state: &mut WeakState) {
        let b = crate::num::f64_bits_of_int(*self as i64);
        proof {
            crate::push::lemma_stack_vv_push(state.L.stack@, LuaValue::Number(b));
            assert(state.L.stack@.push(LuaValue::Number(b)).subrange(
                0,
                state.L.stack@.len() as int,
            ) =~= state.L.stack@);
        }
        state.L.push_value(LuaValue::Number(b));
    }
}



impl LuaSize for i8 {
    open spec fn size_spec() -> int {
        1
    }

    fn size() -> i32 {
        1
    }
}

impl FromLua for i8 {
    open spec fn from_req(stack: Seq<LuaValue>, reg_len: int, idx: int) -> bool {
        true
    }

    open spec fn from_ok(stack: Seq<LuaValue>, idx: int) -> bool {
        slot(stack, idx) is Number
    }

    open spec fn from_val(
        stack: Seq<LuaValue>,
        reg: Seq<RegSlot>,
        free: Seq<i32>,
        idx: int,
    ) -> i8 {
        sat(num_trunc_of_bits(slot(stack, idx)->Number_0), -128, 127) as i8
    }

    open spec fn from_stack(stack: Seq<LuaValue>, idx: int) -> Seq<LuaValue> {
        stack
    }

    open spec fn from_reg(stack: Seq<LuaValue>, reg: Seq<RegSlot>, free: Seq<i32>, idx: int) -> (
        Seq<RegSlot>,
        Seq<i32>,
    ) {
        (reg, free)
    }

    open spec fn expected() -> Seq<char> {
        "number"@
    }

    fn read(state: &mut WeakState, idx: i32) -> Result<i8, Error> {
        let v = state.L.read_slot(idx);
        match v {
            LuaValue::Number(b) => Ok(crate::num::sat_i64(crate::num::trunc_of_f64_bits(b), -128, 127) as i8),
            other => Err(
                Error::TypeError(String::from_str("number"), other.typename()),
            ),
        }
    }
}

impl ToLua for i8 {
    open spec fn pushed(&self, s: crate::rt::lua_State) -> Seq<VV> {
        seq![VV::VNum(int_bits(*self as int))]
    }

    open spec fn push_req(&self, s: crate::rt::lua_State) -> bool {
        s.stack@.len() < MAXCSTACK
    }

    fn write(&self, state: &mut WeakState) {
        let b = crate::num::f64_bits_of_int(*self as i64);
        proof {
            crate::push::lemma_stack_vv_push(state.L.stack@, LuaValue::Number(b));
            assert(state.L.stack@.push(LuaValue::Number(b)).subrange(
                0,
                state.L.stack@.len() as int,
            ) =~= state.L.stack@);
        }
        state.L.push_value(LuaValue::Number(b));
    }
}

impl LuaSize for i16 {
    open spec fn size_spec() -> int {
        1
    }

    fn size() -> i32 {
        1
    }
}

impl FromLua for i16 {
    open spec fn from_req(stack: Seq<LuaValue>, reg_len: int, idx: int) -> bool {
        true
    }

    open spec fn from_ok(stack: Seq<LuaValue>, idx: int) -> bool {
        slot(stack, idx) is Number
    }

    open spec fn from_val(
        stack: Seq<LuaValue>,
        reg: Seq<RegSlot>,
        free: Seq<i32>,
        idx: int,
    ) -> i16 {
        sat(num_trunc_of_bits(slot(stack, idx)->Number_0), -32768, 32767) as i16
    }

    open spec fn from_stack(stack: Seq<LuaValue>, idx: int) -> Seq<LuaValue> {
        stack
    }

    open spec fn from_reg(stack: Seq<LuaValue>, reg: Seq<RegSlot>, free: Seq<i32>, idx: int) -> (
        Seq<RegSlot>,
        Seq<i32>,
    ) {
        (reg, free)
    }

    open spec fn expected() -> Seq<char> {
        "number"@
    }

    fn read(state: &mut WeakState, idx: i32) -> Result<i16, Error> {
        let v = state.L.read_slot(idx);
        match v {
            LuaValue::Number(b) => Ok(crate::num::sat_i64(crate::num::trunc_of_f64_bits(b), -32768, 32767) as i16),
            other => Err(
                Error::TypeError(String::from_str("number"), other.typename()),
            ),
        }
    }
}

impl ToLua for i16 {
    open spec fn pushed(&self, s: crate::rt::lua_State) -> Seq<VV> {
        seq![VV::VNum(int_bits(*self as int))]
    }

    open spec fn push_req(&self, s: crate::rt::lua_State) -> bool {
        s.stack@.len() < MAXCSTACK
    }

    fn write(&self, state: &mut WeakState) {
        let b = crate::num::f64_bits_of_int(*self as i64);
        proof {
            crate::push::lemma_stack_vv_push(state.L.stack@, LuaValue::Number(b));
            assert(state.L.stack@.push(LuaValue::Number(b)).subrange(
                0,
                state.L.stack@.len() as int,
            ) =~= state.L.stack@);
        }
        state.L.push_value(LuaValue::Number(b));
    }
}

impl LuaSize for u8 {
    open spec fn size_spec() -> int {
        1
    }

    fn size() -> i32 {
        1
    }
}

impl FromLua for u8 {
    open spec fn from_req(stack: Seq<LuaValue>, reg_len: int, idx: int) -> bool {
        true
    }

    open spec fn from_ok(stack: Seq<LuaValue>, idx: int) -> bool {
        slot(stack, idx) is Number
    }

    open spec fn from_val(
        stack: Seq<LuaValue>,
        reg: Seq<RegSlot>,
        free: Seq<i32>,
        idx: int,
    ) -> u8 {
        sat(num_trunc_of_bits(slot(stack, idx)->Number_0), 0, 255) as u8
    }

    open spec fn from_stack(stack: Seq<LuaValue>, idx: int) -> Seq<LuaValue> {
        stack
    }

    open spec fn from_reg(stack: Seq<LuaValue>, reg: Seq<RegSlot>, free: Seq<i32>, idx: int) -> (
        Seq<RegSlot>,
        Seq<i32>,
    ) {
        (reg, free)
    }

    open spec fn expected() -> Seq<char> {
        "number"@
    }

    fn read(state: &mut WeakState, idx: i32) -> Result<u8, Error> {
        let v = state.L.read_slot(idx);
        match v {
            LuaValue::Number(b) => Ok(crate::num::sat_i64(crate::num::trunc_of_f64_bits(b), 0, 255) as u8),
            other => Err(
                Error::TypeError(String::from_str("number"), other.typename()),
            ),
        }
    }
}

impl ToLua for u8 {
    open spec fn pushed(&self, s: crate::rt::lua_State) -> Seq<VV> {
        seq![VV::VNum(int_bits(*self as int))]
    }

    open spec fn push_req(&self, s: crate::rt::lua_State) -> bool {
        s.stack@.len() < MAXCSTACK
    }

    fn write(&self, state: &mut WeakState) {
        let b = crate::num::f64_bits_of_int(*self as i64);
        proof {
            crate::push::lemma_stack_vv_push(state.L.stack@, LuaValue::Number(b));
            assert(state.L.stack@.push(LuaValue::Number(b)).subrange(
                0,
                state.L.stack@.len() as int,
            ) =~= state.L.stack@);
        }
        state.L.push_value(LuaValue::Number(b));
    }
}

impl LuaSize for u16 {
    open spec fn size_spec() -> int {
        1
    }

    fn size() -> i32 {
        1
    }
}

impl FromLua for u16 {
    open spec fn from_req(stack: Seq<LuaValue>, reg_len: int, idx: int) -> bool {
        true
    }

    open spec fn from_ok(stack: Seq<LuaValue>, idx: int) -> bool {
        slot(stack, idx) is Number
    }

    open spec fn from_val(
        stack: Seq<LuaValue>,
        reg: Seq<RegSlot>,
        free: Seq<i32>,
        idx: int,
    ) -> u16 {
        sat(num_trunc_of_bits(slot(stack, idx)->Number_0), 0, 65535) as u16
    }

    open spec fn from_stack(stack: Seq<LuaValue>, idx: int) -> Seq<LuaValue> {
        stack
    }

    open spec fn from_reg(stack: Seq<LuaValue>, reg: Seq<RegSlot>, free: Seq<i32>, idx: int) -> (
        Seq<RegSlot>,
        Seq<i32>,
    ) {
        (reg, free)
    }

    open spec fn expected() -> Seq<char> {
        "number"@
    }

    fn read(state: &mut WeakState, idx: i32) -> Result<u16, Error> {
        let v = state.L.read_slot(idx);
        match v {
            LuaValue::Number(b) => Ok(crate::num::sat_i64(crate::num::trunc_of_f64_bits(b), 0, 65535) as u16),
            other => Err(
                Error::TypeError(String::from_str("number"), other.typename()),
            ),
        }
    }
}

impl ToLua for u16 {
    open spec fn pushed(&self, s: crate::rt::lua_State) -> Seq<VV> {
        seq![VV::VNum(int_bits(*self as int))]
    }

    open spec fn push_req(&self, s: crate::rt::lua_State) -> bool {
        s.stack@.len() < MAXCSTACK
    }

    fn write(&self, state: &mut WeakState) {
        let b = crate::num::f64_bits_of_int(*self as i64);
        proof {
            crate::push::lemma_stack_vv_push(state.L.stack@, LuaValue::Number(b));
            assert(state.L.stack@.push(LuaValue::Number(b)).subrange(
                0,
                state.L.stack@.len() as int,
            ) =~= state.L.stack@);
        }
        state.L.push_value(LuaValue::Number(b));
    }
}

} // verus!
