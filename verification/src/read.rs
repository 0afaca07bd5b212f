//! The read half of the value transfer protocol for [`Context`].
//!
//! A read constructs the native value a stack slot holds.  Reads do
//! not consume the slot — callers discard explicitly — with one
//! exception: anchored-reference reads, which move the value off the
//! stack into the registry and say so in their contracts.

use vstd::prelude::*;
use crate::context::Context;
use crate::num::num_trunc_of_bits;
use crate::num::sat;
use crate::rt::RegSlot;
use crate::rt::slot;
use crate::value::LuaValue;
use crate::value::NumBits;

verus! {

/// The truth value the runtime assigns a slot: only nil, false and
/// "none" are falsy.
pub open spec fn truthy(v: LuaValue) -> bool {
    match v {
        LuaValue::Nil => false,
        LuaValue::Missing => false,
        LuaValue::Bool(b) => b,
        _ => true,
    }
}

/// The read capability: constructing a native value from a stack slot.
pub trait Read: Sized {
    /// What the read needs of the state.
    spec fn read_req(stack: Seq<LuaValue>, reg_len: int, idx: int) -> bool;

    /// The value the read produces.
    spec fn read_val(stack: Seq<LuaValue>, reg: Seq<RegSlot>, free: Seq<i32>, idx: int) -> Self;

    /// The stack after the read (identical for every non-anchoring
    /// read).
    spec fn read_stack(stack: Seq<LuaValue>, idx: int) -> Seq<LuaValue>;

    /// The registry and free-list after the read (identical for every
    /// non-anchoring read).
    spec fn read_reg(stack: Seq<LuaValue>, reg: Seq<RegSlot>, free: Seq<i32>, idx: int) -> (
        Seq<RegSlot>,
        Seq<i32>,
    );

    /// Whether the slot holds this type's foreign kind.
    spec fn check_spec(stack: Seq<LuaValue>, idx: int) -> bool;

    /// Reads the value at `idx`.
    fn read(cxt: &mut Context, idx: i32) -> (r: Self)
        requires
            old(cxt).handle.wf(),
            Self::read_req(old(cxt).handle.stack@, old(cxt).handle.reg@.len() as int, idx as int),
        ensures
            final(cxt).handle.wf(),
            r == Self::read_val(
                old(cxt).handle.stack@,
                old(cxt).handle.reg@,
                old(cxt).handle.free@,
                idx as int,
            ),
            final(cxt).handle.stack@ == Self::read_stack(old(cxt).handle.stack@, idx as int),
            (final(cxt).handle.reg@, final(cxt).handle.free@) == Self::read_reg(
                old(cxt).handle.stack@,
                old(cxt).handle.reg@,
                old(cxt).handle.free@,
                idx as int,
            ),
            final(cxt).handle.tables@ == old(cxt).handle.tables@,
            final(cxt).owner == old(cxt).owner,
    ;

    /// Tests the slot's kind without reading it.
    fn check(cxt: &Context, idx: i32) -> (b: bool)
        requires
            cxt.handle.wf(),
        ensures
            b == Self::check_spec(cxt.handle.stack@, idx as int),
    ;
}

impl Read for bool {
    open spec fn read_req(stack: Seq<LuaValue>, reg_len: int, idx: int) -> bool {
        true
    }

    open spec fn read_val(
        stack: Seq<LuaValue>,
        reg: Seq<RegSlot>,
        free: Seq<i32>,
        idx: int,
    ) -> bool {
        truthy(slot(stack, idx))
    }

    open spec fn read_stack(stack: Seq<LuaValue>, idx: int) -> Seq<LuaValue> {
        stack
    }

    open spec fn read_reg(
        stack: Seq<LuaValue>,
        reg: Seq<RegSlot>,
        free: Seq<i32>,
        idx: int,
    ) -> (Seq<RegSlot>, Seq<i32>) {
        (reg, free)
    }

    open spec fn check_spec(stack: Seq<LuaValue>, idx: int) -> bool {
        slot(stack, idx) is Bool
    }

    fn read(cxt: &mut Context, idx: i32) -> bool {
        match cxt.handle.read_slot(idx) {
            LuaValue::Nil => false,
            LuaValue::Missing => false,
            LuaValue::Bool(b) => b,
            _ => true,
        }
    }

    fn check(cxt: &Context, idx: i32) -> bool {
        match cxt.handle.read_slot(idx) {
            LuaValue::Bool(_) => true,
            _ => false,
        }
    }
}

impl Read for String {
    open spec fn read_req(stack: Seq<LuaValue>, reg_len: int, idx: int) -> bool {
        slot(stack, idx) is Str
    }

    open spec fn read_val(
        stack: Seq<LuaValue>,
        reg: Seq<RegSlot>,
        free: Seq<i32>,
        idx: int,
    ) -> String {
        slot(stack, idx)->Str_0
    }

    open spec fn read_stack(stack: Seq<LuaValue>, idx: int) -> Seq<LuaValue> {
        stack
    }

    open spec fn read_reg(
        stack: Seq<LuaValue>,
        reg: Seq<RegSlot>,
        free: Seq<i32>,
        idx: int,
    ) -> (Seq<RegSlot>, Seq<i32>) {
        (reg, free)
    }

    open spec fn check_spec(stack: Seq<LuaValue>, idx: int) -> bool {
        slot(stack, idx) is Str
    }

    /// Only a string slot is admitted: the engine's number-to-text
    /// coercion rewrites the slot in place through its own float
    /// formatter, and reads here must not disturb slots.
    fn read(cxt: &mut Context, idx: i32) -> String {
        match cxt.handle.read_slot(idx) {
            LuaValue::Str(s) => s,
            _ => String::new(),
        }
    }

    fn check(cxt: &Context, idx: i32) -> bool {
        match cxt.handle.read_slot(idx) {
            LuaValue::Str(_) => true,
            _ => false,
        }
    }
}

impl Read for NumBits {
    open spec fn read_req(stack: Seq<LuaValue>, reg_len: int, idx: int) -> bool {
        true
    }

    open spec fn read_val(
        stack: Seq<LuaValue>,
        reg: Seq<RegSlot>,
        free: Seq<i32>,
        idx: int,
    ) -> NumBits {
        match slot(stack, idx) {
            LuaValue::Number(b) => NumBits(b),
            _ => NumBits(0),
        }
    }

    open spec fn read_stack(stack: Seq<LuaValue>, idx: int) -> Seq<LuaValue> {
        stack
    }

    open spec fn read_reg(
        stack: Seq<LuaValue>,
        reg: Seq<RegSlot>,
        free: Seq<i32>,
        idx: int,
    ) -> (Seq<RegSlot>, Seq<i32>) {
        (reg, free)
    }

    open spec fn check_spec(stack: Seq<LuaValue>, idx: int) -> bool {
        slot(stack, idx) is Number
    }

    fn read(cxt: &mut Context, idx: i32) -> NumBits {
        match cxt.handle.read_slot(idx) {
            LuaValue::Number(b) => NumBits(b),
            _ => NumBits(0),
        }
    }

    fn check(cxt: &Context, idx: i32) -> bool {
        match cxt.handle.read_slot(idx) {
            LuaValue::Number(_) => true,
            _ => false,
        }
    }
}

impl Read for LuaValue {
    open spec fn read_req(stack: Seq<LuaValue>, reg_len: int, idx: int) -> bool {
        true
    }

    open spec fn read_val(
        stack: Seq<LuaValue>,
        reg: Seq<RegSlot>,
        free: Seq<i32>,
        idx: int,
    ) -> LuaValue {
        slot(stack, idx)
    }

    open spec fn read_stack(stack: Seq<LuaValue>, idx: int) -> Seq<LuaValue> {
        stack
    }

    open spec fn read_reg(
        stack: Seq<LuaValue>,
        reg: Seq<RegSlot>,
        free: Seq<i32>,
        idx: int,
    ) -> (Seq<RegSlot>, Seq<i32>) {
        (reg, free)
    }

    open spec fn check_spec(stack: Seq<LuaValue>, idx: int) -> bool {
        true
    }

    fn read(cxt: &mut Context, idx: i32) -> LuaValue {
        cxt.handle.read_slot(idx)
    }

    fn check(cxt: &Context, idx: i32) -> bool {
        true
    }
}

impl<T: Read> Read for Option<T> {
    open spec fn read_req(stack: Seq<LuaValue>, reg_len: int, idx: int) -> bool {
        slot(stack, idx) is Nil || T::read_req(stack, reg_len, idx)
    }

    open spec fn read_val(
        stack: Seq<LuaValue>,
        reg: Seq<RegSlot>,
        free: Seq<i32>,
        idx: int,
    ) -> Option<T> {
        if slot(stack, idx) is Nil {
            None
        } else {
            Some(T::read_val(stack, reg, free, idx))
        }
    }

    open spec fn read_stack(stack: Seq<LuaValue>, idx: int) -> Seq<LuaValue> {
        if slot(stack, idx) is Nil {
            stack
        } else {
            T::read_stack(stack, idx)
        }
    }

    open spec fn read_reg(
        stack: Seq<LuaValue>,
        reg: Seq<RegSlot>,
        free: Seq<i32>,
        idx: int,
    ) -> (Seq<RegSlot>, Seq<i32>) {
        if slot(stack, idx) is Nil {
            (reg, free)
        } else {
            T::read_reg(stack, reg, free, idx)
        }
    }

    open spec fn check_spec(stack: Seq<LuaValue>, idx: int) -> bool {
        slot(stack, idx) is Nil || T::check_spec(stack, idx)
    }

    fn read(cxt: &mut Context, idx: i32) -> Option<T> {
        let nil_there = match cxt.handle.read_slot(idx) {
            LuaValue::Nil => true,
            _ => false,
        };
        if nil_there {
            None
        } else {
            Some(T::read(cxt, idx))
        }
    }

    fn check(cxt: &Context, idx: i32) -> bool {
        let nil_there = match cxt.handle.read_slot(idx) {
            LuaValue::Nil => true,
            _ => false,
        };
        nil_there || T::check(cxt, idx)
    }
}

impl Read for i8 {
    open spec fn read_req(stack: Seq<LuaValue>, reg_len: int, idx: int) -> bool {
        true
    }

    open spec fn read_val(
        stack: Seq<LuaValue>,
        reg: Seq<RegSlot>,
        free: Seq<i32>,
        idx: int,
    ) -> i8 {
        match slot(stack, idx) {
            LuaValue::Number(b) => sat(num_trunc_of_bits(b), -128, 127) as i8,
            _ => 0,
        }
    }

    open spec fn read_stack(stack: Seq<LuaValue>, idx: int) -> Seq<LuaValue> {
        stack
    }

    open spec fn read_reg(
        stack: Seq<LuaValue>,
        reg: Seq<RegSlot>,
        free: Seq<i32>,
        idx: int,
    ) -> (Seq<RegSlot>, Seq<i32>) {
        (reg, free)
    }

    open spec fn check_spec(stack: Seq<LuaValue>, idx: int) -> bool {
        slot(stack, idx) is Number
    }

    fn read(cxt: &mut Context, idx: i32) -> i8 {
        match cxt.handle.read_slot(idx) {
            LuaValue::Number(b) => crate::num::sat_i64(crate::num::trunc_of_f64_bits(b), -128, 127) as i8,
            _ => 0,
        }
    }

    fn check(cxt: &Context, idx: i32) -> bool {
        match cxt.handle.read_slot(idx) {
            LuaValue::Number(_) => true,
            _ => false,
        }
    }
}

impl Read for i16 {
    open spec fn read_req(stack: Seq<LuaValue>, reg_len: int, idx: int) -> bool {
        true
    }

    open spec fn read_val(
        stack: Seq<LuaValue>,
        reg: Seq<RegSlot>,
        free: Seq<i32>,
        idx: int,
    ) -> i16 {
        match slot(stack, idx) {
            LuaValue::Number(b) => sat(num_trunc_of_bits(b), -32768, 32767) as i16,
            _ => 0,
        }
    }

    open spec fn read_stack(stack: Seq<LuaValue>, idx: int) -> Seq<LuaValue> {
        stack
    }

    open spec fn read_reg(
        stack: Seq<LuaValue>,
        reg: Seq<RegSlot>,
        free: Seq<i32>,
        idx: int,
    ) -> (Seq<RegSlot>, Seq<i32>) {
        (reg, free)
    }

    open spec fn check_spec(stack: Seq<LuaValue>, idx: int) -> bool {
        slot(stack, idx) is Number
    }

    fn read(cxt: &mut Context, idx: i32) -> i16 {
        match cxt.handle.read_slot(idx) {
            LuaValue::Number(b) => crate::num::sat_i64(crate::num::trunc_of_f64_bits(b), -32768, 32767) as i16,
            _ => 0,
        }
    }

    fn check(cxt: &Context, idx: i32) -> bool {
        match cxt.handle.read_slot(idx) {
            LuaValue::Number(_) => true,
            _ => false,
        }
    }
}

impl Read for i32 {
    open spec fn read_req(stack: Seq<LuaValue>, reg_len: int, idx: int) -> bool {
        true
    }

    open spec fn read_val(
        stack: Seq<LuaValue>,
        reg: Seq<RegSlot>,
        free: Seq<i32>,
        idx: int,
    ) -> i32 {
        match slot(stack, idx) {
            LuaValue::Number(b) => sat(num_trunc_of_bits(b), -2147483648, 2147483647) as i32,
            _ => 0,
        }
    }

    open spec fn read_stack(stack: Seq<LuaValue>, idx: int) -> Seq<LuaValue> {
        stack
    }

    open spec fn read_reg(
        stack: Seq<LuaValue>,
        reg: Seq<RegSlot>,
        free: Seq<i32>,
        idx: int,
    ) -> (Seq<RegSlot>, Seq<i32>) {
        (reg, free)
    }

    open spec fn check_spec(stack: Seq<LuaValue>, idx: int) -> bool {
        slot(stack, idx) is Number
    }

    fn read(cxt: &mut Context, idx: i32) -> i32 {
        match cxt.handle.read_slot(idx) {
            LuaValue::Number(b) => crate::num::sat_i64(crate::num::trunc_of_f64_bits(b), -2147483648, 2147483647) as i32,
            _ => 0,
        }
    }

    fn check(cxt: &Context, idx: i32) -> bool {
        match cxt.handle.read_slot(idx) {
            LuaValue::Number(_) => true,
            _ => false,
        }
    }
}

} // verus!
