//! The trampoline's view of a call frame: typed and unchecked
//! argument accessors over the stack the foreign caller built.

use vstd::prelude::*;
use vstd::string::StringExecFns;
use core::marker::PhantomData;
use crate::errors::Error;
use crate::state::WeakState;
use crate::rt::MAXCSTACK;
use crate::rt::resolve;
use crate::rt::slot;
use crate::num::num_trunc_of_bits;
use crate::num::sat;
use crate::value::LuaValue;
use crate::value::VV;
use crate::value::vv;
use crate::value::kind_name;
use crate::transfer::ToLua;
use crate::table::TableContext;

verus! {

/// A native callback run against a table-valued argument's context:
/// the trampoline validates the argument once and hands the callback
/// a [`TableContext`] scoped to it.
pub trait TableArgFn<T> {
    /// What the callback returns for a given starting state and
    /// validated root: a verified implementation declares its result
    /// here, so the trampoline's contract can hand it back by name.
    /// An unverified implementation leaves it undetermined.
    open spec fn outcome(&self, st: crate::rt::lua_State, root: int) -> Result<T, Error> {
        vstd::pervasive::arbitrary()
    }

    /// Works on the validated table argument.  The callback must keep
    /// the stack balanced, and returns exactly its declared
    /// [`TableArgFn::outcome`] for the state and root it received.
    fn call_with(&self, st: &mut WeakState, cxt: TableContext) -> (r: Result<T, Error>)
        requires
            old(st).L.wf(),
            cxt.root >= 1,
            resolve(old(st).L.stack@, cxt.root as int) != 0,
            slot(old(st).L.stack@, cxt.root as int) is Table,
        ensures
            final(st).L.wf(),
            final(st).L.stack@ == old(st).L.stack@,
            final(st).L.reg@ == old(st).L.reg@,
            final(st).L.free@ == old(st).L.free@,
            final(st).L.tables@.len() >= old(st).L.tables@.len(),
            r == self.outcome(old(st).L, cxt.root as int),
    ;
}

/// The argument-reading capability of the trampoline: positional
/// typed reads that never consume and never disturb the frame.
pub trait FromLuaFunctionStack: Sized {
    /// Whether the argument slot holds this type's kind.
    spec fn arg_ok(stack: Seq<LuaValue>, idx: int) -> bool;

    /// The argument's native value.
    spec fn arg_val(stack: Seq<LuaValue>, idx: int) -> Self;

    /// The kind name this type expects.
    spec fn arg_kind() -> Seq<char>;

    /// Reads argument `idx`, or reports a per-argument type mismatch.
    fn read_arg(state: &WeakState, idx: i32) -> (r: Result<Self, Error>)
        requires
            state.L.wf(),
        ensures
            if Self::arg_ok(state.L.stack@, idx as int) {
                r matches Ok(v) && v == Self::arg_val(state.L.stack@, idx as int)
            } else {
                r matches Err(e) && e matches Error::ArgTypeError(n, g) && n == idx && g@
                    == kind_name(slot(state.L.stack@, idx as int))
            },
    ;

    /// Reads argument `idx` without the runtime check: the caller
    /// vouches for the kind (the unchecked path raises a foreign
    /// error instead of returning, which verified code expresses as a
    /// precondition).
    fn read_unchecked_arg(state: &WeakState, idx: i32) -> (r: Self)
        requires
            state.L.wf(),
            Self::arg_ok(state.L.stack@, idx as int),
        ensures
            r == Self::arg_val(state.L.stack@, idx as int),
    ;

    /// Whether the argument holds this type's kind.
    fn valid(state: &WeakState, idx: i32) -> (b: bool)
        requires
            state.L.wf(),
        ensures
            b == Self::arg_ok(state.L.stack@, idx as int),
    ;

    /// The expected-kind name, as a fresh string.
    fn kind_string() -> (s: String)
        ensures
            s@ == Self::arg_kind(),
    ;
}

impl FromLuaFunctionStack for String {
    open spec fn arg_ok(stack: Seq<LuaValue>, idx: int) -> bool {
        slot(stack, idx) is Str
    }

    open spec fn arg_val(stack: Seq<LuaValue>, idx: int) -> String {
        slot(stack, idx)->Str_0
    }

    open spec fn arg_kind() -> Seq<char> {
        "string"@
    }

    fn read_arg(state: &WeakState, idx: i32) -> Result<String, Error> {
        match state.L.read_slot(idx) {
            LuaValue::Str(s) => Ok(s),
            other => Err(Error::ArgTypeError(idx, other.typename())),
        }
    }

    fn read_unchecked_arg(state: &WeakState, idx: i32) -> String {
        match state.L.read_slot(idx) {
            LuaValue::Str(s) => s,
            _ => String::new(),
        }
    }

    fn valid(state: &WeakState, idx: i32) -> bool {
        match state.L.read_slot(idx) {
            LuaValue::Str(_) => true,
            _ => false,
        }
    }

    fn kind_string() -> String {
        String::from_str("string")
    }
}

impl FromLuaFunctionStack for bool {
    open spec fn arg_ok(stack: Seq<LuaValue>, idx: int) -> bool {
        slot(stack, idx) is Bool
    }

    open spec fn arg_val(stack: Seq<LuaValue>, idx: int) -> bool {
        slot(stack, idx)->Bool_0
    }

    open spec fn arg_kind() -> Seq<char> {
        "bool"@
    }

    fn read_arg(state: &WeakState, idx: i32) -> Result<bool, Error> {
        match state.L.read_slot(idx) {
            LuaValue::Bool(b) => Ok(b),
            other => Err(Error::ArgTypeError(idx, other.typename())),
        }
    }

    fn read_unchecked_arg(state: &WeakState, idx: i32) -> bool {
        match state.L.read_slot(idx) {
            LuaValue::Bool(b) => b,
            _ => false,
        }
    }

    fn valid(state: &WeakState, idx: i32) -> bool {
        match state.L.read_slot(idx) {
            LuaValue::Bool(_) => true,
            _ => false,
        }
    }

    fn kind_string() -> String {
        String::from_str("bool")
    }
}

impl FromLuaFunctionStack for i32 {
    open spec fn arg_ok(stack: Seq<LuaValue>, idx: int) -> bool {
        slot(stack, idx) is Number
    }

    open spec fn arg_val(stack: Seq<LuaValue>, idx: int) -> i32 {
        sat(num_trunc_of_bits(slot(stack, idx)->Number_0), -2147483648, 2147483647) as i32
    }

    open spec fn arg_kind() -> Seq<char> {
        "number"@
    }

    fn read_arg(state: &WeakState, idx: i32) -> Result<i32, Error> {
        match state.L.read_slot(idx) {
            LuaValue::Number(b) => Ok(crate::num::sat_i64(crate::num::trunc_of_f64_bits(b), -2147483648, 2147483647) as i32),
            other => Err(Error::ArgTypeError(idx, other.typename())),
        }
    }

    fn read_unchecked_arg(state: &WeakState, idx: i32) -> i32 {
        match state.L.read_slot(idx) {
            LuaValue::Number(b) => crate::num::sat_i64(crate::num::trunc_of_f64_bits(b), -2147483648, 2147483647) as i32,
            _ => 0,
        }
    }

    fn valid(state: &WeakState, idx: i32) -> bool {
        match state.L.read_slot(idx) {
            LuaValue::Number(_) => true,
            _ => false,
        }
    }

    fn kind_string() -> String {
        String::from_str("number")
    }
}

impl FromLuaFunctionStack for i8 {
    open spec fn arg_ok(stack: Seq<LuaValue>, idx: int) -> bool {
        slot(stack, idx) is Number
    }

    open spec fn arg_val(stack: Seq<LuaValue>, idx: int) -> i8 {
        sat(num_trunc_of_bits(slot(stack, idx)->Number_0), -128, 127) as i8
    }

    open spec fn arg_kind() -> Seq<char> {
        "number"@
    }

    fn read_arg(state: &WeakState, idx: i32) -> Result<i8, Error> {
        match state.L.read_slot(idx) {
            LuaValue::Number(b) => Ok(crate::num::sat_i64(crate::num::trunc_of_f64_bits(b), -128, 127) as i8),
            other => Err(Error::ArgTypeError(idx, other.typename())),
        }
    }

    fn read_unchecked_arg(state: &WeakState, idx: i32) -> i8 {
        match state.L.read_slot(idx) {
            LuaValue::Number(b) => crate::num::sat_i64(crate::num::trunc_of_f64_bits(b), -128, 127) as i8,
            _ => 0,
        }
    }

    fn valid(state: &WeakState, idx: i32) -> bool {
        match state.L.read_slot(idx) {
            LuaValue::Number(_) => true,
            _ => false,
        }
    }

    fn kind_string() -> String {
        String::from_str("number")
    }
}

impl FromLuaFunctionStack for i16 {
    open spec fn arg_ok(stack: Seq<LuaValue>, idx: int) -> bool {
        slot(stack, idx) is Number
    }

    open spec fn arg_val(stack: Seq<LuaValue>, idx: int) -> i16 {
        sat(num_trunc_of_bits(slot(stack, idx)->Number_0), -32768, 32767) as i16
    }

    open spec fn arg_kind() -> Seq<char> {
        "number"@
    }

    fn read_arg(state: &WeakState, idx: i32) -> Result<i16, Error> {
        match state.L.read_slot(idx) {
            LuaValue::Number(b) => Ok(crate::num::sat_i64(crate::num::trunc_of_f64_bits(b), -32768, 32767) as i16),
            other => Err(Error::ArgTypeError(idx, other.typename())),
        }
    }

    fn read_unchecked_arg(state: &WeakState, idx: i32) -> i16 {
        match state.L.read_slot(idx) {
            LuaValue::Number(b) => crate::num::sat_i64(crate::num::trunc_of_f64_bits(b), -32768, 32767) as i16,
            _ => 0,
        }
    }

    fn valid(state: &WeakState, idx: i32) -> bool {
        match state.L.read_slot(idx) {
            LuaValue::Number(_) => true,
            _ => false,
        }
    }

    fn kind_string() -> String {
        String::from_str("number")
    }
}

impl FromLuaFunctionStack for u8 {
    open spec fn arg_ok(stack: Seq<LuaValue>, idx: int) -> bool {
        slot(stack, idx) is Number
    }

    open spec fn arg_val(stack: Seq<LuaValue>, idx: int) -> u8 {
        sat(num_trunc_of_bits(slot(stack, idx)->Number_0), 0, 255) as u8
    }

    open spec fn arg_kind() -> Seq<char> {
        "number"@
    }

    fn read_arg(state: &WeakState, idx: i32) -> Result<u8, Error> {
        match state.L.read_slot(idx) {
            LuaValue::Number(b) => Ok(crate::num::sat_i64(crate::num::trunc_of_f64_bits(b), 0, 255) as u8),
            other => Err(Error::ArgTypeError(idx, other.typename())),
        }
    }

    fn read_unchecked_arg(state: &WeakState, idx: i32) -> u8 {
        match state.L.read_slot(idx) {
            LuaValue::Number(b) => crate::num::sat_i64(crate::num::trunc_of_f64_bits(b), 0, 255) as u8,
            _ => 0,
        }
    }

    fn valid(state: &WeakState, idx: i32) -> bool {
        match state.L.read_slot(idx) {
            LuaValue::Number(_) => true,
            _ => false,
        }
    }

    fn kind_string() -> String {
        String::from_str("number")
    }
}

impl FromLuaFunctionStack for u16 {
    open spec fn arg_ok(stack: Seq<LuaValue>, idx: int) -> bool {
        slot(stack, idx) is Number
    }

    open spec fn arg_val(stack: Seq<LuaValue>, idx: int) -> u16 {
        sat(num_trunc_of_bits(slot(stack, idx)->Number_0), 0, 65535) as u16
    }

    open spec fn arg_kind() -> Seq<char> {
        "number"@
    }

    fn read_arg(state: &WeakState, idx: i32) -> Result<u16, Error> {
        match state.L.read_slot(idx) {
            LuaValue::Number(b) => Ok(crate::num::sat_i64(crate::num::trunc_of_f64_bits(b), 0, 65535) as u16),
            other => Err(Error::ArgTypeError(idx, other.typename())),
        }
    }

    fn read_unchecked_arg(state: &WeakState, idx: i32) -> u16 {
        match state.L.read_slot(idx) {
            LuaValue::Number(b) => crate::num::sat_i64(crate::num::trunc_of_f64_bits(b), 0, 65535) as u16,
            _ => 0,
        }
    }

    fn valid(state: &WeakState, idx: i32) -> bool {
        match state.L.read_slot(idx) {
            LuaValue::Number(_) => true,
            _ => false,
        }
    }

    fn kind_string() -> String {
        String::from_str("number")
    }
}

impl FromLuaFunctionStack for u32 {
    open spec fn arg_ok(stack: Seq<LuaValue>, idx: int) -> bool {
        slot(stack, idx) is Number
    }

    open spec fn arg_val(stack: Seq<LuaValue>, idx: int) -> u32 {
        sat(num_trunc_of_bits(slot(stack, idx)->Number_0), 0, 4294967295) as u32
    }

    open spec fn arg_kind() -> Seq<char> {
        "number"@
    }

    fn read_arg(state: &WeakState, idx: i32) -> Result<u32, Error> {
        match state.L.read_slot(idx) {
            LuaValue::Number(b) => Ok(crate::num::sat_i64(crate::num::trunc_of_f64_bits(b), 0, 4294967295) as u32),
            other => Err(Error::ArgTypeError(idx, other.typename())),
        }
    }

    fn read_unchecked_arg(state: &WeakState, idx: i32) -> u32 {
        match state.L.read_slot(idx) {
            LuaValue::Number(b) => crate::num::sat_i64(crate::num::trunc_of_f64_bits(b), 0, 4294967295) as u32,
            _ => 0,
        }
    }

    fn valid(state: &WeakState, idx: i32) -> bool {
        match state.L.read_slot(idx) {
            LuaValue::Number(_) => true,
            _ => false,
        }
    }

    fn kind_string() -> String {
        String::from_str("number")
    }
}

/// A frame accessor whose reads report typed errors.
pub struct FunctionStack {
    pub state: WeakState,
}

/// A frame accessor whose reads assume the caller checked kinds; a
/// violation would raise a foreign error rather than return.
pub struct UncheckedFunctionStack {
    pub state: WeakState,
}

/// A typed marker of a validated stack slot, pushable later without
/// re-validation.
pub struct StackValue<T> {
    pub idx: i32,
    pub _marker: PhantomData<T>,
}

impl FunctionStack {
    /// Validates the frame's argument count against an inclusive
    /// range, reporting the count expected and found.
    pub fn check_size(&self, range: core::ops::Range<i32>) -> (r: Result<i32, Error>)
        requires
            self.state.L.wf(),
        ensures
            ({
                let sz = self.state.L.stack@.len() as int;
                if range.start <= sz <= range.end {
                    r == Result::<i32, Error>::Ok(sz as i32)
                } else {
                    r == Result::<i32, Error>::Err(
                        Error::ArgCount(range.start, range.end, sz as i32),
                    )
                }
            }),
    {
        let sz = self.state.L.gettop();
        if sz < range.start || sz > range.end {
            Err(Error::ArgCount(range.start, range.end, sz))
        } else {
            Ok(sz)
        }
    }

    /// Reads argument `idx`, typed.
    pub fn arg<T: FromLuaFunctionStack>(&self, idx: i32) -> (r: Result<T, Error>)
        requires
            self.state.L.wf(),
        ensures
            if T::arg_ok(self.state.L.stack@, idx as int) {
                r matches Ok(v) && v == T::arg_val(self.state.L.stack@, idx as int)
            } else {
                r matches Err(e) && e matches Error::ArgTypeError(n, g) && n == idx && g@
                    == kind_name(slot(self.state.L.stack@, idx as int))
            },
    {
        T::read_arg(&self.state, idx)
    }

    /// Pushes a return value onto the frame.
    pub fn push<T: ToLua>(&mut self, val: T)
        requires
            old(self).state.L.wf(),
            val.push_req(old(self).state.L),
        ensures
            final(self).state.L.wf(),
            crate::value::stack_vv(final(self).state.L.stack@) == crate::value::stack_vv(
                old(self).state.L.stack@,
            ) + val.pushed(old(self).state.L),
            final(self).state.L.stack@.subrange(0, old(self).state.L.stack@.len() as int) == old(
                self,
            ).state.L.stack@,
            final(self).state.L.reg@ == old(self).state.L.reg@,
            final(self).state.L.free@ == old(self).state.L.free@,
            final(self).state.L.tables@.len() >= old(self).state.L.tables@.len(),
            forall|i: int|
                0 <= i < old(self).state.L.tables@.len() ==> final(self).state.L.tables@[i] == old(
                    self,
                ).state.L.tables@[i],
    {
        val.write(&mut self.state);
    }

    /// Validates the slot's kind once and hands back a positional
    /// marker for it.
    pub fn value<T: FromLuaFunctionStack>(&self, idx: i32) -> (r: Result<StackValue<T>, Error>)
        requires
            self.state.L.wf(),
        ensures
            if T::arg_ok(self.state.L.stack@, idx as int) {
                r matches Ok(sv) && sv.idx as int == resolve(self.state.L.stack@, idx as int)
            } else {
                r matches Err(e) && e matches Error::TypeError(t, g) && t@ == T::arg_kind() && g@
                    == kind_name(slot(self.state.L.stack@, idx as int))
            },
    {
        let abs = self.state.L.abs_index(idx);
        if T::valid(&self.state, idx) {
            proof {
                assert(slot(self.state.L.stack@, idx as int) == slot(
                    self.state.L.stack@,
                    resolve(self.state.L.stack@, idx as int),
                ));
            }
            Ok(StackValue { idx: abs, _marker: PhantomData })
        } else {
            let v = self.state.L.read_slot(idx);
            let tname = T::kind_string();
            Err(Error::TypeError(tname, v.typename()))
        }
    }

    /// Validates that argument `idx` is a table and runs the callback
    /// against its context: the callback receives exactly the
    /// validated slot's absolute root, and its declared outcome for
    /// that state and root is handed back.  A mismatch reports the
    /// per-argument error without running anything.
    pub fn with_arg<T, F: TableArgFn<T>>(&mut self, idx: i32, func: F) -> (r: Result<T, Error>)
        requires
            old(self).state.L.wf(),
        ensures
            final(self).state.L.wf(),
            final(self).state.L.stack@ == old(self).state.L.stack@,
            final(self).state.L.reg@ == old(self).state.L.reg@,
            final(self).state.L.free@ == old(self).state.L.free@,
            slot(old(self).state.L.stack@, idx as int) is Table ==> r == func.outcome(
                old(self).state.L,
                resolve(old(self).state.L.stack@, idx as int),
            ),
            !(slot(old(self).state.L.stack@, idx as int) is Table) ==> (r matches Err(e)
                && e matches Error::ArgTypeError(n, g) && n == idx && g@ == kind_name(
                slot(old(self).state.L.stack@, idx as int),
            ) && *final(self) == *old(self)),
    {
        let abs = self.state.L.abs_index(idx);
        match self.state.L.read_slot(idx) {
            LuaValue::Table(_) => {
                proof {
                    assert(slot(self.state.L.stack@, abs as int) == slot(
                        self.state.L.stack@,
                        idx as int,
                    ));
                }
                func.call_with(&mut self.state, TableContext { root: abs })
            },
            other => Err(Error::ArgTypeError(idx, other.typename())),
        }
    }
}

impl UncheckedFunctionStack {
    /// Validates the argument count, producing the message the
    /// unchecked path would raise as a foreign error.
    pub fn check_size(&self, range: core::ops::Range<i32>) -> (r: Result<(), String>)
        requires
            self.state.L.wf(),
        ensures
            ({
                let sz = self.state.L.stack@.len() as int;
                if range.start <= sz <= range.end {
                    r is Ok
                } else {
                    r matches Err(m) && m@ == crate::errors::display_str(
                        Error::ArgCount(range.start, range.end, sz as i32),
                    )
                }
            }),
    {
        let sz = self.state.L.gettop();
        if sz < range.start || sz > range.end {
            let e = Error::ArgCount(range.start, range.end, sz);
            Err(e.display())
        } else {
            Ok(())
        }
    }

    /// Reads argument `idx`; the caller vouches for its kind.
    pub fn arg<T: FromLuaFunctionStack>(&self, idx: i32) -> (r: T)
        requires
            self.state.L.wf(),
            T::arg_ok(self.state.L.stack@, idx as int),
        ensures
            r == T::arg_val(self.state.L.stack@, idx as int),
    {
        T::read_unchecked_arg(&self.state, idx)
    }

    /// Pushes a return value onto the frame.
    pub fn push<T: ToLua>(&mut self, val: T)
        requires
            old(self).state.L.wf(),
            val.push_req(old(self).state.L),
        ensures
            final(self).state.L.wf(),
            crate::value::stack_vv(final(self).state.L.stack@) == crate::value::stack_vv(
                old(self).state.L.stack@,
            ) + val.pushed(old(self).state.L),
            final(self).state.L.reg@ == old(self).state.L.reg@,
            final(self).state.L.free@ == old(self).state.L.free@,
    {
        val.write(&mut self.state);
    }
}

impl<T> ToLua for StackValue<T> {
    open spec fn pushed(&self, s: crate::rt::lua_State) -> Seq<VV> {
        seq![vv(slot(s.stack@, self.idx as int))]
    }

    open spec fn push_req(&self, s: crate::rt::lua_State) -> bool {
        s.stack@.len() < MAXCSTACK && resolve(s.stack@, self.idx as int) != 0
    }

    fn write(&self, state: &mut WeakState) {
        let ghost s0 = state.L.stack@;
        state.L.dup_slot(self.idx);
        proof {
            crate::push::lemma_stack_vv_push(s0, final(state).L.stack@.last());
            assert(final(state).L.stack@.subrange(0, s0.len() as int) =~= s0);
        }
    }
}

} // verus!
