//! A verified binding bridge for an embedded, stack-based scripting runtime.
//!
//! The runtime's observable surface — a value stack addressed by signed
//! indices, a registry with a free-list of reusable integer keys, and an
//! arena of tables — is modelled by [`rt::lua_State`].  Every layer of the
//! bridge is implemented and proved against that model:
//!
//! * the value transfer protocol, positional ([`Push`], [`Read`],
//!   [`Size`]) and typed ([`ToLua`], [`FromLua`], [`LuaSize`]), with the
//!   exact integer view of the runtime's number encoding in `num`;
//! * anchored references ([`LuaRef`], [`Ref`]) over the registry's
//!   free-list protocol, with the lifecycle laws in `laws`;
//! * composite views (`collections`, [`Table`], [`TableContext`]) and
//!   the fast-path field accessor (`fastpath`), proved equivalent to
//!   the generic entry points;
//! * the closure trampoline ([`FunctionStack`], [`NativeRef`],
//!   [`Function::call`]) and the protected-call error taxonomy
//!   ([`Error`], [`pcall_errck`], [`trampoline_result`]).
//!
//! The engine itself — interpreter, collector, allocator — stays
//! outside: what cannot be stated of it here lives in the unverified
//! rim beside this crate.
#![allow(non_camel_case_types)]

use vstd::prelude::*;
use vstd::string::StringExecFns;

mod borrow;
mod context;
mod errors;
mod fastpath;
mod fmt;
mod function;
mod num;
mod push;
mod read;
mod rt;
mod size;
mod stack;
mod state;
mod table;
mod transfer;
mod value;
pub mod collections;
pub mod laws;
mod traceback;

pub use borrow::LuaRef;
pub use context::Context;
pub use errors::Error;
pub use errors::display_str;
pub use fastpath::{flu_getlfield, flu_setlfield, LUA_GLOBALSINDEX, LUA_REGISTRYINDEX};
pub use fmt::int_to_string;
pub use function::{Function, LuaDispatch, NativeRef, trampoline_result};
pub use function::{LUA_ERRERR, LUA_ERRMEM, LUA_ERRRUN, LUA_ERRSYNTAX};
pub use num::{f64_bits_of_int, int_of_f64_bits, trunc_of_f64_bits};
pub use push::Push;
pub use read::Read;
pub use rt::lua_State;
pub use size::Size;
pub use stack::{FromLuaFunctionStack, FunctionStack, StackValue, TableArgFn, UncheckedFunctionStack};
pub use state::{Ref, State, WeakState};
pub use table::{IsTable, Table, TableBuilder, TableContext, TableInit};
pub use transfer::{FromLua, LuaSize, ToLua};
pub use value::{LuaValue, NumBits, TKey};
pub use traceback::{flu_traceback, Frame, FrameKind, LocalValue};

verus! {

/// The unit-like marker that marshals as the runtime's `nil`.
pub struct nil;

/// Classifies a protected load's or call's status code into the
/// native error taxonomy: success if and only if the status is zero;
/// a runtime error carrying the formatted message found on the top of
/// the stack; a syntax error, likewise with the loader's message;
/// allocator exhaustion with no stack interaction (no message is
/// safely retrievable); or a fault inside the error handler itself.
pub fn pcall_errck(state: &WeakState, ret: i32) -> (r: Result<(), Error>)
    requires
        state.L.wf(),
        ret == 0 || ret == function::LUA_ERRRUN || ret == function::LUA_ERRSYNTAX || ret
            == function::LUA_ERRMEM || ret == function::LUA_ERRERR,
    ensures
        r is Ok <==> ret == 0,
        ret == function::LUA_ERRRUN && rt::slot(state.L.stack@, -1) is Str ==> (r matches Err(e)
            && e matches Error::RuntimeError(m) && m@ == rt::slot(state.L.stack@, -1)->Str_0@),
        ret == function::LUA_ERRRUN && !(rt::slot(state.L.stack@, -1) is Str) ==> (r matches Err(
            e,
        ) && e matches Error::RuntimeError(m) && m@
            == "unable to read error message from stack"@),
        ret == function::LUA_ERRSYNTAX && rt::slot(state.L.stack@, -1) is Str ==> (r matches Err(
            e,
        ) && e matches Error::SyntaxError(m) && m@ == rt::slot(state.L.stack@, -1)->Str_0@),
        ret == function::LUA_ERRSYNTAX && !(rt::slot(state.L.stack@, -1) is Str) ==> (
        r matches Err(e) && e matches Error::SyntaxError(m) && m@
            == "unable to read error message from stack"@),
        ret == function::LUA_ERRMEM ==> r == Result::<(), Error>::Err(Error::MemoryError),
        ret == function::LUA_ERRERR ==> r == Result::<(), Error>::Err(Error::ErrorHandler),
{
    if ret == 0 {
        Ok(())
    } else if ret == function::LUA_ERRRUN {
        match state.L.read_slot(-1) {
            LuaValue::Str(m) => Err(Error::RuntimeError(m)),
            _ => Err(
                Error::RuntimeError(
                    String::from_str("unable to read error message from stack"),
                ),
            ),
        }
    } else if ret == function::LUA_ERRSYNTAX {
        match state.L.read_slot(-1) {
            LuaValue::Str(m) => Err(Error::SyntaxError(m)),
            _ => Err(
                Error::SyntaxError(
                    String::from_str("unable to read error message from stack"),
                ),
            ),
        }
    } else if ret == function::LUA_ERRMEM {
        Err(Error::MemoryError)
    } else {
        Err(Error::ErrorHandler)
    }
}

/// Validates that the slot at `idx` holds the foreign kind tagged
/// `ty`, reporting a per-argument type error otherwise.
pub fn arg_typeck(state: &WeakState, idx: i32, ty: i32) -> (r: Result<(), Error>)
    requires
        state.L.wf(),
    ensures
        value::kind_tag(rt::slot(state.L.stack@, idx as int)) == ty ==> r is Ok,
        value::kind_tag(rt::slot(state.L.stack@, idx as int)) != ty ==> (r matches Err(e)
            && e matches Error::ArgTypeError(n, g) && n == idx && g@ == value::kind_name(
            rt::slot(state.L.stack@, idx as int),
        )),
{
    let actual = state.L.type_at(idx);
    if actual != ty {
        let v = state.L.read_slot(idx);
        Err(Error::ArgTypeError(idx, v.typename()))
    } else {
        Ok(())
    }
}

/// The unchecked variant: the caller vouches for the kind, as the
/// runtime would otherwise raise a foreign error instead of
/// returning.
pub fn arg_unchecked_typeck(state: &WeakState, idx: i32, ty: i32)
    requires
        state.L.wf(),
        value::kind_tag(rt::slot(state.L.stack@, idx as int)) == ty,
{
}

/// The diagnostic kind name of the slot at `idx`.
pub fn typename(state: &WeakState, idx: i32) -> (s: String)
    requires
        state.L.wf(),
    ensures
        s@ == value::kind_name(rt::slot(state.L.stack@, idx as int)),
{
    let v = state.L.read_slot(idx);
    v.typename()
}

/// The absolute stack position an acceptable index addresses, or 0
/// when it addresses no slot.
pub fn abs_idx(state: &WeakState, idx: i32) -> (r: i32)
    requires
        state.L.wf(),
    ensures
        r as int == rt::resolve(state.L.stack@, idx as int),
{
    state.L.abs_index(idx)
}

} // verus!
