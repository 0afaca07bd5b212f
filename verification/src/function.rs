//! Callable foreign values and protected invocation.
//!
//! A `Function` wraps an anchored foreign function.  Calling it is a
//! protected call: the callee — a native closure the embedder
//! registered — runs against its own frame, and every failure class
//! comes back as a status instead of unwinding across the boundary.

use vstd::prelude::*;
use vstd::string::StringExecFns;
use crate::borrow::LuaRef;
use crate::context::Context;
use crate::errors::Error;
use crate::errors::display_str;
use crate::push::Push;
use crate::read::Read;
use crate::size::Size;
use crate::rt::lua_State;
use crate::rt::MAXCSTACK;
use crate::rt::RegSlot;
use crate::rt::slot;
use crate::rt::reg_val;
use crate::value::vv;
use crate::stack::FunctionStack;
use crate::value::LuaValue;
use crate::value::VV;

verus! {

/// The status a protected call reports for a runtime fault.
pub const LUA_ERRRUN: i32 = 2;

/// The status load reports for malformed source text.
pub const LUA_ERRSYNTAX: i32 = 3;

/// The status a protected call reports for allocator exhaustion.
pub const LUA_ERRMEM: i32 = 4;

/// The status a protected call reports when the error handler itself
/// faulted.
pub const LUA_ERRERR: i32 = 5;

/// The embedder's dispatcher: runs the native closure registered
/// under `id` against a call frame.  The callee may do anything to
/// the frame except break well-formedness or drop tables; nothing
/// more is assumed of it.
pub trait LuaDispatch {
    /// Runs the native closure `id` with `st` as its frame, returning
    /// the frame it left and the closure's outcome: a produced
    /// return-slot count, or a native error.
    fn dispatch(&self, id: u64, st: lua_State) -> (r: (lua_State, Result<i32, Error>))
        requires
            st.wf(),
        ensures
            r.0.wf(),
            r.0.tables@.len() >= st.tables@.len(),
    ;
}

/// A native value standing for a registered native closure: pushing
/// it exposes the closure as a callable foreign value under the
/// identifier the embedder chose.
pub struct NativeRef {
    pub id: u64,
}

impl Push for NativeRef {
    open spec fn pushed(&self, reg: Seq<RegSlot>) -> Seq<VV> {
        seq![VV::VFn(self.id)]
    }

    open spec fn push_req(&self, stack_len: int, reg: Seq<RegSlot>) -> bool {
        stack_len < MAXCSTACK
    }

    fn push(&self, cxt: &mut Context) {
        proof {
            crate::push::lemma_stack_vv_push(cxt.handle.stack@, LuaValue::Function(self.id));
        }
        cxt.handle.push_value(LuaValue::Function(self.id));
    }
}

impl Size for NativeRef {
    open spec fn size_spec() -> int {
        1
    }

    fn size() -> i32 {
        1
    }
}

/// A callable native handle to a foreign function value.
#[derive(Debug, PartialEq, Eq)]
pub struct Function {
    pub ptr: LuaRef,
}

impl Size for Function {
    open spec fn size_spec() -> int {
        1
    }

    fn size() -> i32 {
        1
    }
}

impl Read for Function {
    open spec fn read_req(stack: Seq<LuaValue>, reg_len: int, idx: int) -> bool {
        <LuaRef as Read>::read_req(stack, reg_len, idx)
    }

    open spec fn read_val(
        stack: Seq<LuaValue>,
        reg: Seq<RegSlot>,
        free: Seq<i32>,
        idx: int,
    ) -> Function {
        Function { ptr: <LuaRef as Read>::read_val(stack, reg, free, idx) }
    }

    open spec fn read_stack(stack: Seq<LuaValue>, idx: int) -> Seq<LuaValue> {
        <LuaRef as Read>::read_stack(stack, idx)
    }

    open spec fn read_reg(
        stack: Seq<LuaValue>,
        reg: Seq<RegSlot>,
        free: Seq<i32>,
        idx: int,
    ) -> (Seq<RegSlot>, Seq<i32>) {
        <LuaRef as Read>::read_reg(stack, reg, free, idx)
    }

    open spec fn check_spec(stack: Seq<LuaValue>, idx: int) -> bool {
        slot(stack, idx) is Function
    }

    fn read(cxt: &mut Context, idx: i32) -> (r: Function) {
        let ptr = <LuaRef as Read>::read(cxt, idx);
        Function { ptr }
    }

    fn check(cxt: &Context, idx: i32) -> bool {
        match cxt.handle.read_slot(idx) {
            LuaValue::Function(_) => true,
            _ => false,
        }
    }
}

/// The fixed trampoline exit: translates a native closure's outcome
/// into what crosses the boundary.  `Ok(n)` reports `n` return slots
/// and touches nothing.  `Err` marshals the error's display text —
/// verbatim — onto the frame and hands back the message a foreign
/// raise would carry: the only point where a native error becomes a
/// foreign-level fault.
pub fn trampoline_result(stack: &mut FunctionStack, outcome: Result<i32, Error>) -> (r: Result<
    i32,
    String,
>)
    requires
        old(stack).state.L.wf(),
        old(stack).state.L.stack@.len() < MAXCSTACK,
    ensures
        final(stack).state.L.wf(),
        match outcome {
            Ok(n) => r == Result::<i32, String>::Ok(n) && *final(stack) == *old(stack),
            Err(e) => r matches Err(m) && m@ == display_str(e) && final(stack).state.L.stack@
                == old(stack).state.L.stack@.push(LuaValue::Str(m)),
        },
{
    match outcome {
        Ok(n) => Ok(n),
        Err(e) => {
            let m = e.display();
            let m2 = m.clone();
            stack.state.L.push_value(LuaValue::Str(m2));
            Err(m)
        },
    }
}

/// A run of `k` nil slots.
pub open spec fn nils(k: int) -> Seq<LuaValue> {
    Seq::new(k as nat, |i: int| LuaValue::Nil)
}

/// What a protected call keeps of the callee's frame: the topmost `n`
/// slots the callee reported (all of them when it reported more than
/// it produced), adjusted to the declared result arity by padding
/// with nil or dropping the extras.
pub open spec fn spec_adjust(frame: Seq<LuaValue>, n: int, want: int) -> Seq<LuaValue> {
    let nr = if n < 0 {
        0
    } else {
        n
    };
    let taken = if nr <= frame.len() {
        frame.subrange(frame.len() - nr, frame.len() as int)
    } else {
        frame
    };
    if want <= taken.len() {
        taken.subrange(0, want)
    } else {
        taken + nils(want - taken.len())
    }
}

impl Function {
    /// Installs the callee and marshals the arguments, then detaches
    /// them as the callee's whole frame: what the callee will observe
    /// is exactly the marshalled arguments, in order.  When the
    /// anchored value is not callable, nothing is detached and the
    /// caller's state is untouched.
    pub fn call_begin<T: Push>(&self, ctx: &mut Context, args: T) -> (r: Option<(u64, Vec<LuaValue>)>)
        requires
            old(ctx).handle.wf(),
            self.ptr.key != -1,
            1 <= self.ptr.key <= old(ctx).handle.reg@.len(),
            old(ctx).handle.reg@[self.ptr.key - 1] is Val,
            old(ctx).handle.stack@.len() + 1 < MAXCSTACK,
            args.push_req(old(ctx).handle.stack@.len() as int + 1, old(ctx).handle.reg@),
            args.pushed(old(ctx).handle.reg@).len() + old(ctx).handle.stack@.len() + 1
                <= MAXCSTACK,
        ensures
            final(ctx).handle.wf(),
            final(ctx).handle.stack@ == old(ctx).handle.stack@,
            final(ctx).handle.reg@ == old(ctx).handle.reg@,
            final(ctx).handle.free@ == old(ctx).handle.free@,
            final(ctx).handle.tables@ == old(ctx).handle.tables@,
            final(ctx).owner == old(ctx).owner,
            match r {
                None => !(reg_val(old(ctx).handle.reg@, self.ptr.key as int) is Function),
                Some(p) => reg_val(old(ctx).handle.reg@, self.ptr.key as int)
                    == LuaValue::Function(p.0) && crate::value::stack_vv(p.1@) == args.pushed(
                    old(ctx).handle.reg@,
                ) && forall|j: int|
                    0 <= j < p.1@.len() ==> old(ctx).handle.val_ok(#[trigger] p.1@[j]),
            },
    {
        let len0 = ctx.handle.gettop();
        let ghost reg0 = ctx.handle.reg@;
        let ghost stack0 = ctx.handle.stack@;
        ctx.handle.reg_push(self.ptr.key);
        let ghost mid1 = ctx.handle.stack@;
        args.push(ctx);
        proof {
            lemma_vv_len_fn(ctx.handle.stack@);
            lemma_vv_len_fn(mid1);
            assert(ctx.handle.stack@.len() == stack0.len() + 1 + args.pushed(reg0).len());
            assert(ctx.handle.stack@.subrange(0, len0 as int + 1) == mid1);
            assert(ctx.handle.stack@[len0 as int] == mid1[len0 as int]);
            assert(ctx.handle.stack@[len0 as int] == reg_val(reg0, self.ptr.key as int));
        }
        let total = ctx.handle.gettop();
        let nargs = (total - len0 - 1) as usize;
        let fv = ctx.handle.read_slot(len0 + 1);
        let fid = match fv {
            LuaValue::Function(f) => f,
            _ => {
                // the anchored value is not callable: the runtime
                // reports this as a runtime fault before any call
                ctx.handle.pop_n(nargs + 1);
                proof {
                    assert(ctx.handle.stack@ =~= stack0);
                }
                return None;
            },
        };
        // the arguments become the callee's whole frame
        let ghost pushed_stack = ctx.handle.stack@;
        let split_at = (len0 + 1) as usize;
        let frame: Vec<LuaValue> = ctx.handle.stack.split_off(split_at);
        ctx.handle.pop_n(1);
        proof {
            assert(ctx.handle.stack@ =~= stack0);
            let pv = args.pushed(reg0);
            assert forall|j: int| 0 <= j < frame@.len() implies crate::value::stack_vv(frame@)[j]
                == pv[j] by {
                assert(crate::value::stack_vv(frame@)[j] == vv(frame@[j]));
                assert(frame@[j] == pushed_stack[len0 + 1 + j]);
                assert(crate::value::stack_vv(pushed_stack)[len0 + 1 + j] == vv(
                    pushed_stack[len0 + 1 + j],
                ));
            }
            lemma_vv_len_fn(frame@);
            assert(crate::value::stack_vv(frame@) =~= args.pushed(reg0));
            assert forall|j: int| 0 <= j < frame@.len() implies old(ctx).handle.val_ok(
                #[trigger] frame@[j],
            ) by {
                assert(frame@[j] == pushed_stack[len0 + 1 + j]);
            }
        }
        Some((fid, frame))
    }

    /// Completes a protected call: adjusts the callee's frame to the
    /// declared result arity and produces the declared result — or,
    /// for a raised native error, its display text, verbatim.  The
    /// result is fixed for every frame and every outcome, and the
    /// caller's state comes back exactly as it was.
    #[verifier::rlimit(60)]
    pub fn call_finish<R: Read + Size>(
        ctx: &mut Context,
        frame: Vec<LuaValue>,
        outcome: Result<i32, Error>,
    ) -> (r: Result<R, String>)
        requires
            old(ctx).handle.wf(),
            old(ctx).handle.stack@.len() + R::size_spec() <= MAXCSTACK,
            forall|j: int| 0 <= j < frame@.len() ==> old(ctx).handle.val_ok(#[trigger] frame@[j]),
            forall|s2: Seq<LuaValue>, rl: int| #[trigger] R::read_req(s2, rl, -1),
            forall|s2: Seq<LuaValue>| #[trigger] R::read_stack(s2, -1) == s2,
            forall|s2: Seq<LuaValue>, rg: Seq<RegSlot>, fr: Seq<i32>|
                #[trigger] R::read_reg(s2, rg, fr, -1) == (rg, fr),
        ensures
            final(ctx).handle.wf(),
            final(ctx).handle.stack@ == old(ctx).handle.stack@,
            final(ctx).handle.reg@ == old(ctx).handle.reg@,
            final(ctx).handle.free@ == old(ctx).handle.free@,
            final(ctx).handle.tables@ == old(ctx).handle.tables@,
            final(ctx).owner == old(ctx).owner,
            match outcome {
                Ok(n) => r == Result::<R, String>::Ok(
                    R::read_val(
                        old(ctx).handle.stack@ + spec_adjust(frame@, n as int, R::size_spec()),
                        old(ctx).handle.reg@,
                        old(ctx).handle.free@,
                        -1,
                    ),
                ),
                Err(e) => r matches Err(m) && m@ == display_str(e),
            },
    {
        let ghost stack0 = ctx.handle.stack@;
        match outcome {
            Ok(n) => {
                let mut results = frame;
                let ghost frame0 = results@;
                let nr: usize = if n < 0 {
                    0
                } else {
                    n as usize
                };
                // the topmost `nr` frame slots are the reported results
                if nr < results.len() {
                    let tail = results.split_off(results.len() - nr);
                    results = tail;
                }
                let ghost taken = if nr as int <= frame0.len() {
                    frame0.subrange(frame0.len() - nr as int, frame0.len() as int)
                } else {
                    frame0
                };
                proof {
                    assert(results@ =~= taken);
                    assert forall|j: int| 0 <= j < results@.len() implies old(ctx).handle.val_ok(
                        #[trigger] results@[j],
                    ) by {
                        assert(results@[j] == frame0[frame0.len() - results@.len() + j]);
                    }
                }
                // the protected call then adjusts them to the declared
                // arity: extras are dropped, missing slots become nil
                let rsz = R::size();
                let want: usize = if rsz <= 0 {
                    0
                } else {
                    rsz as usize
                };
                if results.len() > want {
                    results.truncate(want);
                }
                proof {
                    if want <= taken.len() {
                        assert(results@ =~= taken.subrange(0, want as int));
                    } else {
                        assert(results@ =~= taken + nils(results@.len() - taken.len()));
                    }
                }
                if results.len() < want {
                    while results.len() < want
                        invariant
                            want <= 8001,
                            taken.len() < want,
                            results@.len() <= want,
                            results@.len() >= taken.len(),
                            results@ == taken + nils(results@.len() - taken.len()),
                            forall|j: int|
                                0 <= j < results@.len() ==> old(ctx).handle.val_ok(
                                    #[trigger] results@[j],
                                ),
                        decreases want - results@.len(),
                    {
                        results.push(LuaValue::Nil);
                        proof {
                            assert(results@ =~= taken + nils(results@.len() - taken.len()));
                        }
                    }
                }
                let ghost target = spec_adjust(frame0, n as int, R::size_spec());
                proof {
                    assert(results@.len() == want);
                    if R::size_spec() <= taken.len() {
                        assert(results@ =~= target);
                    } else {
                        assert(results@ =~= target);
                    }
                }
                let mut i: usize = 0;
                let total_want = results.len();
                while i < total_want
                    invariant
                        ctx.handle.wf(),
                        i <= total_want,
                        total_want == target.len(),
                        target.len() <= 8001,
                        ctx.handle.stack@ == stack0 + target.subrange(0, i as int),
                        stack0.len() + target.len() <= MAXCSTACK,
                        results@ == target.subrange(i as int, target.len() as int),
                        forall|j: int|
                            0 <= j < results@.len() ==> ctx.handle.val_ok(#[trigger] results@[j]),
                        ctx.handle.reg@ == old(ctx).handle.reg@,
                        ctx.handle.free@ == old(ctx).handle.free@,
                        ctx.handle.tables@ == old(ctx).handle.tables@,
                        ctx.owner == old(ctx).owner,
                    decreases total_want - i,
                {
                    let v = results.remove(0);
                    ctx.handle.push_value(v);
                    i = i + 1;
                    proof {
                        assert(ctx.handle.stack@ =~= stack0 + target.subrange(0, i as int));
                        assert(results@ =~= target.subrange(i as int, target.len() as int));
                    }
                }
                proof {
                    assert(ctx.handle.stack@ =~= stack0 + target);
                }
                let out = R::read(ctx, -1);
                ctx.pop_discard(total_want as i32);
                proof {
                    assert(ctx.handle.stack@ =~= stack0);
                }
                Ok(out)
            },
            Err(e) => {
                // a raised native error: its display text crosses the
                // boundary verbatim
                Err(e.display())
            },
        }
    }

    /// Performs a protected call of the anchored function with the
    /// marshalled arguments, expecting `R`'s footprint of results: the
    /// marshalled arguments become the callee's whole frame
    /// ([`Function::call_begin`]), the embedder runs the callee, and
    /// the completion ([`Function::call_finish`]) fixes the result for
    /// whatever came back.  Whatever the callee does, the caller's
    /// stack comes back exactly as it was; an uncallable referent is
    /// reported without any call; and every error text is either that
    /// report or a native error's display text, verbatim.
    ///
    /// `R` must read without consuming or anchoring: an anchoring
    /// result type would eat a slot of the adjusted results beyond its
    /// own declared arity, unbalancing the exit path — and every push
    /// must be matched by a pop on every exit path — so such results
    /// go through an explicit read of the declared result slots
    /// instead.
    pub fn call<T: Push, R: Read + Size, D: LuaDispatch>(
        &self,
        ctx: &mut Context,
        disp: &D,
        args: T,
    ) -> (r: Result<R, String>)
        requires
            old(ctx).handle.wf(),
            self.ptr.key != -1,
            1 <= self.ptr.key <= old(ctx).handle.reg@.len(),
            old(ctx).handle.reg@[self.ptr.key - 1] is Val,
            old(ctx).handle.stack@.len() + 1 < MAXCSTACK,
            old(ctx).handle.stack@.len() + R::size_spec() <= MAXCSTACK,
            args.push_req(old(ctx).handle.stack@.len() as int + 1, old(ctx).handle.reg@),
            args.pushed(old(ctx).handle.reg@).len() + old(ctx).handle.stack@.len() + 1
                <= MAXCSTACK,
            forall|s2: Seq<LuaValue>, rl: int| #[trigger] R::read_req(s2, rl, -1),
            forall|s2: Seq<LuaValue>| #[trigger] R::read_stack(s2, -1) == s2,
            forall|s2: Seq<LuaValue>, rg: Seq<RegSlot>, fr: Seq<i32>|
                #[trigger] R::read_reg(s2, rg, fr, -1) == (rg, fr),
        ensures
            final(ctx).handle.wf(),
            final(ctx).handle.stack@ == old(ctx).handle.stack@,
            final(ctx).handle.tables@.len() >= old(ctx).handle.tables@.len(),
            final(ctx).owner == old(ctx).owner,
            !(reg_val(old(ctx).handle.reg@, self.ptr.key as int) is Function) <==> (
            r matches Err(m) && m@ == "attempt to call a non-function value"@),
            !(reg_val(old(ctx).handle.reg@, self.ptr.key as int) is Function)
                ==> (final(ctx).handle.reg@ == old(ctx).handle.reg@
                && final(ctx).handle.free@ == old(ctx).handle.free@
                && final(ctx).handle.tables@ == old(ctx).handle.tables@),
            reg_val(old(ctx).handle.reg@, self.ptr.key as int) is Function ==> (match r {
                Ok(v) => exists|fr2: Seq<LuaValue>, n: i32, rg: Seq<RegSlot>, fe: Seq<i32>|
                    v == #[trigger] R::read_val(
                        old(ctx).handle.stack@ + spec_adjust(fr2, n as int, R::size_spec()),
                        rg,
                        fe,
                        -1,
                    ),
                Err(m) => exists|e: Error| m@ == #[trigger] display_str(e),
            }),
    {
        let begun = self.call_begin(ctx, args);
        let (fid, frame) = match begun {
            Some(p) => p,
            None => {
                proof {
                    reveal_strlit("attempt to call a non-function value");
                    reveal_strlit("Lua runtime error: ");
                    reveal_strlit("Lua syntax error: ");
                    reveal_strlit("invalid type: expected '");
                    reveal_strlit("memory allocation error");
                    reveal_strlit("error while running the error handler function");
                    reveal_strlit("wrong argument count (");
                    reveal_strlit("type error #");
                }
                return Err(String::from_str("attempt to call a non-function value"));
            },
        };
        // hand the embedder the frame as the callee's whole state
        let mut callee = lua_State::init();
        core::mem::swap(&mut callee, &mut ctx.handle);
        let mut saved: Vec<LuaValue> = frame;
        core::mem::swap(&mut callee.stack, &mut saved);
        // saved now holds the caller's slots; callee sees the frame
        proof {
            assert forall|i: int| 0 <= i < callee.stack@.len() implies callee.val_ok(
                #[trigger] callee.stack@[i],
            ) by {}
            assert(callee.wf());
        }
        let (mut st2, res) = disp.dispatch(fid, callee);
        let ghost st2stack = st2.stack@;
        // reattach the caller's slots; keep the callee's frame aside
        core::mem::swap(&mut st2.stack, &mut saved);
        core::mem::swap(&mut ctx.handle, &mut st2);
        proof {
            assert(ctx.handle.stack@ == old(ctx).handle.stack@);
            assert forall|i: int| 0 <= i < ctx.handle.stack@.len() implies ctx.handle.val_ok(
                #[trigger] ctx.handle.stack@[i],
            ) by {
                assert(old(ctx).handle.val_ok(old(ctx).handle.stack@[i]));
            }
            assert(ctx.handle.wf());
            assert(saved@ == st2stack);
            assert forall|j: int| 0 <= j < saved@.len() implies ctx.handle.val_ok(
                #[trigger] saved@[j],
            ) by {}
        }
        let ghost mid = ctx.handle;
        let ghost gres = res;
        let out = Function::call_finish::<R>(ctx, saved, res);
        proof {
            match gres {
                Ok(n) => {
                    assert(out matches Ok(v) && v == R::read_val(
                        mid.stack@ + spec_adjust(st2stack, n as int, R::size_spec()),
                        mid.reg@,
                        mid.free@,
                        -1,
                    ));
                },
                Err(e) => {
                    assert(out matches Err(m) && m@ == display_str(e));
                    crate::errors::lemma_display_not_uncallable(e);
                },
            }
        }
        out
    }
}

/// A stack and its identity sequence have the same length.
proof fn lemma_vv_len_fn(s: Seq<LuaValue>)
    ensures
        crate::value::stack_vv(s).len() == s.len(),
{
}

} // verus!
