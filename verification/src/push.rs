//! The write half of the value transfer protocol for [`Context`].
//!
//! A push appends exactly the written form of the value to the stack
//! and touches nothing else: not the slots below, not the registry,
//! not the tables.  The written form is stated per type through
//! [`Push::pushed`].

use vstd::prelude::*;
use vstd::string::StringExecFns;
use crate::nil;
use crate::context::Context;
use crate::borrow::LuaRef;
use crate::num::int_bits;
use crate::rt::MAXCSTACK;
use crate::rt::RegSlot;
use crate::rt::reg_val;
use crate::value::LuaValue;
use crate::value::NumBits;
use crate::value::VV;
use crate::value::vv;
use crate::value::stack_vv;

verus! {

/// A stack and its identity sequence have the same length.
pub proof fn lemma_vv_len_eq(s: Seq<LuaValue>)
    ensures
        stack_vv(s).len() == s.len(),
{
}

/// One append of values to a stack, seen through value identities.
pub proof fn lemma_stack_vv_push(s: Seq<LuaValue>, v: LuaValue)
    ensures
        stack_vv(s.push(v)) == stack_vv(s) + seq![vv(v)],
{
    assert(stack_vv(s.push(v)) =~= stack_vv(s) + seq![vv(v)]);
}

/// The write capability: pushing a native value's foreign form.
pub trait Push: Sized {
    /// The identities of the slots the push appends, which may depend
    /// on the registry (an anchored reference pushes what it anchors).
    spec fn pushed(&self, reg: Seq<RegSlot>) -> Seq<VV>;

    /// What the push needs of the state: room on the stack, and for
    /// anchored references a live key.
    spec fn push_req(&self, stack_len: int, reg: Seq<RegSlot>) -> bool;

    /// Appends the value's foreign form: exactly [`Push::pushed`] lands
    /// on the stack, and no other state changes.
    fn push(&self, cxt: &mut Context)
        requires
            old(cxt).handle.wf(),
            self.push_req(old(cxt).handle.stack@.len() as int, old(cxt).handle.reg@),
        ensures
            final(cxt).handle.wf(),
            stack_vv(final(cxt).handle.stack@) == stack_vv(old(cxt).handle.stack@)
                + self.pushed(old(cxt).handle.reg@),
            final(cxt).handle.stack@.subrange(0, old(cxt).handle.stack@.len() as int) == old(
                cxt,
            ).handle.stack@,
            final(cxt).handle.reg@ == old(cxt).handle.reg@,
            final(cxt).handle.free@ == old(cxt).handle.free@,
            final(cxt).handle.tables@ == old(cxt).handle.tables@,
            final(cxt).owner == old(cxt).owner,
    ;
}

impl Push for nil {
    open spec fn pushed(&self, reg: Seq<RegSlot>) -> Seq<VV> {
        seq![VV::VNil]
    }

    open spec fn push_req(&self, stack_len: int, reg: Seq<RegSlot>) -> bool {
        stack_len < MAXCSTACK
    }

    fn push(&self, cxt: &mut Context) {
        proof {
            lemma_stack_vv_push(cxt.handle.stack@, LuaValue::Nil);
        }
        cxt.handle.push_value(LuaValue::Nil);
    }
}

impl Push for bool {
    open spec fn pushed(&self, reg: Seq<RegSlot>) -> Seq<VV> {
        seq![VV::VBool(*self)]
    }

    open spec fn push_req(&self, stack_len: int, reg: Seq<RegSlot>) -> bool {
        stack_len < MAXCSTACK
    }

    fn push(&self, cxt: &mut Context) {
        proof {
            lemma_stack_vv_push(cxt.handle.stack@, LuaValue::Bool(*self));
        }
        cxt.handle.push_value(LuaValue::Bool(*self));
    }
}

impl Push for String {
    open spec fn pushed(&self, reg: Seq<RegSlot>) -> Seq<VV> {
        seq![VV::VStr(self@)]
    }

    open spec fn push_req(&self, stack_len: int, reg: Seq<RegSlot>) -> bool {
        stack_len < MAXCSTACK
    }

    fn push(&self, cxt: &mut Context) {
        let c = self.clone();
        proof {
            lemma_stack_vv_push(cxt.handle.stack@, LuaValue::Str(c));
        }
        cxt.handle.push_value(LuaValue::Str(c));
    }
}

impl<'a> Push for &'a str {
    open spec fn pushed(&self, reg: Seq<RegSlot>) -> Seq<VV> {
        seq![VV::VStr(self@)]
    }

    open spec fn push_req(&self, stack_len: int, reg: Seq<RegSlot>) -> bool {
        stack_len < MAXCSTACK
    }

    fn push(&self, cxt: &mut Context) {
        let c = String::from_str(self);
        proof {
            lemma_stack_vv_push(cxt.handle.stack@, LuaValue::Str(c));
        }
        cxt.handle.push_value(LuaValue::Str(c));
    }
}

impl Push for NumBits {
    open spec fn pushed(&self, reg: Seq<RegSlot>) -> Seq<VV> {
        seq![VV::VNum(self.0)]
    }

    open spec fn push_req(&self, stack_len: int, reg: Seq<RegSlot>) -> bool {
        stack_len < MAXCSTACK
    }

    fn push(&self, cxt: &mut Context) {
        proof {
            lemma_stack_vv_push(cxt.handle.stack@, LuaValue::Number(self.0));
        }
        cxt.handle.push_value(LuaValue::Number(self.0));
    }
}

impl<T: Push + crate::size::Size> Push for Option<T> {
    open spec fn pushed(&self, reg: Seq<RegSlot>) -> Seq<VV> {
        match self {
            Some(v) => v.pushed(reg),
            None => seq![VV::VNil],
        }
    }

    /// An absent value writes one nil, so only single-slot inner
    /// footprints are admitted: the optional's claimed footprint then
    /// equals its actual pushes in both forms.
    open spec fn push_req(&self, stack_len: int, reg: Seq<RegSlot>) -> bool {
        T::size_spec() == 1 && match self {
            Some(v) => v.push_req(stack_len, reg),
            None => stack_len < MAXCSTACK,
        }
    }

    fn push(&self, cxt: &mut Context) {
        match self {
            Some(v) => v.push(cxt),
            None => {
                proof {
                    lemma_stack_vv_push(cxt.handle.stack@, LuaValue::Nil);
                }
                cxt.handle.push_value(LuaValue::Nil);
            },
        }
    }
}

impl Push for LuaRef {
    open spec fn pushed(&self, reg: Seq<RegSlot>) -> Seq<VV> {
        if self.key == -1 {
            seq![VV::VNil]
        } else {
            seq![vv(reg_val(reg, self.key as int))]
        }
    }

    open spec fn push_req(&self, stack_len: int, reg: Seq<RegSlot>) -> bool {
        stack_len < MAXCSTACK && (self.key == -1 || (1 <= self.key <= reg.len() && reg[self.key
            - 1] is Val))
    }

    fn push(&self, cxt: &mut Context) {
        let ghost s0 = cxt.handle.stack@;
        cxt.handle.reg_push(self.key);
        proof {
            lemma_stack_vv_push(s0, final(cxt).handle.stack@.last());
        }
    }
}

impl<A: Push, B: Push> Push for (A, B) {
    open spec fn pushed(&self, reg: Seq<RegSlot>) -> Seq<VV> {
        self.0.pushed(reg) + self.1.pushed(reg)
    }

    open spec fn push_req(&self, stack_len: int, reg: Seq<RegSlot>) -> bool {
        self.0.push_req(stack_len, reg) && self.1.push_req(
            stack_len + self.0.pushed(reg).len(),
            reg,
        )
    }

    fn push(&self, cxt: &mut Context) {
        let ghost s0 = cxt.handle.stack@;
        let ghost reg0 = cxt.handle.reg@;
        proof {
            lemma_vv_len_eq(s0);
        }
        self.0.push(cxt);
        proof {
            lemma_vv_len_eq(cxt.handle.stack@);
        }
        self.1.push(cxt);
        proof {
            assert(stack_vv(cxt.handle.stack@) =~= stack_vv(s0) + self.pushed(reg0));
        }
    }
}

impl<A: Push, B: Push, C: Push> Push for (A, B, C) {
    open spec fn pushed(&self, reg: Seq<RegSlot>) -> Seq<VV> {
        self.0.pushed(reg) + self.1.pushed(reg) + self.2.pushed(reg)
    }

    open spec fn push_req(&self, stack_len: int, reg: Seq<RegSlot>) -> bool {
        self.0.push_req(stack_len, reg) && self.1.push_req(
            stack_len + self.0.pushed(reg).len(),
            reg,
        ) && self.2.push_req(
            stack_len + self.0.pushed(reg).len() + self.1.pushed(reg).len(),
            reg,
        )
    }

    fn push(&self, cxt: &mut Context) {
        let ghost s0 = cxt.handle.stack@;
        let ghost reg0 = cxt.handle.reg@;
        proof {
            lemma_vv_len_eq(s0);
        }
        self.0.push(cxt);
        proof {
            lemma_vv_len_eq(cxt.handle.stack@);
        }
        self.1.push(cxt);
        proof {
            lemma_vv_len_eq(cxt.handle.stack@);
        }
        self.2.push(cxt);
        proof {
            assert(stack_vv(cxt.handle.stack@) =~= stack_vv(s0) + self.pushed(reg0));
        }
    }
}

impl<A: Push, B: Push, C: Push, D: Push> Push for (A, B, C, D) {
    open spec fn pushed(&self, reg: Seq<RegSlot>) -> Seq<VV> {
        self.0.pushed(reg) + self.1.pushed(reg) + self.2.pushed(reg) + self.3.pushed(reg)
    }

    open spec fn push_req(&self, stack_len: int, reg: Seq<RegSlot>) -> bool {
        self.0.push_req(stack_len, reg) && self.1.push_req(
            stack_len + self.0.pushed(reg).len(),
            reg,
        ) && self.2.push_req(
            stack_len + self.0.pushed(reg).len() + self.1.pushed(reg).len(),
            reg,
        ) && self.3.push_req(
            stack_len + self.0.pushed(reg).len() + self.1.pushed(reg).len() + self.2.pushed(
                reg,
            ).len(),
            reg,
        )
    }

    fn push(&self, cxt: &mut Context) {
        let ghost s0 = cxt.handle.stack@;
        let ghost reg0 = cxt.handle.reg@;
        proof {
            lemma_vv_len_eq(s0);
        }
        self.0.push(cxt);
        proof {
            lemma_vv_len_eq(cxt.handle.stack@);
        }
        self.1.push(cxt);
        proof {
            lemma_vv_len_eq(cxt.handle.stack@);
        }
        self.2.push(cxt);
        proof {
            lemma_vv_len_eq(cxt.handle.stack@);
        }
        self.3.push(cxt);
        proof {
            assert(stack_vv(cxt.handle.stack@) =~= stack_vv(s0) + self.pushed(reg0));
        }
    }
}

impl Push for i8 {
    open spec fn pushed(&self, reg: Seq<RegSlot>) -> Seq<VV> {
        seq![VV::VNum(int_bits(*self as int))]
    }

    open spec fn push_req(&self, stack_len: int, reg: Seq<RegSlot>) -> bool {
        stack_len < MAXCSTACK
    }

    fn push(&self, cxt: &mut Context) {
        let b = crate::num::f64_bits_of_int(*self as i64);
        proof {
            lemma_stack_vv_push(cxt.handle.stack@, LuaValue::Number(b));
        }
        cxt.handle.push_value(LuaValue::Number(b));
    }
}

impl Push for i16 {
    open spec fn pushed(&self, reg: Seq<RegSlot>) -> Seq<VV> {
        seq![VV::VNum(int_bits(*self as int))]
    }

    open spec fn push_req(&self, stack_len: int, reg: Seq<RegSlot>) -> bool {
        stack_len < MAXCSTACK
    }

    fn push(&self, cxt: &mut Context) {
        let b = crate::num::f64_bits_of_int(*self as i64);
        proof {
            lemma_stack_vv_push(cxt.handle.stack@, LuaValue::Number(b));
        }
        cxt.handle.push_value(LuaValue::Number(b));
    }
}

impl Push for i32 {
    open spec fn pushed(&self, reg: Seq<RegSlot>) -> Seq<VV> {
        seq![VV::VNum(int_bits(*self as int))]
    }

    open spec fn push_req(&self, stack_len: int, reg: Seq<RegSlot>) -> bool {
        stack_len < MAXCSTACK
    }

    fn push(&self, cxt: &mut Context) {
        let b = crate::num::f64_bits_of_int(*self as i64);
        proof {
            lemma_stack_vv_push(cxt.handle.stack@, LuaValue::Number(b));
        }
        cxt.handle.push_value(LuaValue::Number(b));
    }
}

impl Push for u8 {
    open spec fn pushed(&self, reg: Seq<RegSlot>) -> Seq<VV> {
        seq![VV::VNum(int_bits(*self as int))]
    }

    open spec fn push_req(&self, stack_len: int, reg: Seq<RegSlot>) -> bool {
        stack_len < MAXCSTACK
    }

    fn push(&self, cxt: &mut Context) {
        let b = crate::num::f64_bits_of_int(*self as i64);
        proof {
            lemma_stack_vv_push(cxt.handle.stack@, LuaValue::Number(b));
        }
        cxt.handle.push_value(LuaValue::Number(b));
    }
}

impl Push for u16 {
    open spec fn pushed(&self, reg: Seq<RegSlot>) -> Seq<VV> {
        seq![VV::VNum(int_bits(*self as int))]
    }

    open spec fn push_req(&self, stack_len: int, reg: Seq<RegSlot>) -> bool {
        stack_len < MAXCSTACK
    }

    fn push(&self, cxt: &mut Context) {
        let b = crate::num::f64_bits_of_int(*self as i64);
        proof {
            lemma_stack_vv_push(cxt.handle.stack@, LuaValue::Number(b));
        }
        cxt.handle.push_value(LuaValue::Number(b));
    }
}

impl Push for u32 {
    open spec fn pushed(&self, reg: Seq<RegSlot>) -> Seq<VV> {
        seq![VV::VNum(int_bits(*self as int))]
    }

    open spec fn push_req(&self, stack_len: int, reg: Seq<RegSlot>) -> bool {
        stack_len < MAXCSTACK
    }

    fn push(&self, cxt: &mut Context) {
        let b = crate::num::f64_bits_of_int(*self as i64);
        proof {
            lemma_stack_vv_push(cxt.handle.stack@, LuaValue::Number(b));
        }
        cxt.handle.push_value(LuaValue::Number(b));
    }
}


impl<A: Push, B: Push, C: Push, D: Push, E: Push> Push for (A, B, C, D, E) {
    open spec fn pushed(&self, reg: Seq<RegSlot>) -> Seq<VV> {
        self.0.pushed(reg) + self.1.pushed(reg) + self.2.pushed(reg) + self.3.pushed(reg) + self.4.pushed(reg)
    }

    open spec fn push_req(&self, stack_len: int, reg: Seq<RegSlot>) -> bool {
        self.0.push_req(stack_len, reg) && self.1.push_req(stack_len + self.0.pushed(reg).len(), reg) && self.2.push_req(stack_len + self.0.pushed(reg).len() + self.1.pushed(reg).len(), reg) && self.3.push_req(stack_len + self.0.pushed(reg).len() + self.1.pushed(reg).len() + self.2.pushed(reg).len(), reg) && self.4.push_req(stack_len + self.0.pushed(reg).len() + self.1.pushed(reg).len() + self.2.pushed(reg).len() + self.3.pushed(reg).len(), reg)
    }

    fn push(&self, cxt: &mut Context) {
        let ghost s0 = cxt.handle.stack@;
        let ghost reg0 = cxt.handle.reg@;
        proof {
            lemma_vv_len_eq(s0);
        }
        self.0.push(cxt);
        proof {
            lemma_vv_len_eq(cxt.handle.stack@);
        }
        self.1.push(cxt);
        proof {
            lemma_vv_len_eq(cxt.handle.stack@);
        }
        self.2.push(cxt);
        proof {
            lemma_vv_len_eq(cxt.handle.stack@);
        }
        self.3.push(cxt);
        proof {
            lemma_vv_len_eq(cxt.handle.stack@);
        }
        self.4.push(cxt);
        proof {
            assert(stack_vv(cxt.handle.stack@) =~= stack_vv(s0) + self.pushed(reg0));
        }
    }
}

impl<A: Push, B: Push, C: Push, D: Push, E: Push, F: Push> Push for (A, B, C, D, E, F) {
    open spec fn pushed(&self, reg: Seq<RegSlot>) -> Seq<VV> {
        self.0.pushed(reg) + self.1.pushed(reg) + self.2.pushed(reg) + self.3.pushed(reg) + self.4.pushed(reg) + self.5.pushed(reg)
    }

    open spec fn push_req(&self, stack_len: int, reg: Seq<RegSlot>) -> bool {
        self.0.push_req(stack_len, reg) && self.1.push_req(stack_len + self.0.pushed(reg).len(), reg) && self.2.push_req(stack_len + self.0.pushed(reg).len() + self.1.pushed(reg).len(), reg) && self.3.push_req(stack_len + self.0.pushed(reg).len() + self.1.pushed(reg).len() + self.2.pushed(reg).len(), reg) && self.4.push_req(stack_len + self.0.pushed(reg).len() + self.1.pushed(reg).len() + self.2.pushed(reg).len() + self.3.pushed(reg).len(), reg) && self.5.push_req(stack_len + self.0.pushed(reg).len() + self.1.pushed(reg).len() + self.2.pushed(reg).len() + self.3.pushed(reg).len() + self.4.pushed(reg).len(), reg)
    }

    fn push(&self, cxt: &mut Context) {
        let ghost s0 = cxt.handle.stack@;
        let ghost reg0 = cxt.handle.reg@;
        proof {
            lemma_vv_len_eq(s0);
        }
        self.0.push(cxt);
        proof {
            lemma_vv_len_eq(cxt.handle.stack@);
        }
        self.1.push(cxt);
        proof {
            lemma_vv_len_eq(cxt.handle.stack@);
        }
        self.2.push(cxt);
        proof {
            lemma_vv_len_eq(cxt.handle.stack@);
        }
        self.3.push(cxt);
        proof {
            lemma_vv_len_eq(cxt.handle.stack@);
        }
        self.4.push(cxt);
        proof {
            lemma_vv_len_eq(cxt.handle.stack@);
        }
        self.5.push(cxt);
        proof {
            assert(stack_vv(cxt.handle.stack@) =~= stack_vv(s0) + self.pushed(reg0));
        }
    }
}

impl<A: Push, B: Push, C: Push, D: Push, E: Push, F: Push, G: Push> Push for (A, B, C, D, E, F, G) {
    open spec fn pushed(&self, reg: Seq<RegSlot>) -> Seq<VV> {
        self.0.pushed(reg) + self.1.pushed(reg) + self.2.pushed(reg) + self.3.pushed(reg) + self.4.pushed(reg) + self.5.pushed(reg) + self.6.pushed(reg)
    }

    open spec fn push_req(&self, stack_len: int, reg: Seq<RegSlot>) -> bool {
        self.0.push_req(stack_len, reg) && self.1.push_req(stack_len + self.0.pushed(reg).len(), reg) && self.2.push_req(stack_len + self.0.pushed(reg).len() + self.1.pushed(reg).len(), reg) && self.3.push_req(stack_len + self.0.pushed(reg).len() + self.1.pushed(reg).len() + self.2.pushed(reg).len(), reg) && self.4.push_req(stack_len + self.0.pushed(reg).len() + self.1.pushed(reg).len() + self.2.pushed(reg).len() + self.3.pushed(reg).len(), reg) && self.5.push_req(stack_len + self.0.pushed(reg).len() + self.1.pushed(reg).len() + self.2.pushed(reg).len() + self.3.pushed(reg).len() + self.4.pushed(reg).len(), reg) && self.6.push_req(stack_len + self.0.pushed(reg).len() + self.1.pushed(reg).len() + self.2.pushed(reg).len() + self.3.pushed(reg).len() + self.4.pushed(reg).len() + self.5.pushed(reg).len(), reg)
    }

    fn push(&self, cxt: &mut Context) {
        let ghost s0 = cxt.handle.stack@;
        let ghost reg0 = cxt.handle.reg@;
        proof {
            lemma_vv_len_eq(s0);
        }
        self.0.push(cxt);
        proof {
            lemma_vv_len_eq(cxt.handle.stack@);
        }
        self.1.push(cxt);
        proof {
            lemma_vv_len_eq(cxt.handle.stack@);
        }
        self.2.push(cxt);
        proof {
            lemma_vv_len_eq(cxt.handle.stack@);
        }
        self.3.push(cxt);
        proof {
            lemma_vv_len_eq(cxt.handle.stack@);
        }
        self.4.push(cxt);
        proof {
            lemma_vv_len_eq(cxt.handle.stack@);
        }
        self.5.push(cxt);
        proof {
            lemma_vv_len_eq(cxt.handle.stack@);
        }
        self.6.push(cxt);
        proof {
            assert(stack_vv(cxt.handle.stack@) =~= stack_vv(s0) + self.pushed(reg0));
        }
    }
}

impl<A: Push, B: Push, C: Push, D: Push, E: Push, F: Push, G: Push, H: Push> Push for (A, B, C, D, E, F, G, H) {
    open spec fn pushed(&self, reg: Seq<RegSlot>) -> Seq<VV> {
        self.0.pushed(reg) + self.1.pushed(reg) + self.2.pushed(reg) + self.3.pushed(reg) + self.4.pushed(reg) + self.5.pushed(reg) + self.6.pushed(reg) + self.7.pushed(reg)
    }

    open spec fn push_req(&self, stack_len: int, reg: Seq<RegSlot>) -> bool {
        self.0.push_req(stack_len, reg) && self.1.push_req(stack_len + self.0.pushed(reg).len(), reg) && self.2.push_req(stack_len + self.0.pushed(reg).len() + self.1.pushed(reg).len(), reg) && self.3.push_req(stack_len + self.0.pushed(reg).len() + self.1.pushed(reg).len() + self.2.pushed(reg).len(), reg) && self.4.push_req(stack_len + self.0.pushed(reg).len() + self.1.pushed(reg).len() + self.2.pushed(reg).len() + self.3.pushed(reg).len(), reg) && self.5.push_req(stack_len + self.0.pushed(reg).len() + self.1.pushed(reg).len() + self.2.pushed(reg).len() + self.3.pushed(reg).len() + self.4.pushed(reg).len(), reg) && self.6.push_req(stack_len + self.0.pushed(reg).len() + self.1.pushed(reg).len() + self.2.pushed(reg).len() + self.3.pushed(reg).len() + self.4.pushed(reg).len() + self.5.pushed(reg).len(), reg) && self.7.push_req(stack_len + self.0.pushed(reg).len() + self.1.pushed(reg).len() + self.2.pushed(reg).len() + self.3.pushed(reg).len() + self.4.pushed(reg).len() + self.5.pushed(reg).len() + self.6.pushed(reg).len(), reg)
    }

    fn push(&self, cxt: &mut Context) {
        let ghost s0 = cxt.handle.stack@;
        let ghost reg0 = cxt.handle.reg@;
        proof {
            lemma_vv_len_eq(s0);
        }
        self.0.push(cxt);
        proof {
            lemma_vv_len_eq(cxt.handle.stack@);
        }
        self.1.push(cxt);
        proof {
            lemma_vv_len_eq(cxt.handle.stack@);
        }
        self.2.push(cxt);
        proof {
            lemma_vv_len_eq(cxt.handle.stack@);
        }
        self.3.push(cxt);
        proof {
            lemma_vv_len_eq(cxt.handle.stack@);
        }
        self.4.push(cxt);
        proof {
            lemma_vv_len_eq(cxt.handle.stack@);
        }
        self.5.push(cxt);
        proof {
            lemma_vv_len_eq(cxt.handle.stack@);
        }
        self.6.push(cxt);
        proof {
            lemma_vv_len_eq(cxt.handle.stack@);
        }
        self.7.push(cxt);
        proof {
            assert(stack_vv(cxt.handle.stack@) =~= stack_vv(s0) + self.pushed(reg0));
        }
    }
}

impl<A: Push, B: Push, C: Push, D: Push, E: Push, F: Push, G: Push, H: Push, I: Push> Push for (A, B, C, D, E, F, G, H, I) {
    open spec fn pushed(&self, reg: Seq<RegSlot>) -> Seq<VV> {
        self.0.pushed(reg) + self.1.pushed(reg) + self.2.pushed(reg) + self.3.pushed(reg) + self.4.pushed(reg) + self.5.pushed(reg) + self.6.pushed(reg) + self.7.pushed(reg) + self.8.pushed(reg)
    }

    open spec fn push_req(&self, stack_len: int, reg: Seq<RegSlot>) -> bool {
        self.0.push_req(stack_len, reg) && self.1.push_req(stack_len + self.0.pushed(reg).len(), reg) && self.2.push_req(stack_len + self.0.pushed(reg).len() + self.1.pushed(reg).len(), reg) && self.3.push_req(stack_len + self.0.pushed(reg).len() + self.1.pushed(reg).len() + self.2.pushed(reg).len(), reg) && self.4.push_req(stack_len + self.0.pushed(reg).len() + self.1.pushed(reg).len() + self.2.pushed(reg).len() + self.3.pushed(reg).len(), reg) && self.5.push_req(stack_len + self.0.pushed(reg).len() + self.1.pushed(reg).len() + self.2.pushed(reg).len() + self.3.pushed(reg).len() + self.4.pushed(reg).len(), reg) && self.6.push_req(stack_len + self.0.pushed(reg).len() + self.1.pushed(reg).len() + self.2.pushed(reg).len() + self.3.pushed(reg).len() + self.4.pushed(reg).len() + self.5.pushed(reg).len(), reg) && self.7.push_req(stack_len + self.0.pushed(reg).len() + self.1.pushed(reg).len() + self.2.pushed(reg).len() + self.3.pushed(reg).len() + self.4.pushed(reg).len() + self.5.pushed(reg).len() + self.6.pushed(reg).len(), reg) && self.8.push_req(stack_len + self.0.pushed(reg).len() + self.1.pushed(reg).len() + self.2.pushed(reg).len() + self.3.pushed(reg).len() + self.4.pushed(reg).len() + self.5.pushed(reg).len() + self.6.pushed(reg).len() + self.7.pushed(reg).len(), reg)
    }

    fn push(&self, cxt: &mut Context) {
        let ghost s0 = cxt.handle.stack@;
        let ghost reg0 = cxt.handle.reg@;
        proof {
            lemma_vv_len_eq(s0);
        }
        self.0.push(cxt);
        proof {
            lemma_vv_len_eq(cxt.handle.stack@);
        }
        self.1.push(cxt);
        proof {
            lemma_vv_len_eq(cxt.handle.stack@);
        }
        self.2.push(cxt);
        proof {
            lemma_vv_len_eq(cxt.handle.stack@);
        }
        self.3.push(cxt);
        proof {
            lemma_vv_len_eq(cxt.handle.stack@);
        }
        self.4.push(cxt);
        proof {
            lemma_vv_len_eq(cxt.handle.stack@);
        }
        self.5.push(cxt);
        proof {
            lemma_vv_len_eq(cxt.handle.stack@);
        }
        self.6.push(cxt);
        proof {
            lemma_vv_len_eq(cxt.handle.stack@);
        }
        self.7.push(cxt);
        proof {
            lemma_vv_len_eq(cxt.handle.stack@);
        }
        self.8.push(cxt);
        proof {
            assert(stack_vv(cxt.handle.stack@) =~= stack_vv(s0) + self.pushed(reg0));
        }
    }
}

impl<A: Push, B: Push, C: Push, D: Push, E: Push, F: Push, G: Push, H: Push, I: Push, J: Push> Push for (A, B, C, D, E, F, G, H, I, J) {
    open spec fn pushed(&self, reg: Seq<RegSlot>) -> Seq<VV> {
        self.0.pushed(reg) + self.1.pushed(reg) + self.2.pushed(reg) + self.3.pushed(reg) + self.4.pushed(reg) + self.5.pushed(reg) + self.6.pushed(reg) + self.7.pushed(reg) + self.8.pushed(reg) + self.9.pushed(reg)
    }

    open spec fn push_req(&self, stack_len: int, reg: Seq<RegSlot>) -> bool {
        self.0.push_req(stack_len, reg) && self.1.push_req(stack_len + self.0.pushed(reg).len(), reg) && self.2.push_req(stack_len + self.0.pushed(reg).len() + self.1.pushed(reg).len(), reg) && self.3.push_req(stack_len + self.0.pushed(reg).len() + self.1.pushed(reg).len() + self.2.pushed(reg).len(), reg) && self.4.push_req(stack_len + self.0.pushed(reg).len() + self.1.pushed(reg).len() + self.2.pushed(reg).len() + self.3.pushed(reg).len(), reg) && self.5.push_req(stack_len + self.0.pushed(reg).len() + self.1.pushed(reg).len() + self.2.pushed(reg).len() + self.3.pushed(reg).len() + self.4.pushed(reg).len(), reg) && self.6.push_req(stack_len + self.0.pushed(reg).len() + self.1.pushed(reg).len() + self.2.pushed(reg).len() + self.3.pushed(reg).len() + self.4.pushed(reg).len() + self.5.pushed(reg).len(), reg) && self.7.push_req(stack_len + self.0.pushed(reg).len() + self.1.pushed(reg).len() + self.2.pushed(reg).len() + self.3.pushed(reg).len() + self.4.pushed(reg).len() + self.5.pushed(reg).len() + self.6.pushed(reg).len(), reg) && self.8.push_req(stack_len + self.0.pushed(reg).len() + self.1.pushed(reg).len() + self.2.pushed(reg).len() + self.3.pushed(reg).len() + self.4.pushed(reg).len() + self.5.pushed(reg).len() + self.6.pushed(reg).len() + self.7.pushed(reg).len(), reg) && self.9.push_req(stack_len + self.0.pushed(reg).len() + self.1.pushed(reg).len() + self.2.pushed(reg).len() + self.3.pushed(reg).len() + self.4.pushed(reg).len() + self.5.pushed(reg).len() + self.6.pushed(reg).len() + self.7.pushed(reg).len() + self.8.pushed(reg).len(), reg)
    }

    fn push(&self, cxt: &mut Context) {
        let ghost s0 = cxt.handle.stack@;
        let ghost reg0 = cxt.handle.reg@;
        proof {
            lemma_vv_len_eq(s0);
        }
        self.0.push(cxt);
        proof {
            lemma_vv_len_eq(cxt.handle.stack@);
        }
        self.1.push(cxt);
        proof {
            lemma_vv_len_eq(cxt.handle.stack@);
        }
        self.2.push(cxt);
        proof {
            lemma_vv_len_eq(cxt.handle.stack@);
        }
        self.3.push(cxt);
        proof {
            lemma_vv_len_eq(cxt.handle.stack@);
        }
        self.4.push(cxt);
        proof {
            lemma_vv_len_eq(cxt.handle.stack@);
        }
        self.5.push(cxt);
        proof {
            lemma_vv_len_eq(cxt.handle.stack@);
        }
        self.6.push(cxt);
        proof {
            lemma_vv_len_eq(cxt.handle.stack@);
        }
        self.7.push(cxt);
        proof {
            lemma_vv_len_eq(cxt.handle.stack@);
        }
        self.8.push(cxt);
        proof {
            lemma_vv_len_eq(cxt.handle.stack@);
        }
        self.9.push(cxt);
        proof {
            assert(stack_vv(cxt.handle.stack@) =~= stack_vv(s0) + self.pushed(reg0));
        }
    }
}

impl<A: Push, B: Push, C: Push, D: Push, E: Push, F: Push, G: Push, H: Push, I: Push, J: Push, K: Push> Push for (A, B, C, D, E, F, G, H, I, J, K) {
    open spec fn pushed(&self, reg: Seq<RegSlot>) -> Seq<VV> {
        self.0.pushed(reg) + self.1.pushed(reg) + self.2.pushed(reg) + self.3.pushed(reg) + self.4.pushed(reg) + self.5.pushed(reg) + self.6.pushed(reg) + self.7.pushed(reg) + self.8.pushed(reg) + self.9.pushed(reg) + self.10.pushed(reg)
    }

    open spec fn push_req(&self, stack_len: int, reg: Seq<RegSlot>) -> bool {
        self.0.push_req(stack_len, reg) && self.1.push_req(stack_len + self.0.pushed(reg).len(), reg) && self.2.push_req(stack_len + self.0.pushed(reg).len() + self.1.pushed(reg).len(), reg) && self.3.push_req(stack_len + self.0.pushed(reg).len() + self.1.pushed(reg).len() + self.2.pushed(reg).len(), reg) && self.4.push_req(stack_len + self.0.pushed(reg).len() + self.1.pushed(reg).len() + self.2.pushed(reg).len() + self.3.pushed(reg).len(), reg) && self.5.push_req(stack_len + self.0.pushed(reg).len() + self.1.pushed(reg).len() + self.2.pushed(reg).len() + self.3.pushed(reg).len() + self.4.pushed(reg).len(), reg) && self.6.push_req(stack_len + self.0.pushed(reg).len() + self.1.pushed(reg).len() + self.2.pushed(reg).len() + self.3.pushed(reg).len() + self.4.pushed(reg).len() + self.5.pushed(reg).len(), reg) && self.7.push_req(stack_len + self.0.pushed(reg).len() + self.1.pushed(reg).len() + self.2.pushed(reg).len() + self.3.pushed(reg).len() + self.4.pushed(reg).len() + self.5.pushed(reg).len() + self.6.pushed(reg).len(), reg) && self.8.push_req(stack_len + self.0.pushed(reg).len() + self.1.pushed(reg).len() + self.2.pushed(reg).len() + self.3.pushed(reg).len() + self.4.pushed(reg).len() + self.5.pushed(reg).len() + self.6.pushed(reg).len() + self.7.pushed(reg).len(), reg) && self.9.push_req(stack_len + self.0.pushed(reg).len() + self.1.pushed(reg).len() + self.2.pushed(reg).len() + self.3.pushed(reg).len() + self.4.pushed(reg).len() + self.5.pushed(reg).len() + self.6.pushed(reg).len() + self.7.pushed(reg).len() + self.8.pushed(reg).len(), reg) && self.10.push_req(stack_len + self.0.pushed(reg).len() + self.1.pushed(reg).len() + self.2.pushed(reg).len() + self.3.pushed(reg).len() + self.4.pushed(reg).len() + self.5.pushed(reg).len() + self.6.pushed(reg).len() + self.7.pushed(reg).len() + self.8.pushed(reg).len() + self.9.pushed(reg).len(), reg)
    }

    fn push(&self, cxt: &mut Context) {
        let ghost s0 = cxt.handle.stack@;
        let ghost reg0 = cxt.handle.reg@;
        proof {
            lemma_vv_len_eq(s0);
        }
        self.0.push(cxt);
        proof {
            lemma_vv_len_eq(cxt.handle.stack@);
        }
        self.1.push(cxt);
        proof {
            lemma_vv_len_eq(cxt.handle.stack@);
        }
        self.2.push(cxt);
        proof {
            lemma_vv_len_eq(cxt.handle.stack@);
        }
        self.3.push(cxt);
        proof {
            lemma_vv_len_eq(cxt.handle.stack@);
        }
        self.4.push(cxt);
        proof {
            lemma_vv_len_eq(cxt.handle.stack@);
        }
        self.5.push(cxt);
        proof {
            lemma_vv_len_eq(cxt.handle.stack@);
        }
        self.6.push(cxt);
        proof {
            lemma_vv_len_eq(cxt.handle.stack@);
        }
        self.7.push(cxt);
        proof {
            lemma_vv_len_eq(cxt.handle.stack@);
        }
        self.8.push(cxt);
        proof {
            lemma_vv_len_eq(cxt.handle.stack@);
        }
        self.9.push(cxt);
        proof {
            lemma_vv_len_eq(cxt.handle.stack@);
        }
        self.10.push(cxt);
        proof {
            assert(stack_vv(cxt.handle.stack@) =~= stack_vv(s0) + self.pushed(reg0));
        }
    }
}

impl<A: Push, B: Push, C: Push, D: Push, E: Push, F: Push, G: Push, H: Push, I: Push, J: Push, K: Push, L: Push> Push for (A, B, C, D, E, F, G, H, I, J, K, L) {
    open spec fn pushed(&self, reg: Seq<RegSlot>) -> Seq<VV> {
        self.0.pushed(reg) + self.1.pushed(reg) + self.2.pushed(reg) + self.3.pushed(reg) + self.4.pushed(reg) + self.5.pushed(reg) + self.6.pushed(reg) + self.7.pushed(reg) + self.8.pushed(reg) + self.9.pushed(reg) + self.10.pushed(reg) + self.11.pushed(reg)
    }

    open spec fn push_req(&self, stack_len: int, reg: Seq<RegSlot>) -> bool {
        self.0.push_req(stack_len, reg) && self.1.push_req(stack_len + self.0.pushed(reg).len(), reg) && self.2.push_req(stack_len + self.0.pushed(reg).len() + self.1.pushed(reg).len(), reg) && self.3.push_req(stack_len + self.0.pushed(reg).len() + self.1.pushed(reg).len() + self.2.pushed(reg).len(), reg) && self.4.push_req(stack_len + self.0.pushed(reg).len() + self.1.pushed(reg).len() + self.2.pushed(reg).len() + self.3.pushed(reg).len(), reg) && self.5.push_req(stack_len + self.0.pushed(reg).len() + self.1.pushed(reg).len() + self.2.pushed(reg).len() + self.3.pushed(reg).len() + self.4.pushed(reg).len(), reg) && self.6.push_req(stack_len + self.0.pushed(reg).len() + self.1.pushed(reg).len() + self.2.pushed(reg).len() + self.3.pushed(reg).len() + self.4.pushed(reg).len() + self.5.pushed(reg).len(), reg) && self.7.push_req(stack_len + self.0.pushed(reg).len() + self.1.pushed(reg).len() + self.2.pushed(reg).len() + self.3.pushed(reg).len() + self.4.pushed(reg).len() + self.5.pushed(reg).len() + self.6.pushed(reg).len(), reg) && self.8.push_req(stack_len + self.0.pushed(reg).len() + self.1.pushed(reg).len() + self.2.pushed(reg).len() + self.3.pushed(reg).len() + self.4.pushed(reg).len() + self.5.pushed(reg).len() + self.6.pushed(reg).len() + self.7.pushed(reg).len(), reg) && self.9.push_req(stack_len + self.0.pushed(reg).len() + self.1.pushed(reg).len() + self.2.pushed(reg).len() + self.3.pushed(reg).len() + self.4.pushed(reg).len() + self.5.pushed(reg).len() + self.6.pushed(reg).len() + self.7.pushed(reg).len() + self.8.pushed(reg).len(), reg) && self.10.push_req(stack_len + self.0.pushed(reg).len() + self.1.pushed(reg).len() + self.2.pushed(reg).len() + self.3.pushed(reg).len() + self.4.pushed(reg).len() + self.5.pushed(reg).len() + self.6.pushed(reg).len() + self.7.pushed(reg).len() + self.8.pushed(reg).len() + self.9.pushed(reg).len(), reg) && self.11.push_req(stack_len + self.0.pushed(reg).len() + self.1.pushed(reg).len() + self.2.pushed(reg).len() + self.3.pushed(reg).len() + self.4.pushed(reg).len() + self.5.pushed(reg).len() + self.6.pushed(reg).len() + self.7.pushed(reg).len() + self.8.pushed(reg).len() + self.9.pushed(reg).len() + self.10.pushed(reg).len(), reg)
    }

    fn push(&self, cxt: &mut Context) {
        let ghost s0 = cxt.handle.stack@;
        let ghost reg0 = cxt.handle.reg@;
        proof {
            lemma_vv_len_eq(s0);
        }
        self.0.push(cxt);
        proof {
            lemma_vv_len_eq(cxt.handle.stack@);
        }
        self.1.push(cxt);
        proof {
            lemma_vv_len_eq(cxt.handle.stack@);
        }
        self.2.push(cxt);
        proof {
            lemma_vv_len_eq(cxt.handle.stack@);
        }
        self.3.push(cxt);
        proof {
            lemma_vv_len_eq(cxt.handle.stack@);
        }
        self.4.push(cxt);
        proof {
            lemma_vv_len_eq(cxt.handle.stack@);
        }
        self.5.push(cxt);
        proof {
            lemma_vv_len_eq(cxt.handle.stack@);
        }
        self.6.push(cxt);
        proof {
            lemma_vv_len_eq(cxt.handle.stack@);
        }
        self.7.push(cxt);
        proof {
            lemma_vv_len_eq(cxt.handle.stack@);
        }
        self.8.push(cxt);
        proof {
            lemma_vv_len_eq(cxt.handle.stack@);
        }
        self.9.push(cxt);
        proof {
            lemma_vv_len_eq(cxt.handle.stack@);
        }
        self.10.push(cxt);
        proof {
            lemma_vv_len_eq(cxt.handle.stack@);
        }
        self.11.push(cxt);
        proof {
            assert(stack_vv(cxt.handle.stack@) =~= stack_vv(s0) + self.pushed(reg0));
        }
    }
}

} // verus!
