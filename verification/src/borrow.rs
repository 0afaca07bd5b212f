//! Anchored references for [`Context`].
//!
//! A `LuaRef` pairs a registry key with nothing else: the key either
//! anchors one live registry slot or is the sentinel -1, which stands
//! for "no value" and never reaches the registry.

use vstd::prelude::*;
use crate::context::Context;
use crate::read::Read;
use crate::rt::MAXCSTACK;
use crate::rt::RegSlot;
use crate::rt::resolve;
use crate::rt::slot;
use crate::rt::spec_anchor;
use crate::value::LuaValue;

verus! {

/// An anchored reference: a registry key keeping one foreign heap
/// value alive, or the sentinel key -1 denoting nil.
#[derive(Debug, PartialEq, Eq)]
pub struct LuaRef {
    pub key: i32,
}

impl LuaRef {
    /// Whether this reference is admissible against a state: the
    /// sentinel, or a live registry key.
    pub open spec fn ok(self, reg: Seq<RegSlot>) -> bool {
        self.key == -1 || (1 <= self.key <= reg.len() && reg[self.key - 1] is Val)
    }

    /// Releases the registry slot this reference anchors, returning
    /// its key to the free-list.  Releasing the sentinel is a no-op.
    /// This is the sole way a registry key becomes reusable, and it
    /// consumes the reference: a released key can never be pushed.
    pub fn release(self, cxt: &mut Context)
        requires
            old(cxt).handle.wf(),
            self.ok(old(cxt).handle.reg@),
        ensures
            final(cxt).handle.wf(),
            final(cxt).handle.stack@ == old(cxt).handle.stack@,
            final(cxt).handle.tables@ == old(cxt).handle.tables@,
            (final(cxt).handle.reg@, final(cxt).handle.free@) == crate::rt::spec_release(
                old(cxt).handle.reg@,
                old(cxt).handle.free@,
                self.key as int,
            ),
            final(cxt).handle.live_keys() == old(cxt).handle.live_keys().remove(self.key as int),
            final(cxt).owner == old(cxt).owner,
    {
        cxt.handle.reg_release(self.key);
    }
}

impl Read for LuaRef {
    open spec fn read_req(stack: Seq<LuaValue>, reg_len: int, idx: int) -> bool {
        resolve(stack, idx) != 0 && reg_len < 0x40000000 && stack.len() < MAXCSTACK
    }

    open spec fn read_val(
        stack: Seq<LuaValue>,
        reg: Seq<RegSlot>,
        free: Seq<i32>,
        idx: int,
    ) -> LuaRef {
        if slot(stack, idx) is Nil {
            LuaRef { key: (-1) as i32 }
        } else {
            LuaRef { key: spec_anchor(reg, free, slot(stack, idx)).2 as i32 }
        }
    }

    open spec fn read_stack(stack: Seq<LuaValue>, idx: int) -> Seq<LuaValue> {
        stack
    }

    open spec fn read_reg(
        stack: Seq<LuaValue>,
        reg: Seq<RegSlot>,
        free: Seq<i32>,
        idx: int,
    ) -> (Seq<RegSlot>, Seq<i32>) {
        if slot(stack, idx) is Nil {
            (reg, free)
        } else {
            let t = spec_anchor(reg, free, slot(stack, idx));
            (t.0, t.1)
        }
    }

    open spec fn check_spec(stack: Seq<LuaValue>, idx: int) -> bool {
        true
    }

    /// Reads the addressed slot into a registry slot: a nil slot
    /// yields the sentinel with no registry interaction; anything else
    /// claims a key through the free-list protocol.  The slot is not
    /// consumed — callers discard explicitly, so the written footprint
    /// of one slot stays exact.
    fn read(cxt: &mut Context, idx: i32) -> (r: LuaRef) {
        let v = cxt.handle.read_slot(idx);
        match v {
            LuaValue::Nil => LuaRef { key: -1 },
            _ => {
                let ghost s0 = cxt.handle.stack@;
                cxt.handle.dup_slot(idx);
                let key = cxt.handle.reg_anchor();
                proof {
                    assert(cxt.handle.stack@ =~= s0);
                }
                LuaRef { key }
            },
        }
    }

    fn check(cxt: &Context, idx: i32) -> bool {
        true
    }
}

} // verus!
