//! The owning handle of one runtime instance, with positional stack
//! access and named global access.

use vstd::prelude::*;
use vstd::string::StringExecFns;
use crate::fmt::dec_str;
use crate::push::Push;
use crate::read::Read;
use crate::size::Size;
use crate::rt::lua_State;
use crate::rt::MAXCSTACK;
use crate::rt::GLOBALS_TID;
use crate::rt::raw_lookup;
use crate::rt::raw_update;
use crate::rt::resolve;
use crate::rt::tbl_entries;
use crate::fastpath::flu_getlfield;
use crate::fastpath::flu_setlfield;
use crate::fastpath::lemma_fast_get_equiv;
use crate::fastpath::lemma_fast_set_equiv;
use crate::fastpath::LUA_GLOBALSINDEX;
use crate::value::LuaValue;
use crate::value::TKey;
use crate::value::KeyView;
use crate::value::key_view;
use crate::value::kind_name;
use crate::value::vv;
use crate::value::stack_vv;

verus! {

/// A handle owning (or weakly aliasing) one runtime instance.
///
/// The instance's observable state sits in `handle`; `owner` records
/// whether dropping this handle would close the instance.
#[derive(Debug)]
pub struct Context {
    pub handle: lua_State,
    pub owner: bool,
}

impl Context {
    /// Opens a fresh instance, owned.  The standard library is not
    /// loaded: that is the full constructor's business.
    pub fn new() -> (c: Context)
        ensures
            c.handle.wf(),
            c.handle.stack@.len() == 0,
            c.handle.reg@.len() == 0,
            c.handle.free@.len() == 0,
            c.handle.tables@.len() == 1,
            tbl_entries(c.handle, GLOBALS_TID as int).len() == 0,
            c.handle.tables@[GLOBALS_TID as int].meta is None,
            c.owner,
    {
        Context { handle: lua_State::init(), owner: true }
    }

    /// Wraps an instance's state as an owning handle.
    pub fn from_state(state: lua_State) -> (c: Context)
        ensures
            c.handle == state,
            c.owner,
    {
        Context { handle: state, owner: true }
    }

    /// Wraps an instance's state as a weak (non-owning) alias.
    pub fn from_state_weak(state: lua_State) -> (c: Context)
        ensures
            c.handle == state,
            !c.owner,
    {
        Context { handle: state, owner: false }
    }

    /// The current stack depth.
    pub fn size(&self) -> (n: i32)
        requires
            self.handle.wf(),
        ensures
            n as int == self.handle.stack@.len(),
    {
        self.handle.gettop()
    }

    /// Pushes a value's foreign form.
    pub fn push<T: Push>(&mut self, val: T)
        requires
            old(self).handle.wf(),
            val.push_req(old(self).handle.stack@.len() as int, old(self).handle.reg@),
        ensures
            final(self).handle.wf(),
            stack_vv(final(self).handle.stack@) == stack_vv(old(self).handle.stack@) + val.pushed(
                old(self).handle.reg@,
            ),
            final(self).handle.stack@.subrange(0, old(self).handle.stack@.len() as int) == old(
                self,
            ).handle.stack@,
            final(self).handle.reg@ == old(self).handle.reg@,
            final(self).handle.free@ == old(self).handle.free@,
            final(self).handle.tables@ == old(self).handle.tables@,
            final(self).owner == old(self).owner,
    {
        val.push(self);
    }

    /// Reads the value at `idx` without discarding anything.
    pub fn peek<T: Read>(&mut self, idx: i32) -> (r: T)
        requires
            old(self).handle.wf(),
            T::read_req(old(self).handle.stack@, old(self).handle.reg@.len() as int, idx as int),
        ensures
            final(self).handle.wf(),
            r == T::read_val(
                old(self).handle.stack@,
                old(self).handle.reg@,
                old(self).handle.free@,
                idx as int,
            ),
            final(self).handle.stack@ == T::read_stack(old(self).handle.stack@, idx as int),
            (final(self).handle.reg@, final(self).handle.free@) == T::read_reg(
                old(self).handle.stack@,
                old(self).handle.reg@,
                old(self).handle.free@,
                idx as int,
            ),
            final(self).handle.tables@ == old(self).handle.tables@,
            final(self).owner == old(self).owner,
    {
        T::read(self, idx)
    }

    /// Reads the topmost value, then discards one slot for any type
    /// with a positive footprint.
    pub fn pop<T: Read + Size>(&mut self) -> (r: T)
        requires
            old(self).handle.wf(),
            T::read_req(old(self).handle.stack@, old(self).handle.reg@.len() as int, -1),
            T::size_spec() > 0 ==> T::read_stack(old(self).handle.stack@, -1).len() >= 1,
        ensures
            final(self).handle.wf(),
            r == T::read_val(
                old(self).handle.stack@,
                old(self).handle.reg@,
                old(self).handle.free@,
                -1,
            ),
            final(self).handle.stack@ == if T::size_spec() > 0 {
                T::read_stack(old(self).handle.stack@, -1).drop_last()
            } else {
                T::read_stack(old(self).handle.stack@, -1)
            },
            (final(self).handle.reg@, final(self).handle.free@) == T::read_reg(
                old(self).handle.stack@,
                old(self).handle.reg@,
                old(self).handle.free@,
                -1,
            ),
            final(self).handle.tables@ == old(self).handle.tables@,
            final(self).owner == old(self).owner,
    {
        let r = T::read(self, -1);
        if T::size() > 0 {
            self.pop_discard(1);
            proof {
                assert(final(self).handle.stack@ =~= T::read_stack(
                    old(self).handle.stack@,
                    -1,
                ).drop_last());
            }
        }
        r
    }

    /// Reads the value at `idx`, then removes that slot for any type
    /// with a positive footprint.
    pub fn remove<T: Read + Size>(&mut self, idx: i32) -> (r: T)
        requires
            old(self).handle.wf(),
            T::read_req(old(self).handle.stack@, old(self).handle.reg@.len() as int, idx as int),
            T::size_spec() > 0 ==> resolve(
                T::read_stack(old(self).handle.stack@, idx as int),
                idx as int,
            ) != 0,
        ensures
            final(self).handle.wf(),
            r == T::read_val(
                old(self).handle.stack@,
                old(self).handle.reg@,
                old(self).handle.free@,
                idx as int,
            ),
            final(self).handle.stack@ == if T::size_spec() > 0 {
                T::read_stack(old(self).handle.stack@, idx as int).remove(
                    resolve(T::read_stack(old(self).handle.stack@, idx as int), idx as int) - 1,
                )
            } else {
                T::read_stack(old(self).handle.stack@, idx as int)
            },
            (final(self).handle.reg@, final(self).handle.free@) == T::read_reg(
                old(self).handle.stack@,
                old(self).handle.reg@,
                old(self).handle.free@,
                idx as int,
            ),
            final(self).handle.tables@ == old(self).handle.tables@,
            final(self).owner == old(self).owner,
    {
        let r = T::read(self, idx);
        if T::size() > 0 {
            self.remove_discard(idx);
        }
        r
    }

    /// Discards the `n` topmost slots without marshalling.
    pub fn pop_discard(&mut self, n: i32)
        requires
            old(self).handle.wf(),
            0 <= n <= old(self).handle.stack@.len(),
        ensures
            final(self).handle.wf(),
            final(self).handle.stack@ == old(self).handle.stack@.subrange(
                0,
                old(self).handle.stack@.len() - n as int,
            ),
            final(self).handle.reg@ == old(self).handle.reg@,
            final(self).handle.free@ == old(self).handle.free@,
            final(self).handle.tables@ == old(self).handle.tables@,
            final(self).owner == old(self).owner,
    {
        self.handle.pop_n(n as usize);
    }

    /// Removes the slot at `idx` without marshalling.
    pub fn remove_discard(&mut self, idx: i32)
        requires
            old(self).handle.wf(),
            resolve(old(self).handle.stack@, idx as int) != 0,
        ensures
            final(self).handle.wf(),
            final(self).handle.stack@ == old(self).handle.stack@.remove(
                resolve(old(self).handle.stack@, idx as int) - 1,
            ),
            final(self).handle.reg@ == old(self).handle.reg@,
            final(self).handle.free@ == old(self).handle.free@,
            final(self).handle.tables@ == old(self).handle.tables@,
            final(self).owner == old(self).owner,
    {
        self.handle.remove_at(idx);
    }

    /// Reads the named global.  The globals table is metatable-free by
    /// construction, so the access is the raw lookup.
    pub fn get<T: Read + Size>(&mut self, idx: &str) -> (r: T)
        requires
            old(self).handle.wf(),
            old(self).handle.tables@[GLOBALS_TID as int].meta is None,
            old(self).handle.stack@.len() < MAXCSTACK,
            T::read_req(
                old(self).handle.stack@.push(
                    raw_lookup(
                        tbl_entries(old(self).handle, GLOBALS_TID as int),
                        KeyView::KStr(idx@),
                    ),
                ),
                old(self).handle.reg@.len() as int,
                -1,
            ),
            T::size_spec() > 0 ==> T::read_stack(
                old(self).handle.stack@.push(
                    raw_lookup(
                        tbl_entries(old(self).handle, GLOBALS_TID as int),
                        KeyView::KStr(idx@),
                    ),
                ),
                -1,
            ).len() >= 1,
        ensures
            final(self).handle.wf(),
            ({
                let got = raw_lookup(
                    tbl_entries(old(self).handle, GLOBALS_TID as int),
                    KeyView::KStr(idx@),
                );
                let s1 = old(self).handle.stack@.push(got);
                &&& r == T::read_val(s1, old(self).handle.reg@, old(self).handle.free@, -1)
                &&& final(self).handle.stack@ == if T::size_spec() > 0 {
                    T::read_stack(s1, -1).drop_last()
                } else {
                    T::read_stack(s1, -1)
                }
                &&& (final(self).handle.reg@, final(self).handle.free@) == T::read_reg(
                    s1,
                    old(self).handle.reg@,
                    old(self).handle.free@,
                    -1,
                )
            }),
            final(self).handle.tables@ == old(self).handle.tables@,
            final(self).owner == old(self).owner,
    {
        proof {
            lemma_fast_get_equiv(
                self.handle.tables@,
                GLOBALS_TID as int,
                KeyView::KStr(idx@),
            );
        }
        let _ = flu_getlfield(&mut self.handle, LUA_GLOBALSINDEX, idx);
        self.pop::<T>()
    }

    /// Helper binding the identity-sequence length of a stack to the
    /// stack itself.
    proof fn lemma_vv_len(s: Seq<LuaValue>)
        ensures
            stack_vv(s).len() == s.len(),
    {
    }

    /// Writes a single-slot value to the named global.  The globals
    /// table is metatable-free by construction, so the write is the
    /// raw update.
    pub fn set<T: Push>(&mut self, idx: &str, val: T)
        requires
            old(self).handle.wf(),
            old(self).handle.tables@[GLOBALS_TID as int].meta is None,
            val.push_req(old(self).handle.stack@.len() as int, old(self).handle.reg@),
            val.pushed(old(self).handle.reg@).len() == 1,
            !(val.pushed(old(self).handle.reg@)[0] is VNone),
        ensures
            final(self).handle.wf(),
            final(self).handle.stack@ == old(self).handle.stack@,
            final(self).handle.reg@ == old(self).handle.reg@,
            final(self).handle.free@ == old(self).handle.free@,
            final(self).handle.tables@.len() == old(self).handle.tables@.len(),
            exists|kk: TKey, v2: LuaValue|
                key_view(kk) == KeyView::KStr(idx@) && vv(v2) == val.pushed(
                    old(self).handle.reg@,
                )[0] && tbl_entries(final(self).handle, GLOBALS_TID as int) == raw_update(
                    tbl_entries(old(self).handle, GLOBALS_TID as int),
                    kk,
                    v2,
                ),
            final(self).handle.tables@[GLOBALS_TID as int].meta is None,
            forall|t: int|
                0 <= t < old(self).handle.tables@.len() && t != GLOBALS_TID
                    ==> final(self).handle.tables@[t] == old(self).handle.tables@[t],
            final(self).owner == old(self).owner,
    {
        let ghost pre = self.handle;
        val.push(self);
        let ghost mid = self.handle;
        proof {
            lemma_vv_len(pre.stack@);
            lemma_vv_len(mid.stack@);
            assert(mid.stack@.len() == pre.stack@.len() + 1);
            let n = mid.stack@.len() - 1;
            assert(stack_vv(mid.stack@)[n] == vv(mid.stack@[n]));
            assert((stack_vv(pre.stack@) + val.pushed(pre.reg@))[n] == val.pushed(pre.reg@)[0]);
            assert(vv(mid.stack@.last()) == val.pushed(pre.reg@)[0]);
            lemma_fast_set_equiv(
                self.handle.tables@,
                GLOBALS_TID as int,
                KeyView::KStr(idx@),
            );
        }
        let _ = flu_setlfield(&mut self.handle, LUA_GLOBALSINDEX, idx);
        proof {
            assert(self.handle.stack@ =~= pre.stack@);
            let kk = choose|kk: TKey|
                key_view(kk) == KeyView::KStr(idx@) && tbl_entries(self.handle, GLOBALS_TID as int)
                    == raw_update(tbl_entries(mid, GLOBALS_TID as int), kk, mid.stack@.last());
            assert(key_view(kk) == KeyView::KStr(idx@) && vv(mid.stack@.last()) == val.pushed(
                pre.reg@,
            )[0] && tbl_entries(self.handle, GLOBALS_TID as int) == raw_update(
                tbl_entries(pre, GLOBALS_TID as int),
                kk,
                mid.stack@.last(),
            ));
        }
    }
}

/// A stack and its identity sequence have the same length.
proof fn lemma_vv_len(s: Seq<LuaValue>)
    ensures
        stack_vv(s).len() == s.len(),
{
}

/// The rendering [`Context::dump`] gives one slot: its position, a
/// colon, and the slot's kind name.
pub open spec fn dump_slot_str(i: int, v: LuaValue) -> Seq<char> {
    dec_str(i) + ": "@ + kind_name(v) + " "@
}

/// The rendering of a whole stack, slots `0..n`.
pub open spec fn dump_slots_str(stack: Seq<LuaValue>, n: int) -> Seq<char>
    decreases n,
{
    if n <= 0 {
        Seq::<char>::empty()
    } else {
        dump_slots_str(stack, n - 1) + dump_slot_str(n, stack[n - 1])
    }
}

impl Context {
    /// Renders the stack for diagnostics: its depth, then each slot's
    /// position and kind, bottom first.
    pub fn dump(&self) -> (out: String)
        requires
            self.handle.wf(),
        ensures
            out@ == "[ ("@ + dec_str(self.handle.stack@.len() as int) + ") "@ + dump_slots_str(
                self.handle.stack@,
                self.handle.stack@.len() as int,
            ) + "]"@,
    {
        let mut out = String::from_str("[ (");
        let n = crate::fmt::int_to_string(self.handle.gettop() as i64);
        out.append(n.as_str());
        out.append(") ");
        let ghost base = out@;
        let mut i: usize = 0;
        let total: usize = self.handle.stack.len();
        while i < total
            invariant
                self.handle.wf(),
                total == self.handle.stack@.len(),
                i <= total,
                out@ == base + dump_slots_str(self.handle.stack@, i as int),
            decreases total - i,
        {
            let pos = crate::fmt::int_to_string((i + 1) as i64);
            out.append(pos.as_str());
            out.append(": ");
            let name = self.handle.stack[i].typename();
            out.append(name.as_str());
            out.append(" ");
            i = i + 1;
            proof {
                assert(out@ =~= base + dump_slots_str(self.handle.stack@, i as int));
            }
        }
        out.append("]");
        proof {
            assert(out@ =~= "[ ("@ + dec_str(self.handle.stack@.len() as int) + ") "@
                + dump_slots_str(self.handle.stack@, self.handle.stack@.len() as int) + "]"@);
        }
        out
    }
}

} // verus!
