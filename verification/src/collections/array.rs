//! The array-shaped composite view: a table accessed through
//! zero-based integer positions and the raw path alone.

use vstd::prelude::*;
use core::marker::PhantomData;
use crate::borrow::LuaRef;
use crate::context::Context;
use crate::push::Push;
use crate::read::Read;
use crate::size::Size;
use crate::rt::lua_State;
use crate::rt::MAXCSTACK;
use crate::rt::RegSlot;
use crate::rt::raw_lookup;
use crate::rt::raw_update;
use crate::rt::reg_val;
use crate::rt::tbl_entries;
use crate::rt::entry_pos;
use crate::rt::lemma_entry_pos;
use crate::value::LuaValue;
use crate::value::TKey;
use crate::value::KeyView;
use crate::value::key_view;
use crate::value::vv;
use crate::value::VV;

verus! {

/// A typed accessor over an anchored foreign table addressed by
/// zero-based positions.
#[derive(Debug, PartialEq)]
pub struct Array {
    pub ptr: LuaRef,
}

impl Array {
    /// Whether this view is admissible against a state.
    pub open spec fn ok(self, s: lua_State) -> bool {
        &&& 1 <= self.ptr.key <= s.reg@.len()
        &&& s.reg@[self.ptr.key - 1] is Val
        &&& reg_val(s.reg@, self.ptr.key as int) is Table
    }

    /// The arena identifier of the table this view addresses.
    pub open spec fn tid(self, s: lua_State) -> int {
        reg_val(s.reg@, self.ptr.key as int)->Table_0 as int
    }

    /// The arena identifier, resolved through the registry.
    fn tid_of(&self, ctx: &Context) -> (tid: usize)
        requires
            ctx.handle.wf(),
            self.ok(ctx.handle),
        ensures
            tid as int == self.tid(ctx.handle),
            (tid as int) < ctx.handle.tables@.len(),
    {
        match &ctx.handle.reg[(self.ptr.key - 1) as usize] {
            RegSlot::Val(LuaValue::Table(t)) => *t,
            _ => 0,
        }
    }

    /// Creates a fresh empty table and an anchored array view of it.
    pub fn new(ctx: &mut Context) -> (a: Array)
        requires
            old(ctx).handle.wf(),
            old(ctx).handle.stack@.len() + 1 < MAXCSTACK,
            old(ctx).handle.reg@.len() < 0x40000000,
        ensures
            final(ctx).handle.wf(),
            a.ok(final(ctx).handle),
            a.tid(final(ctx).handle) == old(ctx).handle.tables@.len(),
            final(ctx).handle.stack@ == old(ctx).handle.stack@,
            final(ctx).handle.tables@.len() == old(ctx).handle.tables@.len() + 1,
            forall|i: int|
                0 <= i < old(ctx).handle.tables@.len() ==> final(ctx).handle.tables@[i] == old(
                    ctx,
                ).handle.tables@[i],
            tbl_entries(final(ctx).handle, a.tid(final(ctx).handle)).len() == 0,
            final(ctx).handle.tables@[a.tid(final(ctx).handle)].meta is None,
            (final(ctx).handle.reg@, final(ctx).handle.free@, a.ptr.key as int)
                == crate::rt::spec_anchor(
                old(ctx).handle.reg@,
                old(ctx).handle.free@,
                LuaValue::Table((old(ctx).handle.tables@.len()) as usize),
            ),
            final(ctx).owner == old(ctx).owner,
    {
        let ghost s0 = ctx.handle.stack@;
        let tid = ctx.handle.new_table();
        let ptr = <LuaRef as Read>::read(ctx, -1);
        ctx.handle.pop_n(1);
        proof {
            assert(ctx.handle.stack@ =~= s0);
        }
        Array { ptr }
    }

    /// Reads position `idx` (stored under integer key `idx + 1`).
    pub fn get<T: Read + Size>(&self, ctx: &mut Context, idx: i32) -> (r: T)
        requires
            old(ctx).handle.wf(),
            self.ok(old(ctx).handle),
            old(ctx).handle.stack@.len() < MAXCSTACK,
            T::read_req(
                old(ctx).handle.stack@.push(
                    raw_lookup(
                        tbl_entries(old(ctx).handle, self.tid(old(ctx).handle)),
                        KeyView::KInt(idx + 1),
                    ),
                ),
                old(ctx).handle.reg@.len() as int,
                -1,
            ),
            T::size_spec() > 0 ==> T::read_stack(
                old(ctx).handle.stack@.push(
                    raw_lookup(
                        tbl_entries(old(ctx).handle, self.tid(old(ctx).handle)),
                        KeyView::KInt(idx + 1),
                    ),
                ),
                -1,
            ).len() >= 1,
        ensures
            final(ctx).handle.wf(),
            ({
                let got = raw_lookup(
                    tbl_entries(old(ctx).handle, self.tid(old(ctx).handle)),
                    KeyView::KInt(idx + 1),
                );
                let s1 = old(ctx).handle.stack@.push(got);
                &&& r == T::read_val(s1, old(ctx).handle.reg@, old(ctx).handle.free@, -1)
                &&& final(ctx).handle.stack@ == if T::size_spec() > 0 {
                    T::read_stack(s1, -1).drop_last()
                } else {
                    T::read_stack(s1, -1)
                }
                &&& (final(ctx).handle.reg@, final(ctx).handle.free@) == T::read_reg(
                    s1,
                    old(ctx).handle.reg@,
                    old(ctx).handle.free@,
                    -1,
                )
            }),
            final(ctx).handle.tables@ == old(ctx).handle.tables@,
            final(ctx).owner == old(ctx).owner,
    {
        let tid = self.tid_of(ctx);
        let key = TKey::Int(idx as i64 + 1);
        let v = ctx.handle.raw_get(tid, &key);
        ctx.handle.push_value(v);
        ctx.pop::<T>()
    }

    /// Writes a single-slot value at position `idx` (integer key
    /// `idx + 1`), through the raw path.
    pub fn set<T: Push + Size>(&self, ctx: &mut Context, idx: i32, val: T)
        requires
            old(ctx).handle.wf(),
            self.ok(old(ctx).handle),
            val.push_req(old(ctx).handle.stack@.len() as int, old(ctx).handle.reg@),
            val.pushed(old(ctx).handle.reg@).len() == 1,
            !(val.pushed(old(ctx).handle.reg@)[0] is VNone),
        ensures
            final(ctx).handle.wf(),
            final(ctx).handle.stack@ == old(ctx).handle.stack@,
            final(ctx).handle.reg@ == old(ctx).handle.reg@,
            final(ctx).handle.free@ == old(ctx).handle.free@,
            final(ctx).handle.tables@.len() == old(ctx).handle.tables@.len(),
            exists|kk: TKey, v2: LuaValue|
                key_view(kk) == KeyView::KInt(idx + 1) && vv(v2) == val.pushed(
                    old(ctx).handle.reg@,
                )[0] && tbl_entries(final(ctx).handle, self.tid(old(ctx).handle)) == raw_update(
                    tbl_entries(old(ctx).handle, self.tid(old(ctx).handle)),
                    kk,
                    v2,
                ),
            final(ctx).handle.tables@[self.tid(old(ctx).handle)].meta == old(
                ctx,
            ).handle.tables@[self.tid(old(ctx).handle)].meta,
            forall|t: int|
                0 <= t < old(ctx).handle.tables@.len() && t != self.tid(old(ctx).handle)
                    ==> final(ctx).handle.tables@[t] == old(ctx).handle.tables@[t],
            final(ctx).owner == old(ctx).owner,
    {
        let tid = self.tid_of(ctx);
        let ghost pre = ctx.handle;
        val.push(ctx);
        let ghost mid = ctx.handle;
        proof {
            lemma_vv_len_arr(pre.stack@);
            lemma_vv_len_arr(mid.stack@);
            let n = mid.stack@.len() - 1;
            assert(crate::value::stack_vv(mid.stack@)[n] == vv(mid.stack@[n]));
            assert((crate::value::stack_vv(pre.stack@) + val.pushed(pre.reg@))[n] == val.pushed(
                pre.reg@,
            )[0]);
            assert(vv(mid.stack@.last()) == val.pushed(pre.reg@)[0]);
        }
        let v = ctx.handle.read_slot(-1);
        ctx.handle.pop_n(1);
        proof {
            assert(ctx.handle.stack@ =~= pre.stack@);
        }
        let key = TKey::Int(idx as i64 + 1);
        ctx.handle.raw_set(tid, key, v);
        proof {
            assert(key_view(key) == KeyView::KInt(idx + 1) && vv(v) == val.pushed(pre.reg@)[0]
                && tbl_entries(ctx.handle, tid as int) == raw_update(
                tbl_entries(pre, tid as int),
                key,
                v,
            ));
        }
    }

    /// The length operator's answer: a border of the array's keys.
    pub fn len(&self, ctx: &Context) -> (n: usize)
        requires
            ctx.handle.wf(),
            self.ok(ctx.handle),
        ensures
            forall|k: int|
                1 <= k <= n ==> !(raw_lookup(
                    tbl_entries(ctx.handle, self.tid(ctx.handle)),
                    KeyView::KInt(k),
                ) is Nil),
            n < 0x8000000 ==> raw_lookup(
                tbl_entries(ctx.handle, self.tid(ctx.handle)),
                KeyView::KInt(n + 1),
            ) is Nil,
    {
        let tid = self.tid_of(ctx);
        ctx.handle.table_len(tid)
    }

    /// A cursor over the array's entries, in insertion order.
    pub fn iter<T: Read + Size>(&self) -> (it: ArrayIterator<T>)
        ensures
            it.key == self.ptr.key,
            it.prev is None,
    {
        ArrayIterator { key: self.ptr.key, prev: None, _marker: PhantomData }
    }

    /// Builds an array holding the vector's single-slot values at
    /// positions `0..n`, anchored as a view.
    pub fn from_vec<V: Push + Size>(ctx: &mut Context, vec: &Vec<V>) -> (a: Array)
        requires
            old(ctx).handle.wf(),
            old(ctx).handle.stack@.len() + 2 < MAXCSTACK,
            old(ctx).handle.reg@.len() < 0x40000000,
            vec@.len() < 0x8000000,
            forall|i: int|
                0 <= i < vec@.len() ==> (#[trigger] vec@[i]).push_req(
                    old(ctx).handle.stack@.len() as int + 1,
                    old(ctx).handle.reg@,
                ) && vec@[i].pushed(old(ctx).handle.reg@).len() == 1 && !(vec@[i].pushed(
                    old(ctx).handle.reg@,
                )[0] is VNone) && !(vec@[i].pushed(old(ctx).handle.reg@)[0] is VNil),
        ensures
            final(ctx).handle.wf(),
            a.ok(final(ctx).handle),
            final(ctx).handle.stack@ == old(ctx).handle.stack@,
            final(ctx).handle.tables@.len() == old(ctx).handle.tables@.len() + 1,
            forall|i: int|
                0 <= i < old(ctx).handle.tables@.len() ==> final(ctx).handle.tables@[i] == old(
                    ctx,
                ).handle.tables@[i],
            ({
                let es = tbl_entries(final(ctx).handle, a.tid(final(ctx).handle));
                &&& es.len() == vec@.len()
                &&& forall|i: int|
                    0 <= i < vec@.len() ==> key_view(#[trigger] es[i].0) == KeyView::KInt(i + 1)
                        && vv(es[i].1) == vec@[i].pushed(old(ctx).handle.reg@)[0]
            }),
            (final(ctx).handle.reg@, final(ctx).handle.free@, a.ptr.key as int)
                == crate::rt::spec_anchor(
                old(ctx).handle.reg@,
                old(ctx).handle.free@,
                LuaValue::Table((old(ctx).handle.tables@.len()) as usize),
            ),
            final(ctx).owner == old(ctx).owner,
    {
        let t = crate::collections::Table::from_vec(ctx, vec);
        Array { ptr: t.ptr }
    }
}

/// A stack and its identity sequence have the same length.
proof fn lemma_vv_len_arr(s: Seq<LuaValue>)
    ensures
        crate::value::stack_vv(s).len() == s.len(),
{
}

/// A lazy, non-restartable cursor over an array view's entries,
/// yielding values in insertion order.
pub struct ArrayIterator<T> {
    pub key: i32,
    pub prev: Option<TKey>,
    pub _marker: PhantomData<T>,
}

impl<T: Read + Size> ArrayIterator<T> {
    /// The position the cursor will yield next.
    pub open spec fn pos(self, entries: Seq<(TKey, LuaValue)>) -> int {
        match self.prev {
            None => 0,
            Some(k) => entry_pos(entries, key_view(k)) + 1,
        }
    }

    /// Yields the next value, or `None` once exhausted.  The table
    /// must not have been mutated since the previous step.
    pub fn next(&mut self, ctx: &mut Context) -> (r: Option<T>)
        requires
            old(ctx).handle.wf(),
            1 <= old(self).key <= old(ctx).handle.reg@.len(),
            old(ctx).handle.reg@[old(self).key - 1] is Val,
            reg_val(old(ctx).handle.reg@, old(self).key as int) is Table,
            old(ctx).handle.stack@.len() < MAXCSTACK,
            match old(self).prev {
                Some(k) => entry_pos(
                    tbl_entries(
                        old(ctx).handle,
                        reg_val(old(ctx).handle.reg@, old(self).key as int)->Table_0 as int,
                    ),
                    key_view(k),
                ) != -1,
                None => true,
            },
            ({
                let es = tbl_entries(
                    old(ctx).handle,
                    reg_val(old(ctx).handle.reg@, old(self).key as int)->Table_0 as int,
                );
                let p = old(self).pos(es);
                p < es.len() ==> T::read_req(
                    old(ctx).handle.stack@.push(es[p].1),
                    old(ctx).handle.reg@.len() as int,
                    -1,
                ) && (T::size_spec() > 0 ==> T::read_stack(
                    old(ctx).handle.stack@.push(es[p].1),
                    -1,
                ).len() >= 1)
            }),
        ensures
            final(ctx).handle.wf(),
            final(self).key == old(self).key,
            final(ctx).handle.tables@ == old(ctx).handle.tables@,
            final(ctx).owner == old(ctx).owner,
            ({
                let es = tbl_entries(
                    old(ctx).handle,
                    reg_val(old(ctx).handle.reg@, old(self).key as int)->Table_0 as int,
                );
                let p = old(self).pos(es);
                if p >= es.len() {
                    r is None && *final(ctx) == *old(ctx) && final(self).prev == old(self).prev
                } else {
                    let s1 = old(ctx).handle.stack@.push(es[p].1);
                    &&& r matches Some(out) && out == T::read_val(
                        s1,
                        old(ctx).handle.reg@,
                        old(ctx).handle.free@,
                        -1,
                    )
                    &&& final(self).prev == Some(es[p].0)
                    &&& final(ctx).handle.stack@ == if T::size_spec() > 0 {
                        T::read_stack(s1, -1).drop_last()
                    } else {
                        T::read_stack(s1, -1)
                    }
                    &&& (final(ctx).handle.reg@, final(ctx).handle.free@) == T::read_reg(
                        s1,
                        old(ctx).handle.reg@,
                        old(ctx).handle.free@,
                        -1,
                    )
                }
            }),
    {
        let tid = match &ctx.handle.reg[(self.key - 1) as usize] {
            RegSlot::Val(LuaValue::Table(t)) => *t,
            _ => 0,
        };
        let prev_ref = match &self.prev {
            Some(k) => Some(crate::rt::clone_key(k)),
            None => None,
        };
        proof {
            assert(ctx.handle.reg@[self.key - 1] == old(ctx).handle.reg@[old(self).key - 1]);
            assert((tid as int) < ctx.handle.tables@.len());
        }
        let ghost es0 = tbl_entries(ctx.handle, tid as int);
        let ghost p0 = old(self).pos(es0);
        let step = match &prev_ref {
            Some(k) => ctx.handle.next_entry(tid, Some(k)),
            None => ctx.handle.next_entry(tid, None),
        };
        proof {
            assert(ctx.handle.tbl_ok(ctx.handle.tables@[tid as int]));
            if old(self).prev is Some {
                lemma_entry_pos(es0, key_view(old(self).prev->0));
            }
            if step is Some {
                assert(0 <= p0 < es0.len());
                assert(ctx.handle.tables@[tid as int].entries@[p0].1 == es0[p0].1);
            }
        }
        match step {
            Some((k, v)) => {
                self.prev = Some(k);
                ctx.handle.push_value(v);
                let out = ctx.pop::<T>();
                Some(out)
            },
            None => None,
        }
    }
}


impl crate::push::Push for Array {
    open spec fn pushed(&self, reg: Seq<crate::rt::RegSlot>) -> Seq<VV> {
        if self.ptr.key == -1 {
            seq![VV::VNil]
        } else {
            seq![vv(reg_val(reg, self.ptr.key as int))]
        }
    }

    open spec fn push_req(&self, stack_len: int, reg: Seq<crate::rt::RegSlot>) -> bool {
        stack_len < MAXCSTACK && (self.ptr.key == -1 || (1 <= self.ptr.key <= reg.len()
            && reg[self.ptr.key - 1] is Val))
    }

    fn push(&self, cxt: &mut Context) {
        let ghost s0 = cxt.handle.stack@;
        cxt.handle.reg_push(self.ptr.key);
        proof {
            crate::push::lemma_stack_vv_push(s0, final(cxt).handle.stack@.last());
        }
    }
}

impl crate::size::Size for Array {
    open spec fn size_spec() -> int {
        1
    }

    fn size() -> i32 {
        1
    }
}


impl crate::read::Read for Array {
    open spec fn read_req(stack: Seq<LuaValue>, reg_len: int, idx: int) -> bool {
        <LuaRef as crate::read::Read>::read_req(stack, reg_len, idx)
    }

    open spec fn read_val(
        stack: Seq<LuaValue>,
        reg: Seq<crate::rt::RegSlot>,
        free: Seq<i32>,
        idx: int,
    ) -> Array {
        Array { ptr: <LuaRef as crate::read::Read>::read_val(stack, reg, free, idx) }
    }

    open spec fn read_stack(stack: Seq<LuaValue>, idx: int) -> Seq<LuaValue> {
        <LuaRef as crate::read::Read>::read_stack(stack, idx)
    }

    open spec fn read_reg(
        stack: Seq<LuaValue>,
        reg: Seq<crate::rt::RegSlot>,
        free: Seq<i32>,
        idx: int,
    ) -> (Seq<crate::rt::RegSlot>, Seq<i32>) {
        <LuaRef as crate::read::Read>::read_reg(stack, reg, free, idx)
    }

    open spec fn check_spec(stack: Seq<LuaValue>, idx: int) -> bool {
        crate::rt::slot(stack, idx) is Table
    }

    /// Anchors the addressed value as a view, consuming the slot; the
    /// kind test is the caller's business, as [`Array::check`] offers it.
    fn read(cxt: &mut Context, idx: i32) -> (r: Array) {
        let ptr = <LuaRef as crate::read::Read>::read(cxt, idx);
        Array { ptr }
    }

    fn check(cxt: &Context, idx: i32) -> (b: bool) {
        match cxt.handle.read_slot(idx) {
            LuaValue::Table(_) => true,
            _ => false,
        }
    }
}

} // verus!
