//! The table-shaped composite view: structured get/set/iterate over an
//! anchored foreign table.

use vstd::prelude::*;
use core::marker::PhantomData;
use crate::borrow::LuaRef;
use crate::context::Context;
use crate::push::Push;
use crate::read::Read;
use crate::size::Size;
use crate::rt::lua_State;
use crate::rt::MAXCSTACK;
use crate::rt::RegSlot;
use crate::rt::raw_lookup;
use crate::rt::raw_update;
use crate::rt::reg_val;
use crate::rt::slot;
use crate::rt::tbl_entries;
use crate::rt::entry_pos;
use crate::rt::lemma_entry_pos;
use crate::rt::spec_get_field;
use crate::rt::spec_set_dest;
use crate::rt::TAG_LOOP_MAX;
use crate::num::int_bits;
use crate::value::LuaValue;
use crate::value::TKey;
use crate::value::KeyView;
use crate::value::key_view;
use crate::value::vv;
use crate::value::VV;
use crate::collections::LuaIndex;

verus! {

/// A typed accessor over an anchored foreign table.  It owns no data:
/// only the anchoring reference.
#[derive(Debug, PartialEq)]
pub struct Table {
    pub ptr: LuaRef,
}

impl Table {
    /// Whether this view is admissible against a state: its key
    /// anchors a live registry slot holding a table.
    pub open spec fn ok(self, s: lua_State) -> bool {
        &&& 1 <= self.ptr.key <= s.reg@.len()
        &&& s.reg@[self.ptr.key - 1] is Val
        &&& reg_val(s.reg@, self.ptr.key as int) is Table
    }

    /// The arena identifier of the table this view addresses.
    pub open spec fn tid(self, s: lua_State) -> int {
        reg_val(s.reg@, self.ptr.key as int)->Table_0 as int
    }

    /// Creates a fresh empty table and an anchored view of it.  The
    /// stack is left exactly as it was.
    pub fn new(ctx: &mut Context) -> (t: Table)
        requires
            old(ctx).handle.wf(),
            old(ctx).handle.stack@.len() + 1 < MAXCSTACK,
            old(ctx).handle.reg@.len() < 0x40000000,
        ensures
            final(ctx).handle.wf(),
            t.ok(final(ctx).handle),
            t.tid(final(ctx).handle) == old(ctx).handle.tables@.len(),
            final(ctx).handle.stack@ == old(ctx).handle.stack@,
            final(ctx).handle.tables@.len() == old(ctx).handle.tables@.len() + 1,
            forall|i: int|
                0 <= i < old(ctx).handle.tables@.len() ==> final(ctx).handle.tables@[i] == old(
                    ctx,
                ).handle.tables@[i],
            tbl_entries(final(ctx).handle, t.tid(final(ctx).handle)).len() == 0,
            final(ctx).handle.tables@[t.tid(final(ctx).handle)].meta is None,
            (final(ctx).handle.reg@, final(ctx).handle.free@, t.ptr.key as int)
                == crate::rt::spec_anchor(
                old(ctx).handle.reg@,
                old(ctx).handle.free@,
                LuaValue::Table((old(ctx).handle.tables@.len()) as usize),
            ),
            final(ctx).handle.live_keys() == old(ctx).handle.live_keys().insert(
                t.ptr.key as int,
            ),
            final(ctx).owner == old(ctx).owner,
    {
        let ghost s0 = ctx.handle.stack@;
        let tid = ctx.handle.new_table();
        let ptr = <LuaRef as Read>::read(ctx, -1);
        ctx.handle.pop_n(1);
        proof {
            assert(ctx.handle.stack@ =~= s0);
        }
        Table { ptr }
    }

    /// Reads the field `idx` addresses, as `T`: raw access for
    /// integer keys, the generic metamethod-dispatching field-get for
    /// string keys.  The dispatch chain must be within the runtime's
    /// depth bound — the condition under which the runtime itself
    /// would not fault.
    pub fn get<T: Read + Size, K: LuaIndex>(&self, ctx: &mut Context, idx: K) -> (r: T)
        requires
            old(ctx).handle.wf(),
            self.ok(old(ctx).handle),
            idx.key_ok(),
            idx.uses_raw() || spec_get_field(
                old(ctx).handle.tables@,
                self.tid(old(ctx).handle),
                idx.kv(),
                TAG_LOOP_MAX as nat,
            ) is Some,
            old(ctx).handle.stack@.len() < MAXCSTACK,
            T::read_req(
                old(ctx).handle.stack@.push(view_got(old(ctx).handle, self.tid(old(ctx).handle), idx.kv(), idx.uses_raw())),
                old(ctx).handle.reg@.len() as int,
                -1,
            ),
            T::size_spec() > 0 ==> T::read_stack(
                old(ctx).handle.stack@.push(view_got(old(ctx).handle, self.tid(old(ctx).handle), idx.kv(), idx.uses_raw())),
                -1,
            ).len() >= 1,
        ensures
            final(ctx).handle.wf(),
            ({
                let got = view_got(
                    old(ctx).handle,
                    self.tid(old(ctx).handle),
                    idx.kv(),
                    idx.uses_raw(),
                );
                let s1 = old(ctx).handle.stack@.push(got);
                &&& r == T::read_val(s1, old(ctx).handle.reg@, old(ctx).handle.free@, -1)
                &&& final(ctx).handle.stack@ == if T::size_spec() > 0 {
                    T::read_stack(s1, -1).drop_last()
                } else {
                    T::read_stack(s1, -1)
                }
                &&& (final(ctx).handle.reg@, final(ctx).handle.free@) == T::read_reg(
                    s1,
                    old(ctx).handle.reg@,
                    old(ctx).handle.free@,
                    -1,
                )
            }),
            final(ctx).handle.tables@ == old(ctx).handle.tables@,
            final(ctx).owner == old(ctx).owner,
    {
        let tid = self.tid_of(ctx);
        let key = idx.key_of();
        let v = if idx.raw() {
            ctx.handle.raw_get(tid, &key)
        } else {
            match ctx.handle.get_field(tid, &key) {
                Ok(v) => v,
                Err(_) => LuaValue::Nil,
            }
        };
        ctx.handle.push_value(v);
        ctx.pop::<T>()
    }

    /// The arena identifier, resolved through the registry.
    fn tid_of(&self, ctx: &Context) -> (tid: usize)
        requires
            ctx.handle.wf(),
            self.ok(ctx.handle),
        ensures
            tid as int == self.tid(ctx.handle),
            (tid as int) < ctx.handle.tables@.len(),
    {
        match &ctx.handle.reg[(self.ptr.key - 1) as usize] {
            RegSlot::Val(LuaValue::Table(t)) => *t,
            _ => 0,
        }
    }

    /// Writes a single-slot value to the field `idx` addresses: a raw
    /// update for integer keys, the generic metamethod-dispatching
    /// field-set for string keys — the write lands wherever the
    /// newindex chain leads (or nowhere, when a function-valued
    /// handler would re-enter the interpreter).
    pub fn set<T: Push, K: LuaIndex>(&self, ctx: &mut Context, idx: K, val: T)
        requires
            old(ctx).handle.wf(),
            self.ok(old(ctx).handle),
            idx.key_ok(),
            idx.uses_raw() || spec_set_dest(
                old(ctx).handle.tables@,
                self.tid(old(ctx).handle),
                idx.kv(),
                TAG_LOOP_MAX as nat,
            ) is Some,
            val.push_req(old(ctx).handle.stack@.len() as int, old(ctx).handle.reg@),
            val.pushed(old(ctx).handle.reg@).len() == 1,
            !(val.pushed(old(ctx).handle.reg@)[0] is VNone),
        ensures
            final(ctx).handle.wf(),
            final(ctx).handle.stack@ == old(ctx).handle.stack@,
            final(ctx).handle.reg@ == old(ctx).handle.reg@,
            final(ctx).handle.free@ == old(ctx).handle.free@,
            final(ctx).handle.tables@.len() == old(ctx).handle.tables@.len(),
            ({
                let d = view_dest(
                    old(ctx).handle,
                    self.tid(old(ctx).handle),
                    idx.kv(),
                    idx.uses_raw(),
                );
                if d >= 0 {
                    &&& exists|kk: TKey, v2: LuaValue|
                        key_view(kk) == idx.kv() && vv(v2) == val.pushed(
                            old(ctx).handle.reg@,
                        )[0] && tbl_entries(final(ctx).handle, d) == raw_update(
                            tbl_entries(old(ctx).handle, d),
                            kk,
                            v2,
                        )
                    &&& final(ctx).handle.tables@[d].meta == old(ctx).handle.tables@[d].meta
                    &&& forall|t: int|
                        0 <= t < old(ctx).handle.tables@.len() && t != d
                            ==> final(ctx).handle.tables@[t] == old(ctx).handle.tables@[t]
                } else {
                    final(ctx).handle.tables@ == old(ctx).handle.tables@
                }
            }),
            final(ctx).owner == old(ctx).owner,
    {
        let tid = self.tid_of(ctx);
        let ghost pre = ctx.handle;
        val.push(ctx);
        let ghost mid = ctx.handle;
        proof {
            lemma_vv_len_local(pre.stack@);
            lemma_vv_len_local(mid.stack@);
            let n = mid.stack@.len() - 1;
            assert(crate::value::stack_vv(mid.stack@)[n] == vv(mid.stack@[n]));
            assert((crate::value::stack_vv(pre.stack@) + val.pushed(pre.reg@))[n] == val.pushed(
                pre.reg@,
            )[0]);
            assert(vv(mid.stack@.last()) == val.pushed(pre.reg@)[0]);
        }
        let v = ctx.handle.read_slot(-1);
        ctx.handle.pop_n(1);
        proof {
            assert(ctx.handle.stack@ =~= pre.stack@);
        }
        let key = idx.key_of();
        if idx.raw() {
            ctx.handle.raw_set(tid, key, v);
            proof {
                let kk = key;
                assert(key_view(kk) == idx.kv() && vv(v) == val.pushed(pre.reg@)[0]
                    && tbl_entries(ctx.handle, tid as int) == raw_update(
                    tbl_entries(pre, tid as int),
                    kk,
                    v,
                ));
            }
        } else {
            let ghost gkey = key;
            let ghost gv = v;
            let r = ctx.handle.set_field(tid, key, v);
            proof {
                match spec_set_dest(pre.tables@, tid as int, key_view(gkey), TAG_LOOP_MAX as nat) {
                    Some(d) => {
                        if d >= 0 {
                            assert(key_view(gkey) == idx.kv() && vv(gv) == val.pushed(
                                pre.reg@,
                            )[0] && tbl_entries(ctx.handle, d) == raw_update(
                                tbl_entries(pre, d),
                                gkey,
                                gv,
                            ));
                        }
                    },
                    None => {},
                }
            }
        }
    }

    /// The length operator's answer: a border of the table's integer
    /// keys.
    pub fn len(&self, ctx: &Context) -> (n: usize)
        requires
            ctx.handle.wf(),
            self.ok(ctx.handle),
        ensures
            forall|k: int|
                1 <= k <= n ==> !(raw_lookup(
                    tbl_entries(ctx.handle, self.tid(ctx.handle)),
                    KeyView::KInt(k),
                ) is Nil),
            n < 0x8000000 ==> raw_lookup(
                tbl_entries(ctx.handle, self.tid(ctx.handle)),
                KeyView::KInt(n + 1),
            ) is Nil,
    {
        let tid = self.tid_of(ctx);
        ctx.handle.table_len(tid)
    }

    /// A cursor over the table's entries, in insertion order.  Only
    /// one cursor per view may be driven at a time, and the table must
    /// not be mutated while it is live.
    pub fn iter<T: Read + Size>(&self) -> (it: TableIterator<T>)
        ensures
            it.key == self.ptr.key,
            it.prev is None,
    {
        TableIterator { key: self.ptr.key, prev: None, _marker: PhantomData }
    }

    /// Builds a table holding the vector's single-slot values at keys
    /// `1..=n`, anchored as a view.
    pub fn from_vec<V: Push + Size>(ctx: &mut Context, vec: &Vec<V>) -> (t: Table)
        requires
            old(ctx).handle.wf(),
            old(ctx).handle.stack@.len() + 2 < MAXCSTACK,
            old(ctx).handle.reg@.len() < 0x40000000,
            vec@.len() < 0x8000000,
            forall|i: int|
                0 <= i < vec@.len() ==> (#[trigger] vec@[i]).push_req(
                    old(ctx).handle.stack@.len() as int + 1,
                    old(ctx).handle.reg@,
                ) && vec@[i].pushed(old(ctx).handle.reg@).len() == 1 && !(vec@[i].pushed(
                    old(ctx).handle.reg@,
                )[0] is VNone) && !(vec@[i].pushed(old(ctx).handle.reg@)[0] is VNil),
        ensures
            final(ctx).handle.wf(),
            t.ok(final(ctx).handle),
            final(ctx).handle.stack@ == old(ctx).handle.stack@,
            final(ctx).handle.tables@.len() == old(ctx).handle.tables@.len() + 1,
            forall|i: int|
                0 <= i < old(ctx).handle.tables@.len() ==> final(ctx).handle.tables@[i] == old(
                    ctx,
                ).handle.tables@[i],
            ({
                let es = tbl_entries(final(ctx).handle, t.tid(final(ctx).handle));
                &&& es.len() == vec@.len()
                &&& forall|i: int|
                    0 <= i < vec@.len() ==> key_view(#[trigger] es[i].0) == KeyView::KInt(i + 1)
                        && vv(es[i].1) == vec@[i].pushed(old(ctx).handle.reg@)[0]
            }),
            (final(ctx).handle.reg@, final(ctx).handle.free@, t.ptr.key as int)
                == crate::rt::spec_anchor(
                old(ctx).handle.reg@,
                old(ctx).handle.free@,
                LuaValue::Table((old(ctx).handle.tables@.len()) as usize),
            ),
            final(ctx).owner == old(ctx).owner,
    {
        let ghost reg0 = ctx.handle.reg@;
        let ghost s0 = ctx.handle.stack@;
        let tid = ctx.handle.new_table();
        let mut k: usize = 0;
        while k < vec.len()
            invariant
                ctx.handle.wf(),
                k <= vec@.len(),
                vec@.len() < 0x8000000,
                (tid as int) < ctx.handle.tables@.len(),
                tid as int == s0.len() < MAXCSTACK ==> true,
                ctx.handle.stack@ == s0.push(LuaValue::Table(tid)),
                s0.len() + 2 < MAXCSTACK,
                ctx.handle.reg@ == reg0,
                ctx.handle.free@ == old(ctx).handle.free@,
                tid as int == old(ctx).handle.tables@.len(),
                ctx.handle.tables@.len() == old(ctx).handle.tables@.len() + 1,
                forall|i: int|
                    0 <= i < old(ctx).handle.tables@.len() ==> ctx.handle.tables@[i] == old(
                        ctx,
                    ).handle.tables@[i],
                ctx.handle.tables@[tid as int].meta is None,
                ctx.owner == old(ctx).owner,
                forall|i: int|
                    0 <= i < vec@.len() ==> (#[trigger] vec@[i]).push_req(s0.len() as int + 1, reg0)
                        && vec@[i].pushed(reg0).len() == 1 && !(vec@[i].pushed(reg0)[0] is VNone)
                        && !(vec@[i].pushed(reg0)[0] is VNil),
                ({
                    let es = tbl_entries(ctx.handle, tid as int);
                    &&& es.len() == k
                    &&& forall|i: int|
                        0 <= i < k ==> key_view(#[trigger] es[i].0) == KeyView::KInt(i + 1)
                            && vv(es[i].1) == vec@[i].pushed(reg0)[0]
                }),
            decreases vec@.len() - k,
        {
            let ghost pre = ctx.handle;
            vec[k].push(ctx);
            let ghost mid = ctx.handle;
            proof {
                lemma_vv_len_local(pre.stack@);
                lemma_vv_len_local(mid.stack@);
                let n = mid.stack@.len() - 1;
                assert(crate::value::stack_vv(mid.stack@)[n] == vv(mid.stack@[n]));
                assert((crate::value::stack_vv(pre.stack@) + vec@[k as int].pushed(pre.reg@))[n]
                    == vec@[k as int].pushed(pre.reg@)[0]);
                assert(vv(mid.stack@.last()) == vec@[k as int].pushed(reg0)[0]);
            }
            let v = ctx.handle.read_slot(-1);
            ctx.handle.pop_n(1);
            proof {
                assert(ctx.handle.stack@ =~= pre.stack@);
            }
            let key = TKey::Int((k + 1) as i64);
            proof {
                let es = tbl_entries(ctx.handle, tid as int);
                lemma_entry_pos(es, key_view(key));
                if entry_pos(es, key_view(key)) != -1 {
                    let p = entry_pos(es, key_view(key));
                    assert(key_view(es[p].0) == KeyView::KInt(k + 1));
                    assert(false);
                }
            }
            ctx.handle.raw_set(tid, key, v);
            k = k + 1;
        }
        let ptr = <LuaRef as Read>::read(ctx, -1);
        ctx.handle.pop_n(1);
        proof {
            assert(ctx.handle.stack@ =~= s0);
        }
        Table { ptr }
    }
}

/// A pair list folded onto a table one raw update at a time: a later
/// pair overrides an earlier one with the same key, and a nil value
/// removes the key.
pub open spec fn from_pairs(
    entries: Seq<(TKey, LuaValue)>,
    pairs: Seq<(TKey, LuaValue)>,
) -> Seq<(TKey, LuaValue)>
    decreases pairs.len(),
{
    if pairs.len() == 0 {
        entries
    } else {
        from_pairs(raw_update(entries, pairs[0].0, pairs[0].1), pairs.drop_first())
    }
}

/// Folding one more pair is one more raw update.
pub proof fn lemma_from_pairs_push(
    entries: Seq<(TKey, LuaValue)>,
    pairs: Seq<(TKey, LuaValue)>,
    p: (TKey, LuaValue),
)
    ensures
        from_pairs(entries, pairs.push(p)) == raw_update(from_pairs(entries, pairs), p.0, p.1),
    decreases pairs.len(),
{
    if pairs.len() == 0 {
        assert(pairs.push(p)[0] == p);
        assert(pairs.push(p).drop_first() =~= Seq::<(TKey, LuaValue)>::empty());
        assert(from_pairs(raw_update(entries, p.0, p.1), Seq::<(TKey, LuaValue)>::empty())
            == raw_update(entries, p.0, p.1));
        assert(from_pairs(entries, pairs.push(p)) == raw_update(entries, p.0, p.1));
        assert(from_pairs(entries, pairs) == entries);
    } else {
        assert(pairs.push(p)[0] == pairs[0]);
        assert(pairs.push(p).drop_first() =~= pairs.drop_first().push(p));
        lemma_from_pairs_push(
            raw_update(entries, pairs[0].0, pairs[0].1),
            pairs.drop_first(),
            p,
        );
    }
}

/// The value a composite-view get produces: the raw value for an
/// integer key, the generic dispatch's result for a string key.
pub open spec fn view_got(s: lua_State, tid: int, kv: KeyView, raw: bool) -> LuaValue {
    if raw {
        raw_lookup(tbl_entries(s, tid), kv)
    } else {
        spec_get_field(s.tables@, tid, kv, TAG_LOOP_MAX as nat)->0
    }
}

/// Where a composite-view set lands: the table itself for an integer
/// key, the newindex chain's destination for a string key (-1 when a
/// function-valued handler leaves the write to the interpreter).
pub open spec fn view_dest(s: lua_State, tid: int, kv: KeyView, raw: bool) -> int {
    if raw {
        tid
    } else {
        spec_set_dest(s.tables@, tid, kv, TAG_LOOP_MAX as nat)->0
    }
}

impl Table {
    /// Builds a table holding the pair list's single-slot values
    /// under their string keys — folded in order, so a later pair
    /// overrides an earlier one — anchored as a view.
    pub fn from_map<V: Push + Size>(ctx: &mut Context, map: &Vec<(String, V)>) -> (t: Table)
        requires
            old(ctx).handle.wf(),
            old(ctx).handle.stack@.len() + 2 < MAXCSTACK,
            old(ctx).handle.reg@.len() < 0x40000000,
            forall|i: int|
                0 <= i < map@.len() ==> (#[trigger] map@[i].1).push_req(
                    old(ctx).handle.stack@.len() as int + 1,
                    old(ctx).handle.reg@,
                ) && map@[i].1.pushed(old(ctx).handle.reg@).len() == 1 && !(map@[i].1.pushed(
                    old(ctx).handle.reg@,
                )[0] is VNone),
        ensures
            final(ctx).handle.wf(),
            t.ok(final(ctx).handle),
            final(ctx).handle.stack@ == old(ctx).handle.stack@,
            final(ctx).handle.tables@.len() == old(ctx).handle.tables@.len() + 1,
            forall|i: int|
                0 <= i < old(ctx).handle.tables@.len() ==> final(ctx).handle.tables@[i] == old(
                    ctx,
                ).handle.tables@[i],
            (final(ctx).handle.reg@, final(ctx).handle.free@, t.ptr.key as int)
                == crate::rt::spec_anchor(
                old(ctx).handle.reg@,
                old(ctx).handle.free@,
                LuaValue::Table((old(ctx).handle.tables@.len()) as usize),
            ),
            exists|stored: Seq<(TKey, LuaValue)>|
                #![trigger from_pairs(Seq::<(TKey, LuaValue)>::empty(), stored)]
                stored.len() == map@.len() && (forall|i: int|
                    0 <= i < stored.len() ==> key_view(#[trigger] stored[i].0)
                        == KeyView::KStr(map@[i].0@) && vv(stored[i].1) == map@[i].1.pushed(
                        old(ctx).handle.reg@,
                    )[0]) && tbl_entries(final(ctx).handle, t.tid(final(ctx).handle))
                    == from_pairs(Seq::<(TKey, LuaValue)>::empty(), stored),
    {
        let ghost reg0 = ctx.handle.reg@;
        let ghost s0 = ctx.handle.stack@;
        let tid = ctx.handle.new_table();
        let ghost mut stored: Seq<(TKey, LuaValue)> = Seq::empty();
        let mut k: usize = 0;
        while k < map.len()
            invariant
                ctx.handle.wf(),
                k <= map@.len(),
                (tid as int) < ctx.handle.tables@.len(),
                ctx.handle.stack@ == s0.push(LuaValue::Table(tid)),
                s0.len() + 2 < MAXCSTACK,
                ctx.handle.reg@ == reg0,
                ctx.handle.free@ == old(ctx).handle.free@,
                tid as int == old(ctx).handle.tables@.len(),
                ctx.handle.tables@.len() == old(ctx).handle.tables@.len() + 1,
                forall|i: int|
                    0 <= i < old(ctx).handle.tables@.len() ==> ctx.handle.tables@[i] == old(
                        ctx,
                    ).handle.tables@[i],
                ctx.owner == old(ctx).owner,
                forall|i: int|
                    0 <= i < map@.len() ==> (#[trigger] map@[i].1).push_req(
                        s0.len() as int + 1,
                        reg0,
                    ) && map@[i].1.pushed(reg0).len() == 1 && !(map@[i].1.pushed(
                        reg0,
                    )[0] is VNone),
                stored.len() == k,
                forall|i: int|
                    0 <= i < stored.len() ==> key_view(#[trigger] stored[i].0) == KeyView::KStr(
                        map@[i].0@,
                    ) && vv(stored[i].1) == map@[i].1.pushed(reg0)[0],
                tbl_entries(ctx.handle, tid as int) == from_pairs(
                    Seq::<(TKey, LuaValue)>::empty(),
                    stored,
                ),
            decreases map@.len() - k,
        {
            let ghost pre = ctx.handle;
            map[k].1.push(ctx);
            let ghost mid = ctx.handle;
            proof {
                lemma_vv_len_local(pre.stack@);
                lemma_vv_len_local(mid.stack@);
                let n = mid.stack@.len() - 1;
                assert(crate::value::stack_vv(mid.stack@)[n] == vv(mid.stack@[n]));
                assert((crate::value::stack_vv(pre.stack@) + map@[k as int].1.pushed(pre.reg@))[n]
                    == map@[k as int].1.pushed(pre.reg@)[0]);
                assert(vv(mid.stack@.last()) == map@[k as int].1.pushed(reg0)[0]);
            }
            let v = ctx.handle.read_slot(-1);
            ctx.handle.pop_n(1);
            proof {
                assert(ctx.handle.stack@ =~= pre.stack@);
            }
            let key = TKey::Str(map[k].0.clone());
            let ghost gkey = key;
            let ghost gv = v;
            ctx.handle.raw_set(tid, key, v);
            proof {
                lemma_from_pairs_push(Seq::<(TKey, LuaValue)>::empty(), stored, (gkey, gv));
            }
            proof {
                stored = stored.push((gkey, gv));
            }
            k = k + 1;
        }
        let ptr = <LuaRef as Read>::read(ctx, -1);
        ctx.handle.pop_n(1);
        proof {
            assert(ctx.handle.stack@ =~= s0);
        }
        Table { ptr }
    }
}

/// A stack and its identity sequence have the same length.
proof fn lemma_vv_len_local(s: Seq<LuaValue>)
    ensures
        crate::value::stack_vv(s).len() == s.len(),
{
}

/// The foreign value a table key reads back as during iteration.
pub open spec fn key_val(k: TKey) -> LuaValue {
    match k {
        TKey::Int(n) => LuaValue::Number(int_bits(n as int)),
        TKey::Str(s) => LuaValue::Str(s),
    }
}

/// A lazy, non-restartable cursor over a table view's entries,
/// yielding key/value pairs in insertion order.
pub struct TableIterator<T> {
    pub key: i32,
    pub prev: Option<TKey>,
    pub _marker: PhantomData<T>,
}

impl<T: Read + Size> TableIterator<T> {
    /// The position the cursor will yield next.
    pub open spec fn pos(self, entries: Seq<(TKey, LuaValue)>) -> int {
        match self.prev {
            None => 0,
            Some(k) => entry_pos(entries, key_view(k)) + 1,
        }
    }

    /// Yields the next key/value pair, or `None` once exhausted.  The
    /// underlying table must not have been mutated since the previous
    /// step: the previous key must still be present.
    pub fn next(&mut self, ctx: &mut Context) -> (r: Option<(LuaValue, T)>)
        requires
            old(ctx).handle.wf(),
            1 <= old(self).key <= old(ctx).handle.reg@.len(),
            old(ctx).handle.reg@[old(self).key - 1] is Val,
            reg_val(old(ctx).handle.reg@, old(self).key as int) is Table,
            old(ctx).handle.stack@.len() < MAXCSTACK,
            match old(self).prev {
                Some(k) => entry_pos(
                    tbl_entries(
                        old(ctx).handle,
                        reg_val(old(ctx).handle.reg@, old(self).key as int)->Table_0 as int,
                    ),
                    key_view(k),
                ) != -1,
                None => true,
            },
            ({
                let es = tbl_entries(
                    old(ctx).handle,
                    reg_val(old(ctx).handle.reg@, old(self).key as int)->Table_0 as int,
                );
                let p = old(self).pos(es);
                p < es.len() ==> T::read_req(
                    old(ctx).handle.stack@.push(es[p].1),
                    old(ctx).handle.reg@.len() as int,
                    -1,
                ) && (T::size_spec() > 0 ==> T::read_stack(
                    old(ctx).handle.stack@.push(es[p].1),
                    -1,
                ).len() >= 1)
            }),
        ensures
            final(ctx).handle.wf(),
            final(self).key == old(self).key,
            final(ctx).handle.tables@ == old(ctx).handle.tables@,
            final(ctx).owner == old(ctx).owner,
            ({
                let es = tbl_entries(
                    old(ctx).handle,
                    reg_val(old(ctx).handle.reg@, old(self).key as int)->Table_0 as int,
                );
                let p = old(self).pos(es);
                if p >= es.len() {
                    r is None && *final(ctx) == *old(ctx) && final(self).prev == old(self).prev
                } else {
                    let s1 = old(ctx).handle.stack@.push(es[p].1);
                    &&& r matches Some(pair) && pair.0 == key_val(es[p].0) && pair.1
                        == T::read_val(s1, old(ctx).handle.reg@, old(ctx).handle.free@, -1)
                    &&& final(self).prev == Some(es[p].0)
                    &&& final(ctx).handle.stack@ == if T::size_spec() > 0 {
                        T::read_stack(s1, -1).drop_last()
                    } else {
                        T::read_stack(s1, -1)
                    }
                    &&& (final(ctx).handle.reg@, final(ctx).handle.free@) == T::read_reg(
                        s1,
                        old(ctx).handle.reg@,
                        old(ctx).handle.free@,
                        -1,
                    )
                }
            }),
    {
        let tid = match &ctx.handle.reg[(self.key - 1) as usize] {
            RegSlot::Val(LuaValue::Table(t)) => *t,
            _ => 0,
        };
        let prev_ref = match &self.prev {
            Some(k) => Some(crate::rt::clone_key(k)),
            None => None,
        };
        proof {
            assert(ctx.handle.reg@[self.key - 1] == old(ctx).handle.reg@[old(self).key - 1]);
            assert((tid as int) < ctx.handle.tables@.len());
        }
        let ghost es0 = tbl_entries(ctx.handle, tid as int);
        let ghost p0 = old(self).pos(es0);
        let step = match &prev_ref {
            Some(k) => ctx.handle.next_entry(tid, Some(k)),
            None => ctx.handle.next_entry(tid, None),
        };
        proof {
            assert(ctx.handle.tbl_ok(ctx.handle.tables@[tid as int]));
            if old(self).prev is Some {
                lemma_entry_pos(es0, key_view(old(self).prev->0));
            }
            if step is Some {
                assert(0 <= p0 < es0.len());
                assert(ctx.handle.tables@[tid as int].entries@[p0].1 == es0[p0].1);
            }
        }
        match step {
            Some((k, v)) => {
                let key_out = match &k {
                    TKey::Int(n) => LuaValue::Number(crate::num::f64_bits_of_int(*n)),
                    TKey::Str(s) => LuaValue::Str(s.clone()),
                };
                self.prev = Some(k);
                ctx.handle.push_value(v);
                let out = ctx.pop::<T>();
                Some((key_out, out))
            },
            None => None,
        }
    }
}


impl crate::push::Push for Table {
    open spec fn pushed(&self, reg: Seq<crate::rt::RegSlot>) -> Seq<VV> {
        if self.ptr.key == -1 {
            seq![VV::VNil]
        } else {
            seq![vv(reg_val(reg, self.ptr.key as int))]
        }
    }

    open spec fn push_req(&self, stack_len: int, reg: Seq<crate::rt::RegSlot>) -> bool {
        stack_len < MAXCSTACK && (self.ptr.key == -1 || (1 <= self.ptr.key <= reg.len()
            && reg[self.ptr.key - 1] is Val))
    }

    fn push(&self, cxt: &mut Context) {
        let ghost s0 = cxt.handle.stack@;
        cxt.handle.reg_push(self.ptr.key);
        proof {
            crate::push::lemma_stack_vv_push(s0, final(cxt).handle.stack@.last());
        }
    }
}

impl<'a> crate::push::Push for &'a Table {
    open spec fn pushed(&self, reg: Seq<crate::rt::RegSlot>) -> Seq<VV> {
        if self.ptr.key == -1 {
            seq![VV::VNil]
        } else {
            seq![vv(reg_val(reg, self.ptr.key as int))]
        }
    }

    open spec fn push_req(&self, stack_len: int, reg: Seq<crate::rt::RegSlot>) -> bool {
        stack_len < MAXCSTACK && (self.ptr.key == -1 || (1 <= self.ptr.key <= reg.len()
            && reg[self.ptr.key - 1] is Val))
    }

    fn push(&self, cxt: &mut Context) {
        let ghost s0 = cxt.handle.stack@;
        cxt.handle.reg_push(self.ptr.key);
        proof {
            crate::push::lemma_stack_vv_push(s0, final(cxt).handle.stack@.last());
        }
    }
}

impl crate::size::Size for Table {
    open spec fn size_spec() -> int {
        1
    }

    fn size() -> i32 {
        1
    }
}


impl crate::read::Read for Table {
    open spec fn read_req(stack: Seq<LuaValue>, reg_len: int, idx: int) -> bool {
        <LuaRef as crate::read::Read>::read_req(stack, reg_len, idx)
    }

    open spec fn read_val(
        stack: Seq<LuaValue>,
        reg: Seq<crate::rt::RegSlot>,
        free: Seq<i32>,
        idx: int,
    ) -> Table {
        Table { ptr: <LuaRef as crate::read::Read>::read_val(stack, reg, free, idx) }
    }

    open spec fn read_stack(stack: Seq<LuaValue>, idx: int) -> Seq<LuaValue> {
        <LuaRef as crate::read::Read>::read_stack(stack, idx)
    }

    open spec fn read_reg(
        stack: Seq<LuaValue>,
        reg: Seq<crate::rt::RegSlot>,
        free: Seq<i32>,
        idx: int,
    ) -> (Seq<crate::rt::RegSlot>, Seq<i32>) {
        <LuaRef as crate::read::Read>::read_reg(stack, reg, free, idx)
    }

    open spec fn check_spec(stack: Seq<LuaValue>, idx: int) -> bool {
        crate::rt::slot(stack, idx) is Table
    }

    /// Anchors the addressed value as a view, consuming the slot; the
    /// kind test is the caller's business, as [`Table::check`] offers it.
    fn read(cxt: &mut Context, idx: i32) -> (r: Table) {
        let ptr = <LuaRef as crate::read::Read>::read(cxt, idx);
        Table { ptr }
    }

    fn check(cxt: &Context, idx: i32) -> (b: bool) {
        match cxt.handle.read_slot(idx) {
            LuaValue::Table(_) => true,
            _ => false,
        }
    }
}

} // verus!
