//! The typed table view and the table-initializer protocol: building
//! a foreign table by running a native builder against it.

use vstd::prelude::*;
use core::marker::PhantomData;
use crate::errors::Error;
use crate::state::WeakState;
use crate::state::State;
use crate::state::Ref;
use crate::stack::StackValue;
use crate::rt::lua_State;
use crate::rt::MAXCSTACK;
use crate::rt::raw_update;
use crate::rt::reg_val;
use crate::rt::resolve;
use crate::rt::slot;
use crate::rt::spec_get_field;
use crate::rt::spec_set_dest;
use crate::rt::tbl_entries;
use crate::rt::TAG_LOOP_MAX;
use crate::fastpath::flu_getlfield;
use crate::fastpath::flu_setlfield;
use crate::value::LuaValue;
use crate::value::TKey;
use crate::value::KeyView;
use crate::value::key_view;
use crate::value::vv;
use crate::value::VV;
use crate::value::stack_vv;
use crate::transfer::ToLua;
use crate::transfer::FromLua;
use crate::transfer::LuaSize;

verus! {

/// Marks values that write as a table.
pub trait IsTable {}

/// A typed accessor over an anchored foreign table.
#[derive(Debug)]
pub struct Table {
    pub ptr: Ref,
}

/// The builder's handle to the table being initialized: the table's
/// absolute stack position, plus the field accessors.
#[derive(Debug)]
pub struct TableContext {
    pub root: i32,
}

/// A native builder run against a fresh table; the writer installs
/// the table, hands the builder a [`TableContext`] for it, and leaves
/// the finished table on the stack.
pub trait TableBuilder {
    /// Builds the table's contents.  A builder must keep the stack
    /// balanced and may only create tables or fill the one it was
    /// handed: everything already present stays intact.
    fn build(&self, st: &mut WeakState, cxt: TableContext)
        requires
            old(st).L.wf(),
            resolve(old(st).L.stack@, cxt.root as int) != 0,
            slot(old(st).L.stack@, cxt.root as int) is Table,
        ensures
            final(st).L.wf(),
            final(st).L.stack@ == old(st).L.stack@,
            final(st).L.reg@ == old(st).L.reg@,
            final(st).L.free@ == old(st).L.free@,
            final(st).L.tables@.len() >= old(st).L.tables@.len(),
            forall|i: int|
                0 <= i < old(st).L.tables@.len() && i != slot(
                    old(st).L.stack@,
                    cxt.root as int,
                )->Table_0 as int ==> final(st).L.tables@[i] == old(st).L.tables@[i],
    ;
}

/// A deferred table construction: a builder waiting to run.
pub struct TableInit<F: TableBuilder> {
    pub func: F,
}

impl Table {
    /// Wraps a builder for deferred construction.
    pub fn new<F: TableBuilder>(func: F) -> (t: TableInit<F>)
        ensures
            t.func == func,
    {
        TableInit { func }
    }

    /// Builds the table immediately against an owning handle and
    /// anchors it: the returned view's registry key resolves to
    /// exactly the freshly built table — the arena's next identifier —
    /// claimed through the free-list protocol.  The stack and every
    /// pre-existing table and registry slot come back as they were.
    pub fn reference<F: TableBuilder>(state: &mut State, func: F) -> (t: Table)
        requires
            old(state).state.L.wf(),
            old(state).state.L.stack@.len() + 1 < MAXCSTACK,
            old(state).state.L.reg@.len() < 0x40000000,
        ensures
            final(state).state.L.wf(),
            final(state).state.L.stack@ == old(state).state.L.stack@,
            t.ptr.ok(final(state).state.L),
            t.ptr.key != -1,
            reg_val(final(state).state.L.reg@, t.ptr.key as int) == LuaValue::Table(
                (old(state).state.L.tables@.len()) as usize,
            ),
            (
                final(state).state.L.reg@,
                final(state).state.L.free@,
                t.ptr.key as int,
            ) == crate::rt::spec_anchor(
                old(state).state.L.reg@,
                old(state).state.L.free@,
                LuaValue::Table((old(state).state.L.tables@.len()) as usize),
            ),
            final(state).state.L.tables@.len() > old(state).state.L.tables@.len(),
            forall|i: int|
                0 <= i < old(state).state.L.tables@.len() ==> final(state).state.L.tables@[i]
                    == old(state).state.L.tables@[i],
    {
        let init = Table::new(func);
        let tid = init.write_table(&mut state.state);
        let r = <Ref as FromLua>::read(&mut state.state, -1);
        let ptr = match r {
            Ok(p) => p,
            Err(_) => Ref { key: -1 },
        };
        state.state.L.pop_n(1);
        proof {
            assert(final(state).state.L.stack@ =~= old(state).state.L.stack@);
        }
        Table { ptr }
    }
}

impl TableContext {
    /// Reads the string-keyed field `idx` of the table under
    /// construction, as `V`, through the generic path.
    pub fn get<V: FromLua + LuaSize>(&self, st: &mut WeakState, idx: &str) -> (r: Result<V, Error>)
        requires
            old(st).L.wf(),
            resolve(old(st).L.stack@, self.root as int) != 0,
            slot(old(st).L.stack@, self.root as int) is Table,
            old(st).L.stack@.len() < MAXCSTACK,
            forall|s2: Seq<LuaValue>, rl: int| #[trigger] V::from_req(s2, rl, -1),
            forall|s2: Seq<LuaValue>| #[trigger] V::from_stack(s2, -1) == s2,
            forall|s2: Seq<LuaValue>, rg: Seq<crate::rt::RegSlot>, fr: Seq<i32>|
                #[trigger] V::from_reg(s2, rg, fr, -1) == (rg, fr),
        ensures
            final(st).L.wf(),
            final(st).L.stack@ == old(st).L.stack@,
            final(st).L.reg@ == old(st).L.reg@,
            final(st).L.free@ == old(st).L.free@,
            final(st).L.tables@ == old(st).L.tables@,
            ({
                let tid = slot(old(st).L.stack@, self.root as int)->Table_0 as int;
                match spec_get_field(old(st).L.tables@, tid, KeyView::KStr(idx@), TAG_LOOP_MAX as nat) {
                    Some(got) => if V::from_ok(old(st).L.stack@.push(got), -1) {
                        r matches Ok(v) && v == V::from_val(
                            old(st).L.stack@.push(got),
                            old(st).L.reg@,
                            old(st).L.free@,
                            -1,
                        )
                    } else {
                        r matches Err(e) && e matches Error::TypeError(t, g) && t@ == V::expected()
                            && g@ == crate::value::kind_name(got)
                    },
                    None => r matches Err(e) && e matches Error::RuntimeError(m) && m@
                        == "loop in gettable"@,
                }
            }),
    {
        let res = flu_getlfield(&mut st.L, self.root, idx);
        match res {
            Err(e) => Err(e),
            Ok(_) => {
                let out = V::read(st, -1);
                let new_len = st.L.stack.len() - 1;
                st.L.stack.truncate(new_len);
                proof {
                    assert(st.L.stack@ =~= old(st).L.stack@);
                }
                out
            },
        }
    }

    /// Writes a single-slot value to the string-keyed field `idx` of
    /// the table under construction, through the fast-path accessor.
    pub fn set<V: ToLua>(&self, st: &mut WeakState, idx: &str, val: V) -> (r: Result<(), Error>)
        requires
            old(st).L.wf(),
            self.root >= 1,
            resolve(old(st).L.stack@, self.root as int) != 0,
            slot(old(st).L.stack@, self.root as int) is Table,
            val.push_req(old(st).L),
            val.pushed(old(st).L).len() == 1,
            !(val.pushed(old(st).L)[0] is VNone),
        ensures
            final(st).L.wf(),
            final(st).L.stack@ == old(st).L.stack@,
            final(st).L.reg@ == old(st).L.reg@,
            final(st).L.free@ == old(st).L.free@,
            final(st).L.tables@.len() >= old(st).L.tables@.len(),
            ({
                let tid = slot(old(st).L.stack@, self.root as int)->Table_0 as int;
                match spec_set_dest(old(st).L.tables@, tid, KeyView::KStr(idx@), TAG_LOOP_MAX as nat) {
                    Some(d) => if d >= 0 {
                        r is Ok && (exists|kk: TKey, v2: LuaValue|
                            key_view(kk) == KeyView::KStr(idx@) && vv(v2) == val.pushed(
                                old(st).L,
                            )[0] && tbl_entries(final(st).L, d) == raw_update(
                                tbl_entries(old(st).L, d),
                                kk,
                                v2,
                            )) && forall|t: int|
                            0 <= t < old(st).L.tables@.len() && t != d ==> final(st).L.tables@[t]
                                == old(st).L.tables@[t]
                    } else {
                        r is Ok
                    },
                    None => r matches Err(e) && e matches Error::RuntimeError(m) && m@
                        == "loop in settable"@,
                }
            }),
    {
        let ghost pre = st.L;
        val.write(st);
        let ghost mid = st.L;
        proof {
            lemma_vv_len_tbl(pre.stack@);
            lemma_vv_len_tbl(mid.stack@);
            assert(mid.stack@.len() == pre.stack@.len() + 1);
            let n = mid.stack@.len() - 1;
            assert(stack_vv(mid.stack@)[n] == vv(mid.stack@[n]));
            assert((stack_vv(pre.stack@) + val.pushed(pre))[n] == val.pushed(pre)[0]);
            assert(vv(mid.stack@.last()) == val.pushed(pre)[0]);
            assert(slot(mid.stack@, self.root as int) == slot(pre.stack@, self.root as int));
        }
        let r = flu_setlfield(&mut st.L, self.root, idx);
        proof {
            assert(st.L.stack@ =~= pre.stack@);
            let tid = slot(pre.stack@, self.root as int)->Table_0 as int;
            assert forall|i: int| 0 <= i < pre.tables@.len() implies #[trigger] mid.tables@[i]
                == pre.tables@[i] by {}
            assert(crate::rt::tables_closed(pre.tables@, pre.tables@.len() as int)) by {
                assert forall|i: int, j: int|
                    0 <= i < pre.tables@.len() && 0 <= j
                        < pre.tables@[i].entries@.len() implies ((
                #[trigger] pre.tables@[i].entries@[j].1) is Table ==> (
                pre.tables@[i].entries@[j].1->Table_0 as int) < pre.tables@.len()) by {
                    assert(pre.tbl_ok(pre.tables@[i]));
                }
                assert forall|i: int| 0 <= i < pre.tables@.len() implies match (
                #[trigger] pre.tables@[i]).meta {
                    Some(m) => (m as int) < pre.tables@.len(),
                    None => true,
                } by {
                    assert(pre.tbl_ok(pre.tables@[i]));
                }
            }
            crate::rt::lemma_set_dest_prefix(
                pre.tables@,
                mid.tables@,
                tid,
                KeyView::KStr(idx@),
                TAG_LOOP_MAX as nat,
            );
            match spec_set_dest(mid.tables@, tid, KeyView::KStr(idx@), TAG_LOOP_MAX as nat) {
                Some(d) => {
                    if d >= 0 && r is Ok {
                        let kk = choose|kk: TKey|
                            key_view(kk) == KeyView::KStr(idx@) && tbl_entries(st.L, d)
                                == raw_update(tbl_entries(mid, d), kk, mid.stack@.last());
                        assert(key_view(kk) == KeyView::KStr(idx@) && vv(mid.stack@.last())
                            == val.pushed(pre)[0] && tbl_entries(st.L, d) == raw_update(
                            tbl_entries(pre, d),
                            kk,
                            mid.stack@.last(),
                        ));
                        assert forall|t: int|
                            0 <= t < pre.tables@.len() && t != d implies st.L.tables@[t]
                            == pre.tables@[t] by {
                            assert(mid.tables@[t] == pre.tables@[t]);
                        }
                    }
                },
                None => {},
            }
        }
        match r {
            Ok(_) => Ok(()),
            Err(e) => Err(e),
        }
    }

    /// Installs the pushed table as the metatable of the table under
    /// construction.
    pub fn set_meta<T: ToLua + IsTable>(&self, st: &mut WeakState, table: T)
        requires
            old(st).L.wf(),
            resolve(old(st).L.stack@, self.root as int) != 0,
            slot(old(st).L.stack@, self.root as int) is Table,
            table.push_req(old(st).L),
            table.pushed(old(st).L).len() == 1,
            table.pushed(old(st).L)[0] is VTbl,
        ensures
            final(st).L.wf(),
            final(st).L.stack@ == old(st).L.stack@,
            final(st).L.reg@ == old(st).L.reg@,
            final(st).L.free@ == old(st).L.free@,
            ({
                let tid = slot(old(st).L.stack@, self.root as int)->Table_0 as int;
                &&& final(st).L.tables@[tid].meta == Some(
                    (table.pushed(old(st).L)[0]->VTbl_0) as usize,
                )
                &&& tbl_entries(final(st).L, tid) == tbl_entries(old(st).L, tid)
                &&& forall|t: int|
                    0 <= t < old(st).L.tables@.len() && t != tid ==> final(st).L.tables@[t] == old(
                        st,
                    ).L.tables@[t]
            }),
    {
        let ghost pre = st.L;
        let tid = match st.L.read_slot(self.root) {
            LuaValue::Table(t) => t,
            _ => 0,
        };
        table.write(st);
        let ghost mid = st.L;
        proof {
            lemma_vv_len_tbl(pre.stack@);
            lemma_vv_len_tbl(mid.stack@);
            assert(mid.stack@.len() == pre.stack@.len() + 1);
            let n = mid.stack@.len() - 1;
            assert(stack_vv(mid.stack@)[n] == vv(mid.stack@[n]));
            assert((stack_vv(pre.stack@) + table.pushed(pre))[n] == table.pushed(pre)[0]);
            assert(vv(mid.stack@.last()) == table.pushed(pre)[0]);
        }
        let m = st.L.read_slot(-1);
        let mtid = match m {
            LuaValue::Table(t) => t,
            _ => 0,
        };
        let new_len = st.L.stack.len() - 1;
        st.L.stack.truncate(new_len);
        proof {
            assert(st.L.stack@ =~= pre.stack@);
        }
        st.L.set_meta(tid, mtid);
    }

    /// The table under construction, as a pushable stack marker.
    pub fn as_table(&self) -> (r: StackValue<Table>)
        ensures
            r.idx == self.root,
    {
        StackValue { idx: self.root, _marker: PhantomData }
    }
}

/// A stack and its identity sequence have the same length.
proof fn lemma_vv_len_tbl(s: Seq<LuaValue>)
    ensures
        stack_vv(s).len() == s.len(),
{
}

impl IsTable for Table {

}

impl<'a> IsTable for &'a Table {

}

impl<F: TableBuilder> IsTable for TableInit<F> {

}

impl IsTable for StackValue<Table> {

}

impl<F: TableBuilder> TableInit<F> {
    /// Runs the deferred construction: creates the fresh table — its
    /// identifier is the arena's next one — runs the builder against
    /// its root, and leaves exactly that table on the top of the
    /// stack.  Everything that existed before is untouched: the slots
    /// below, the registry, and every pre-existing table.
    pub fn write_table(&self, state: &mut WeakState) -> (tid: usize)
        requires
            old(state).L.wf(),
            old(state).L.stack@.len() < MAXCSTACK,
        ensures
            final(state).L.wf(),
            tid as int == old(state).L.tables@.len(),
            final(state).L.stack@ == old(state).L.stack@.push(LuaValue::Table(tid)),
            final(state).L.reg@ == old(state).L.reg@,
            final(state).L.free@ == old(state).L.free@,
            final(state).L.tables@.len() > old(state).L.tables@.len(),
            forall|i: int|
                0 <= i < old(state).L.tables@.len() ==> final(state).L.tables@[i] == old(
                    state,
                ).L.tables@[i],
    {
        let ghost s0 = state.L.stack@;
        let tid = state.L.new_table();
        let root = state.L.gettop();
        proof {
            crate::push::lemma_stack_vv_push(s0, LuaValue::Table(tid));
            assert(slot(state.L.stack@, root as int) == LuaValue::Table(tid));
        }
        self.func.build(state, TableContext { root });
        tid
    }
}

impl<F: TableBuilder> ToLua for TableInit<F> {
    open spec fn pushed(&self, s: lua_State) -> Seq<VV> {
        seq![VV::VTbl(s.tables@.len() as int)]
    }

    open spec fn push_req(&self, s: lua_State) -> bool {
        s.stack@.len() < MAXCSTACK
    }

    /// Creates the table, runs the builder against it, and leaves it
    /// on the top of the stack; [`TableInit::write_table`] carries the
    /// full value-level contract.
    fn write(&self, state: &mut WeakState) {
        let ghost s0 = state.L.stack@;
        let tid = self.write_table(state);
        proof {
            crate::push::lemma_stack_vv_push(s0, LuaValue::Table(tid));
        }
    }
}

impl ToLua for Table {
    open spec fn pushed(&self, s: lua_State) -> Seq<VV> {
        if self.ptr.key == -1 {
            seq![VV::VNil]
        } else {
            seq![vv(reg_val(s.reg@, self.ptr.key as int))]
        }
    }

    open spec fn push_req(&self, s: lua_State) -> bool {
        s.stack@.len() < MAXCSTACK && self.ptr.ok(s)
    }

    fn write(&self, state: &mut WeakState) {
        let ghost s0 = state.L.stack@;
        state.L.reg_push(self.ptr.key);
        proof {
            crate::push::lemma_stack_vv_push(s0, final(state).L.stack@.last());
            assert(final(state).L.stack@.subrange(0, s0.len() as int) =~= s0);
        }
    }
}

impl<'a> ToLua for &'a Table {
    open spec fn pushed(&self, s: lua_State) -> Seq<VV> {
        if self.ptr.key == -1 {
            seq![VV::VNil]
        } else {
            seq![vv(reg_val(s.reg@, self.ptr.key as int))]
        }
    }

    open spec fn push_req(&self, s: lua_State) -> bool {
        s.stack@.len() < MAXCSTACK && self.ptr.ok(s)
    }

    fn write(&self, state: &mut WeakState) {
        let ghost s0 = state.L.stack@;
        state.L.reg_push(self.ptr.key);
        proof {
            crate::push::lemma_stack_vv_push(s0, final(state).L.stack@.last());
            assert(final(state).L.stack@.subrange(0, s0.len() as int) =~= s0);
        }
    }
}

impl LuaSize for Table {
    open spec fn size_spec() -> int {
        1
    }

    fn size() -> i32 {
        1
    }
}

} // verus!
