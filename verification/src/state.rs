//! Runtime handles for the typed transfer protocol: the owning
//! `State`, the weak alias `WeakState`, and the anchored `Ref`.

use vstd::prelude::*;
use crate::errors::Error;
use crate::rt::lua_State;
use crate::rt::GLOBALS_TID;
use crate::rt::MAXCSTACK;
use crate::rt::raw_lookup;
use crate::rt::raw_update;
use crate::rt::tbl_entries;
use crate::fastpath::flu_getlfield;
use crate::fastpath::flu_setlfield;
use crate::fastpath::lemma_fast_get_equiv;
use crate::fastpath::lemma_fast_set_equiv;
use crate::fastpath::LUA_GLOBALSINDEX;
use crate::value::LuaValue;
use crate::value::TKey;
use crate::value::KeyView;
use crate::value::key_view;
use crate::value::vv;
use crate::value::stack_vv;

verus! {

/// A non-owning alias of one runtime instance's state.
#[derive(Debug)]
pub struct WeakState {
    pub L: lua_State,
}

/// The owning handle: dropping it would close the instance, which
/// invalidates every alias and anchored reference derived from it.
#[derive(Debug)]
pub struct State {
    pub state: WeakState,
}

/// An anchored reference for the typed protocol: a registry key
/// keeping one foreign heap value alive, or the sentinel -1.
#[derive(Debug)]
pub struct Ref {
    pub key: i32,
}

impl Ref {
    /// Whether this reference is admissible against a state.
    pub open spec fn ok(self, s: lua_State) -> bool {
        self.key == -1 || (1 <= self.key <= s.reg@.len() && s.reg@[self.key - 1] is Val)
    }

    /// Releases the registry slot this reference anchors; the sentinel
    /// releases nothing.
    pub fn release(self, state: &mut WeakState)
        requires
            old(state).L.wf(),
            self.ok(old(state).L),
        ensures
            final(state).L.wf(),
            final(state).L.stack@ == old(state).L.stack@,
            final(state).L.tables@ == old(state).L.tables@,
            (final(state).L.reg@, final(state).L.free@) == crate::rt::spec_release(
                old(state).L.reg@,
                old(state).L.free@,
                self.key as int,
            ),
            final(state).L.live_keys() == old(state).L.live_keys().remove(self.key as int),
    {
        state.L.reg_release(self.key);
    }
}

impl WeakState {
    /// Opens a fresh instance.  The full constructor is expected to
    /// load the engine's standard library; the library itself lives in
    /// the engine and leaves no trace in the observable state modelled
    /// here.
    pub fn new() -> (s: WeakState)
        ensures
            s.L.wf(),
            s.L.stack@.len() == 0,
            s.L.reg@.len() == 0,
            s.L.free@.len() == 0,
            s.L.tables@.len() == 1,
            tbl_entries(s.L, GLOBALS_TID as int).len() == 0,
            s.L.tables@[GLOBALS_TID as int].meta is None,
    {
        WeakState { L: lua_State::init() }
    }

    /// Wraps an instance's state as a weak alias.
    pub fn from_state(state: lua_State) -> (s: WeakState)
        ensures
            s.L == state,
    {
        WeakState { L: state }
    }

    /// Reads the named global through the fast-path accessor, as `V`.
    pub fn get<V: crate::transfer::FromLua + crate::transfer::LuaSize>(
        &mut self,
        idx: &str,
    ) -> (r: Result<V, Error>)
        requires
            old(self).L.wf(),
            old(self).L.tables@[GLOBALS_TID as int].meta is None,
            old(self).L.stack@.len() < MAXCSTACK,
            V::from_req(
                old(self).L.stack@.push(
                    raw_lookup(tbl_entries(old(self).L, GLOBALS_TID as int), KeyView::KStr(idx@)),
                ),
                old(self).L.reg@.len() as int,
                -1,
            ),
            V::size_spec() > 0 ==> V::from_stack(
                old(self).L.stack@.push(
                    raw_lookup(tbl_entries(old(self).L, GLOBALS_TID as int), KeyView::KStr(idx@)),
                ),
                -1,
            ).len() >= 1,
        ensures
            final(self).L.wf(),
            final(self).L.tables@ == old(self).L.tables@,
            ({
                let got = raw_lookup(
                    tbl_entries(old(self).L, GLOBALS_TID as int),
                    KeyView::KStr(idx@),
                );
                let s1 = old(self).L.stack@.push(got);
                if V::from_ok(s1, -1) {
                    ({
                        &&& r matches Ok(v) && v == V::from_val(
                            s1,
                            old(self).L.reg@,
                            old(self).L.free@,
                            -1,
                        )
                        &&& final(self).L.stack@ == if V::size_spec() > 0 {
                            V::from_stack(s1, -1).drop_last()
                        } else {
                            V::from_stack(s1, -1)
                        }
                        &&& (final(self).L.reg@, final(self).L.free@) == V::from_reg(
                            s1,
                            old(self).L.reg@,
                            old(self).L.free@,
                            -1,
                        )
                    })
                } else {
                    ({
                        &&& r matches Err(e) && e matches Error::TypeError(t, g) && t@
                            == V::expected() && g@ == crate::value::kind_name(got)
                        &&& final(self).L.stack@ == old(self).L.stack@
                        &&& final(self).L.reg@ == old(self).L.reg@
                        &&& final(self).L.free@ == old(self).L.free@
                    })
                }
            }),
    {
        proof {
            lemma_fast_get_equiv(self.L.tables@, GLOBALS_TID as int, KeyView::KStr(idx@));
        }
        let _ = flu_getlfield(&mut self.L, LUA_GLOBALSINDEX, idx);
        let out = V::read(self, -1);
        match out {
            Ok(v) => {
                if V::size() > 0 {
                    let new_len = self.L.stack.len() - 1;
                    self.L.stack.truncate(new_len);
                    proof {
                        assert(final(self).L.stack@ =~= V::from_stack(
                            old(self).L.stack@.push(
                                raw_lookup(
                                    tbl_entries(old(self).L, GLOBALS_TID as int),
                                    KeyView::KStr(idx@),
                                ),
                            ),
                            -1,
                        ).drop_last());
                    }
                }
                Ok(v)
            },
            Err(e) => {
                // the failed read left the pushed value; discard it so
                // that error injection keeps the stack balanced
                let new_len = self.L.stack.len() - 1;
                self.L.stack.truncate(new_len);
                proof {
                    assert(final(self).L.stack@ =~= old(self).L.stack@);
                }
                Err(e)
            },
        }
    }

    /// Writes a single-slot value to the named global through the
    /// fast-path accessor.
    pub fn set<V: crate::transfer::ToLua>(&mut self, idx: &str, val: V)
        requires
            old(self).L.wf(),
            old(self).L.tables@[GLOBALS_TID as int].meta is None,
            val.push_req(old(self).L),
            val.pushed(old(self).L).len() == 1,
            !(val.pushed(old(self).L)[0] is VNone),
        ensures
            final(self).L.wf(),
            stack_vv(final(self).L.stack@) == stack_vv(old(self).L.stack@),
            final(self).L.stack@ == old(self).L.stack@,
            final(self).L.reg@ == old(self).L.reg@,
            final(self).L.free@ == old(self).L.free@,
            final(self).L.tables@.len() >= old(self).L.tables@.len(),
            exists|kk: TKey, v2: LuaValue|
                key_view(kk) == KeyView::KStr(idx@) && vv(v2) == val.pushed(old(self).L)[0]
                    && tbl_entries(final(self).L, GLOBALS_TID as int) == raw_update(
                    tbl_entries(old(self).L, GLOBALS_TID as int),
                    kk,
                    v2,
                ),
            final(self).L.tables@[GLOBALS_TID as int].meta is None,
            forall|t: int|
                0 <= t < old(self).L.tables@.len() && t != GLOBALS_TID ==> final(self).L.tables@[t]
                    == old(self).L.tables@[t],
    {
        let ghost pre = self.L;
        val.write(self);
        let ghost mid = self.L;
        proof {
            lemma_vv_len_st(pre.stack@);
            lemma_vv_len_st(mid.stack@);
            assert(mid.stack@.len() == pre.stack@.len() + 1);
            let n = mid.stack@.len() - 1;
            assert(stack_vv(mid.stack@)[n] == vv(mid.stack@[n]));
            assert((stack_vv(pre.stack@) + val.pushed(pre))[n] == val.pushed(pre)[0]);
            assert(vv(mid.stack@.last()) == val.pushed(pre)[0]);
            lemma_fast_set_equiv(self.L.tables@, GLOBALS_TID as int, KeyView::KStr(idx@));
        }
        let _ = flu_setlfield(&mut self.L, LUA_GLOBALSINDEX, idx);
        proof {
            assert(self.L.stack@ =~= pre.stack@);
            let kk = choose|kk: TKey|
                key_view(kk) == KeyView::KStr(idx@) && tbl_entries(self.L, GLOBALS_TID as int)
                    == raw_update(tbl_entries(mid, GLOBALS_TID as int), kk, mid.stack@.last());
            assert(key_view(kk) == KeyView::KStr(idx@) && vv(mid.stack@.last()) == val.pushed(
                pre,
            )[0] && tbl_entries(self.L, GLOBALS_TID as int) == raw_update(
                tbl_entries(pre, GLOBALS_TID as int),
                kk,
                mid.stack@.last(),
            ));
        }
    }
}

/// A stack and its identity sequence have the same length.
proof fn lemma_vv_len_st(s: Seq<LuaValue>)
    ensures
        stack_vv(s).len() == s.len(),
{
}

impl State {
    /// Opens a fresh owned instance, standard library included (the
    /// library lives in the engine, outside the modelled state).
    pub fn new() -> (s: State)
        ensures
            s.state.L.wf(),
            s.state.L.stack@.len() == 0,
            s.state.L.reg@.len() == 0,
            s.state.L.free@.len() == 0,
            s.state.L.tables@.len() == 1,
            tbl_entries(s.state.L, GLOBALS_TID as int).len() == 0,
            s.state.L.tables@[GLOBALS_TID as int].meta is None,
    {
        State { state: WeakState::new() }
    }
}

} // verus!
