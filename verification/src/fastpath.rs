//! The fast-path field accessor.
//!
//! For string-keyed field access on a table-shaped value the bridge can
//! bypass the generic entry point and resolve the field against the
//! object directly — but only while the object carries no metatable.
//! The moment the shape assumption fails, the access falls back to the
//! generic path, so that the two paths are behaviourally
//! indistinguishable; the lemmas below prove exactly that.

use vstd::prelude::*;
use crate::errors::Error;
use crate::value::LuaValue;
use crate::value::TKey;
use crate::value::KeyView;
use crate::value::key_view;
use crate::rt::lua_State;
use crate::rt::TableData;
use crate::rt::GLOBALS_TID;
use crate::rt::MAXCSTACK;
use crate::rt::TAG_LOOP_MAX;
use crate::rt::slot;
use crate::rt::raw_lookup;
use crate::rt::raw_update;
use crate::rt::tbl_entries;
use crate::rt::spec_get_field;
use crate::rt::spec_set_dest;
use crate::value::TKey::Str;
use vstd::string::StringExecFns;

verus! {

/// The pseudo-index addressing the registry.
pub const LUA_REGISTRYINDEX: i32 = -10000;

/// The pseudo-index addressing the globals table.
pub const LUA_GLOBALSINDEX: i32 = -10002;

/// The table a fast-path access targets: the globals table for the
/// globals pseudo-index, else the table in the addressed stack slot.
pub open spec fn fast_target(s: lua_State, idx: int) -> int {
    if idx == LUA_GLOBALSINDEX as int {
        GLOBALS_TID as int
    } else {
        slot(s.stack@, idx)->Table_0 as int
    }
}

/// Whether a fast-path access may be attempted at all: the index must
/// address the globals table or a table-valued slot.
pub open spec fn fast_applicable(s: lua_State, idx: int) -> bool {
    idx == LUA_GLOBALSINDEX as int || slot(s.stack@, idx) is Table
}

/// On a metatable-free table the generic field-get is exactly the raw
/// lookup: what the fast path reads directly is what the generic entry
/// point would have produced.
pub proof fn lemma_fast_get_equiv(tables: Seq<TableData>, tid: int, kv: KeyView)
    requires
        0 <= tid < tables.len(),
        tables[tid].meta is None,
    ensures
        spec_get_field(tables, tid, kv, TAG_LOOP_MAX as nat) == Some(
            raw_lookup(tables[tid].entries@, kv),
        ),
{
}

/// On a metatable-free table the generic field-set writes exactly where
/// the fast path writes: into that table itself.
pub proof fn lemma_fast_set_equiv(tables: Seq<TableData>, tid: int, kv: KeyView)
    requires
        0 <= tid < tables.len(),
        tables[tid].meta is None,
    ensures
        spec_set_dest(tables, tid, kv, TAG_LOOP_MAX as nat) == Some(tid),
{
}

/// Reads the string-keyed field `k` of the table `idx` addresses and
/// pushes the result, resolving directly when the table is
/// metatable-free and falling back to the generic path otherwise.  The
/// result is, provably, exactly what the generic entry point pushes.
pub fn flu_getlfield(s: &mut lua_State, idx: i32, k: &str) -> (r: Result<(), Error>)
    requires
        old(s).wf(),
        fast_applicable(*old(s), idx as int),
        (fast_target(*old(s), idx as int)) < old(s).tables@.len(),
        old(s).stack@.len() < MAXCSTACK,
    ensures
        final(s).wf(),
        final(s).reg@ == old(s).reg@,
        final(s).free@ == old(s).free@,
        final(s).tables@ == old(s).tables@,
        ({
            let out = spec_get_field(
                old(s).tables@,
                fast_target(*old(s), idx as int),
                KeyView::KStr(k@),
                TAG_LOOP_MAX as nat,
            );
            match out {
                Some(v) => r is Ok && final(s).stack@ == old(s).stack@.push(v),
                None => (r matches Err(e) && e matches Error::RuntimeError(m) && m@
                    == "loop in gettable"@) && final(s).stack@ == old(s).stack@,
            }
        }),
{
    let tid: usize = if idx == LUA_GLOBALSINDEX {
        GLOBALS_TID
    } else {
        match s.read_slot(idx) {
            LuaValue::Table(t) => t,
            _ => GLOBALS_TID,
        }
    };
    let key = TKey::Str(String::from_str(k));
    let fast_ok = match s.get_meta(tid) {
        None => true,
        Some(_) => false,
    };
    if fast_ok {
        // direct resolution: the object is metamethod-free
        proof {
            lemma_fast_get_equiv(s.tables@, tid as int, key_view(key));
        }
        let v = s.raw_get(tid, &key);
        s.push_value(v);
        Ok(())
    } else {
        // shape assumption does not hold: perform the generic access
        match s.get_field(tid, &key) {
            Ok(v) => {
                s.push_value(v);
                Ok(())
            },
            Err(e) => Err(e),
        }
    }
}

/// Writes the topmost stack value into the string-keyed field `k` of
/// the table `idx` addresses, popping it; direct when metatable-free,
/// the generic path otherwise.  The write lands, provably, exactly
/// where the generic entry point would have written it.
pub fn flu_setlfield(s: &mut lua_State, idx: i32, k: &str) -> (r: Result<(), Error>)
    requires
        old(s).wf(),
        fast_applicable(*old(s), idx as int),
        (fast_target(*old(s), idx as int)) < old(s).tables@.len(),
        old(s).stack@.len() >= 1,
        !(old(s).stack@.last() is Missing),
    ensures
        final(s).wf(),
        final(s).stack@ == old(s).stack@.drop_last(),
        final(s).reg@ == old(s).reg@,
        final(s).free@ == old(s).free@,
        final(s).tables@.len() == old(s).tables@.len(),
        ({
            let tid = fast_target(*old(s), idx as int);
            let kv = KeyView::KStr(k@);
            let v = old(s).stack@.last();
            match spec_set_dest(old(s).tables@, tid, kv, TAG_LOOP_MAX as nat) {
                Some(d) => if d >= 0 {
                    r is Ok && (exists|kk: TKey|
                        key_view(kk) == kv && tbl_entries(*final(s), d) == raw_update(
                            tbl_entries(*old(s), d),
                            kk,
                            v,
                        )) && final(s).tables@[d].meta == old(s).tables@[d].meta && forall|t: int|
                        0 <= t < old(s).tables@.len() && t != d ==> final(s).tables@[t] == old(
                            s,
                        ).tables@[t]
                } else {
                    r is Ok && final(s).tables@ == old(s).tables@
                },
                None => (r matches Err(e) && e matches Error::RuntimeError(m) && m@
                    == "loop in settable"@) && final(s).tables@ == old(s).tables@,
            }
        }),
{
    let tid: usize = if idx == LUA_GLOBALSINDEX {
        GLOBALS_TID
    } else {
        match s.read_slot(idx) {
            LuaValue::Table(t) => t,
            _ => GLOBALS_TID,
        }
    };
    let v = match s.stack.pop() {
        Some(v) => v,
        None => LuaValue::Nil,
    };
    proof {
        assert(s.stack@ =~= old(s).stack@.drop_last());
        assert(s.wf());
    }
    let key = TKey::Str(String::from_str(k));
    let fast_ok = match s.get_meta(tid) {
        None => true,
        Some(_) => false,
    };
    if fast_ok {
        // direct resolution: the object is metamethod-free
        proof {
            lemma_fast_set_equiv(s.tables@, tid as int, key_view(key));
        }
        s.raw_set(tid, key, v);
        Ok(())
    } else {
        // shape assumption does not hold: perform the generic access
        s.set_field(tid, key, v)
    }
}

} // verus!
