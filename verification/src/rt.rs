//! The model of one runtime instance's observable state.
//!
//! The engine behind the C-style interface is out of scope; what the
//! bridge relies on is its observable surface: a value stack addressed by
//! signed indices, a registry keyed by reusable integer keys threaded
//! through a free-list, and a heap of tables.  `lua_State` holds exactly
//! that surface as plain verified data, and every operation the bridge
//! performs against the engine is a contract-carrying method here.

use vstd::prelude::*;
use vstd::string::StringExecFns;
use crate::errors::Error;
use crate::value::LuaValue;
use crate::value::TKey;
use crate::value::KeyView;
use crate::value::key_view;
use crate::value::key_eq;

verus! {

/// The table identifier of the globals table.
pub const GLOBALS_TID: usize = 0;

/// The runtime rejects C stacks deeper than this; pushes require room.
pub const MAXCSTACK: usize = 8000;

/// One table of the runtime's heap: its entries in insertion order and
/// an optional metatable.
#[derive(Debug)]
pub struct TableData {
    pub entries: Vec<(TKey, LuaValue)>,
    pub meta: Option<usize>,
}

/// One registry slot: free (reusable through the free-list) or holding
/// an anchored value.
#[derive(Debug, Clone, PartialEq)]
pub enum RegSlot {
    Free,
    Val(LuaValue),
}

/// The observable state of one runtime instance.
///
/// Registry key `k` (1-based) lives at `reg[k - 1]`.  The runtime
/// threads its chain of reusable keys through the registry itself,
/// headed by a reserved key whose value 0 means "allocate the next
/// integer key"; `free` holds that same chain as a last-in-first-out
/// sequence, most recently released key last.  Table identifier 0 is
/// the globals table.
#[derive(Debug)]
pub struct lua_State {
    pub stack: Vec<LuaValue>,
    pub reg: Vec<RegSlot>,
    pub free: Vec<i32>,
    pub tables: Vec<TableData>,
}

/// The entries of table `tid`, as the specification sees them.
pub open spec fn tbl_entries(s: lua_State, tid: int) -> Seq<(TKey, LuaValue)> {
    s.tables@[tid].entries@
}

/// The position of the entry a key view addresses, or -1 when absent.
pub open spec fn entry_pos(entries: Seq<(TKey, LuaValue)>, kv: KeyView) -> int
    decreases entries.len(),
{
    if entries.len() == 0 {
        -1
    } else if key_view(entries[0].0) == kv {
        0
    } else {
        let p = entry_pos(entries.drop_first(), kv);
        if p == -1 {
            -1
        } else {
            p + 1
        }
    }
}

/// What [`entry_pos`] finds: either no entry matches, or the position
/// holds the first match.
pub proof fn lemma_entry_pos(entries: Seq<(TKey, LuaValue)>, kv: KeyView)
    ensures
        entry_pos(entries, kv) == -1 ==> forall|i: int|
            0 <= i < entries.len() ==> key_view(#[trigger] entries[i].0) != kv,
        entry_pos(entries, kv) != -1 ==> {
            let p = entry_pos(entries, kv);
            &&& 0 <= p < entries.len()
            &&& key_view(entries[p].0) == kv
            &&& forall|i: int| 0 <= i < p ==> key_view(#[trigger] entries[i].0) != kv
        },
    decreases entries.len(),
{
    if entries.len() > 0 {
        if key_view(entries[0].0) != kv {
            lemma_entry_pos(entries.drop_first(), kv);
            assert forall|i: int| 1 <= i < entries.len() implies entries.drop_first()[i - 1]
                == entries[i] by {}
        }
    }
}

/// The raw value a key view addresses in `entries`: the stored value,
/// or `Nil` when the key is absent.
pub open spec fn raw_lookup(entries: Seq<(TKey, LuaValue)>, kv: KeyView) -> LuaValue {
    let p = entry_pos(entries, kv);
    if p == -1 {
        LuaValue::Nil
    } else {
        entries[p].1
    }
}

/// The raw update of `entries` at `key`: assigning `Nil` removes the
/// entry, assigning anything else overwrites in place or appends.
pub open spec fn raw_update(
    entries: Seq<(TKey, LuaValue)>,
    key: TKey,
    v: LuaValue,
) -> Seq<(TKey, LuaValue)> {
    let p = entry_pos(entries, key_view(key));
    if v is Nil {
        if p == -1 {
            entries
        } else {
            entries.remove(p)
        }
    } else {
        if p == -1 {
            entries.push((key, v))
        } else {
            entries.update(p, (entries[p].0, v))
        }
    }
}

impl lua_State {
    /// A value is admissible when any table it names exists in the arena.
    pub open spec fn val_ok(self, v: LuaValue) -> bool {
        match v {
            LuaValue::Table(t) => (t as int) < self.tables@.len(),
            _ => true,
        }
    }

    /// A table is admissible when its metatable (if any) exists, its
    /// values are admissible and its keys are pairwise distinct.
    pub open spec fn tbl_ok(self, t: TableData) -> bool {
        &&& match t.meta {
            Some(m) => (m as int) < self.tables@.len(),
            None => true,
        }
        &&& forall|i: int|
            0 <= i < t.entries@.len() ==> self.val_ok(#[trigger] t.entries@[i].1)
                && !(t.entries@[i].1 is Nil) && !(t.entries@[i].1 is Missing)
                && crate::value::key_in_range(t.entries@[i].0)
        &&& forall|i: int, j: int|
            0 <= i < j < t.entries@.len() ==> key_view(#[trigger] t.entries@[i].0)
                != key_view(#[trigger] t.entries@[j].0)
    }

    /// The free-list is admissible: every listed key names a free slot,
    /// no key is listed twice, and every free slot is listed.
    pub open spec fn free_ok(self) -> bool {
        &&& forall|i: int|
            0 <= i < self.free@.len() ==> 1 <= #[trigger] self.free@[i]
                && self.free@[i] <= self.reg@.len() && self.reg@[self.free@[i] - 1] is Free
        &&& forall|i: int, j: int|
            0 <= i < j < self.free@.len() ==> self.free@[i] != self.free@[j]
        &&& forall|k: int|
            0 <= k < self.reg@.len() && #[trigger] self.reg@[k] is Free ==> self.free@.contains(
                (k + 1) as i32,
            )
    }

    /// Well-formedness of the whole instance state.
    pub open spec fn wf(self) -> bool {
        &&& self.tables@.len() >= 1
        &&& self.stack@.len() <= MAXCSTACK
        &&& self.reg@.len() <= 0x40000000
        &&& forall|i: int|
            0 <= i < self.stack@.len() ==> self.val_ok(#[trigger] self.stack@[i])
        &&& forall|i: int|
            0 <= i < self.reg@.len() ==> match #[trigger] self.reg@[i] {
                RegSlot::Val(v) => self.val_ok(v),
                RegSlot::Free => true,
            }
        &&& forall|i: int|
            0 <= i < self.tables@.len() ==> self.tbl_ok(#[trigger] self.tables@[i])
        &&& self.free_ok()
    }

    /// The set of registry keys currently holding a value.
    pub open spec fn live_keys(self) -> Set<int> {
        Set::new(|k: int| 1 <= k <= self.reg@.len() && self.reg@[k - 1] is Val)
    }
}

/// The absolute 1-based stack position a signed index addresses, or 0
/// when the index addresses no slot.  Positive indices count from the
/// base, indices in (-10000, 0) count from the top; anything else is a
/// pseudo-index or invalid and resolves to no slot here.
pub open spec fn resolve(stack: Seq<LuaValue>, idx: int) -> int {
    if 1 <= idx && idx <= stack.len() {
        idx
    } else if -10000 < idx && idx < 0 && stack.len() + idx + 1 >= 1 {
        stack.len() + idx + 1
    } else {
        0
    }
}

/// The value a signed index addresses, `Missing` when it addresses none.
pub open spec fn slot(stack: Seq<LuaValue>, idx: int) -> LuaValue {
    let p = resolve(stack, idx);
    if p == 0 {
        LuaValue::Missing
    } else {
        stack[p - 1]
    }
}

/// Copies a value; unlike a derived clone this carries a full contract.
pub fn clone_value(v: &LuaValue) -> (r: LuaValue)
    ensures
        r == *v,
{
    match v {
        LuaValue::Nil => LuaValue::Nil,
        LuaValue::Bool(b) => LuaValue::Bool(*b),
        LuaValue::Number(n) => LuaValue::Number(*n),
        LuaValue::Str(s) => LuaValue::Str(s.clone()),
        LuaValue::Table(t) => LuaValue::Table(*t),
        LuaValue::Function(f) => LuaValue::Function(*f),
        LuaValue::Missing => LuaValue::Missing,
    }
}

/// Copies a table key.
pub fn clone_key(k: &TKey) -> (r: TKey)
    ensures
        r == *k,
{
    match k {
        TKey::Int(n) => TKey::Int(*n),
        TKey::Str(s) => TKey::Str(s.clone()),
    }
}

impl lua_State {
    /// A fresh instance: empty stack, empty registry, and a globals
    /// table as the only heap object.
    pub fn init() -> (s: lua_State)
        ensures
            s.wf(),
            s.stack@.len() == 0,
            s.reg@.len() == 0,
            s.free@.len() == 0,
            s.tables@.len() == 1,
            s.tables@[0].entries@.len() == 0,
            s.tables@[0].meta is None,
    {
        let mut tables: Vec<TableData> = Vec::new();
        tables.push(TableData { entries: Vec::new(), meta: None });
        lua_State { stack: Vec::new(), reg: Vec::new(), free: Vec::new(), tables }
    }

    /// The current stack depth.
    pub fn gettop(&self) -> (n: i32)
        requires
            self.wf(),
        ensures
            n as int == self.stack@.len(),
    {
        self.stack.len() as i32
    }

    /// Converts an acceptable index to an absolute one, as the runtime's
    /// helpers do; 0 when the index addresses no slot.
    pub fn abs_index(&self, idx: i32) -> (r: i32)
        requires
            self.wf(),
        ensures
            r as int == resolve(self.stack@, idx as int),
    {
        let top = self.stack.len() as i32;
        if 1 <= idx && idx <= top {
            idx
        } else if -10000 < idx && idx < 0 && top + idx + 1 >= 1 {
            top + idx + 1
        } else {
            0
        }
    }

    /// Pushes one admissible value.
    pub fn push_value(&mut self, v: LuaValue)
        requires
            old(self).wf(),
            old(self).stack@.len() < MAXCSTACK,
            old(self).val_ok(v),
        ensures
            final(self).wf(),
            final(self).stack@ == old(self).stack@.push(v),
            final(self).reg@ == old(self).reg@,
            final(self).free@ == old(self).free@,
            final(self).tables@ == old(self).tables@,
    {
        self.stack.push(v);
    }

    /// Discards the `n` topmost slots.
    pub fn pop_n(&mut self, n: usize)
        requires
            old(self).wf(),
            n <= old(self).stack@.len(),
        ensures
            final(self).wf(),
            final(self).stack@ == old(self).stack@.subrange(
                0,
                old(self).stack@.len() - n as int,
            ),
            final(self).reg@ == old(self).reg@,
            final(self).free@ == old(self).free@,
            final(self).tables@ == old(self).tables@,
    {
        let new_len = self.stack.len() - n;
        self.stack.truncate(new_len);
        proof {
            assert(final(self).stack@ =~= old(self).stack@.subrange(
                0,
                old(self).stack@.len() - n as int,
            ));
        }
    }

    /// Removes the slot a valid index addresses, shifting what is above
    /// it down.
    pub fn remove_at(&mut self, idx: i32)
        requires
            old(self).wf(),
            resolve(old(self).stack@, idx as int) != 0,
        ensures
            final(self).wf(),
            final(self).stack@ == old(self).stack@.remove(
                resolve(old(self).stack@, idx as int) - 1,
            ),
            final(self).reg@ == old(self).reg@,
            final(self).free@ == old(self).free@,
            final(self).tables@ == old(self).tables@,
    {
        let p = self.abs_index(idx);
        self.stack.remove((p - 1) as usize);
    }

    /// Reads the value a signed index addresses without consuming it;
    /// `Missing` when the index addresses no slot.
    pub fn read_slot(&self, idx: i32) -> (r: LuaValue)
        requires
            self.wf(),
        ensures
            r == slot(self.stack@, idx as int),
            self.val_ok(r),
    {
        let p = self.abs_index(idx);
        if p == 0 {
            LuaValue::Missing
        } else {
            clone_value(&self.stack[(p - 1) as usize])
        }
    }

    /// Copies the slot a valid index addresses onto the top, as the
    /// runtime's push-of-a-value entry point does.
    pub fn dup_slot(&mut self, idx: i32)
        requires
            old(self).wf(),
            old(self).stack@.len() < MAXCSTACK,
            resolve(old(self).stack@, idx as int) != 0,
        ensures
            final(self).wf(),
            final(self).stack@ == old(self).stack@.push(
                slot(old(self).stack@, idx as int),
            ),
            final(self).reg@ == old(self).reg@,
            final(self).free@ == old(self).free@,
            final(self).tables@ == old(self).tables@,
    {
        let v = self.read_slot(idx);
        self.push_value(v);
    }

    /// The runtime's type tag for the slot a signed index addresses
    /// (`-1`, "none", when it addresses no slot).
    pub fn type_at(&self, idx: i32) -> (t: i32)
        requires
            self.wf(),
        ensures
            t == crate::value::kind_tag(slot(self.stack@, idx as int)),
    {
        let v = self.read_slot(idx);
        v.type_tag()
    }

    /// The position of `key` in table `tid`, or `None` when absent.
    pub fn find_entry(&self, tid: usize, key: &TKey) -> (r: Option<usize>)
        requires
            self.wf(),
            (tid as int) < self.tables@.len(),
        ensures
            match r {
                Some(p) => p as int == entry_pos(tbl_entries(*self, tid as int), key_view(*key)),
                None => entry_pos(tbl_entries(*self, tid as int), key_view(*key)) == -1,
            },
    {
        proof {
            lemma_entry_pos(tbl_entries(*self, tid as int), key_view(*key));
        }
        let entries = &self.tables[tid].entries;
        let ghost es = entries@;
        let mut i: usize = 0;
        while i < entries.len()
            invariant
                self.wf(),
                (tid as int) < self.tables@.len(),
                es == tbl_entries(*self, tid as int),
                entries == &self.tables@[tid as int].entries,
                i <= es.len(),
                forall|j: int| 0 <= j < i ==> key_view(#[trigger] es[j].0) != key_view(*key),
            decreases es.len() - i,
        {
            if key_eq(&entries[i].0, key) {
                proof {
                    lemma_entry_pos(es, key_view(*key));
                }
                return Some(i);
            }
            i = i + 1;
        }
        proof {
            lemma_entry_pos(es, key_view(*key));
        }
        None
    }

    /// The raw value of `key` in table `tid` (no metatable dispatch):
    /// the stored value, or `Nil` when absent.
    pub fn raw_get(&self, tid: usize, key: &TKey) -> (r: LuaValue)
        requires
            self.wf(),
            (tid as int) < self.tables@.len(),
        ensures
            r == raw_lookup(tbl_entries(*self, tid as int), key_view(*key)),
            self.val_ok(r),
    {
        match self.find_entry(tid, key) {
            Some(p) => {
                proof {
                    lemma_entry_pos(tbl_entries(*self, tid as int), key_view(*key));
                    assert(self.tbl_ok(self.tables@[tid as int]));
                }
                clone_value(&self.tables[tid].entries[p].1)
            },
            None => LuaValue::Nil,
        }
    }

    /// The raw update of table `tid` at `key` (no metatable dispatch):
    /// assigning `Nil` removes the entry, anything else overwrites or
    /// appends.  Nothing but that one table changes.
    pub fn raw_set(&mut self, tid: usize, key: TKey, v: LuaValue)
        requires
            old(self).wf(),
            (tid as int) < old(self).tables@.len(),
            old(self).val_ok(v),
            !(v is Missing),
            crate::value::key_in_range(key),
        ensures
            final(self).wf(),
            final(self).stack@ == old(self).stack@,
            final(self).reg@ == old(self).reg@,
            final(self).free@ == old(self).free@,
            final(self).tables@.len() == old(self).tables@.len(),
            tbl_entries(*final(self), tid as int) == raw_update(
                tbl_entries(*old(self), tid as int),
                key,
                v,
            ),
            final(self).tables@[tid as int].meta == old(self).tables@[tid as int].meta,
            forall|t: int|
                0 <= t < old(self).tables@.len() && t != tid ==> final(self).tables@[t]
                    == old(self).tables@[t],
    {
        proof {
            lemma_entry_pos(tbl_entries(*old(self), tid as int), key_view(key));
        }
        let pos = self.find_entry(tid, &key);
        let is_nil = v.is_nil();
        match pos {
            Some(p) => {
                if is_nil {
                    self.tables[tid].entries.remove(p);
                } else {
                    let k0 = clone_key(&self.tables[tid].entries[p].0);
                    self.tables[tid].entries[p] = (k0, v);
                }
            },
            None => {
                if !is_nil {
                    self.tables[tid].entries.push((key, v));
                }
            },
        }
        proof {
            let oe = tbl_entries(*old(self), tid as int);
            let ne = tbl_entries(*self, tid as int);
            let kv = key_view(key);
            let p = entry_pos(oe, kv);
            assert(ne =~= raw_update(oe, key, v));
            // key distinctness of the updated table
            assert forall|i: int, j: int|
                0 <= i < j < ne.len() implies key_view(#[trigger] ne[i].0) != key_view(
                #[trigger] ne[j].0,
            ) by {
                if v is Nil {
                    // a removal keeps distinctness
                } else if p == -1 {
                    // an append adds a key no prior entry carries
                }
            }
        }
    }

    /// Creates a fresh empty table and pushes its handle.
    pub fn new_table(&mut self) -> (tid: usize)
        requires
            old(self).wf(),
            old(self).stack@.len() < MAXCSTACK,
        ensures
            final(self).wf(),
            tid as int == old(self).tables@.len(),
            final(self).stack@ == old(self).stack@.push(LuaValue::Table(tid)),
            final(self).reg@ == old(self).reg@,
            final(self).free@ == old(self).free@,
            final(self).tables@.len() == old(self).tables@.len() + 1,
            forall|t: int|
                0 <= t < old(self).tables@.len() ==> final(self).tables@[t] == old(
                    self,
                ).tables@[t],
            tbl_entries(*final(self), tid as int).len() == 0,
            final(self).tables@[tid as int].meta is None,
    {
        let tid = self.tables.len();
        self.tables.push(TableData { entries: Vec::new(), meta: None });
        self.stack.push(LuaValue::Table(tid));
        tid
    }

    /// Installs table `mtid` as the metatable of table `tid`.
    pub fn set_meta(&mut self, tid: usize, mtid: usize)
        requires
            old(self).wf(),
            (tid as int) < old(self).tables@.len(),
            (mtid as int) < old(self).tables@.len(),
        ensures
            final(self).wf(),
            final(self).stack@ == old(self).stack@,
            final(self).reg@ == old(self).reg@,
            final(self).free@ == old(self).free@,
            final(self).tables@.len() == old(self).tables@.len(),
            tbl_entries(*final(self), tid as int) == tbl_entries(*old(self), tid as int),
            final(self).tables@[tid as int].meta == Some(mtid),
            forall|t: int|
                0 <= t < old(self).tables@.len() && t != tid ==> final(self).tables@[t]
                    == old(self).tables@[t],
    {
        self.tables[tid].meta = Some(mtid);
    }

    /// The metatable of table `tid`, if any.
    pub fn get_meta(&self, tid: usize) -> (r: Option<usize>)
        requires
            self.wf(),
            (tid as int) < self.tables@.len(),
        ensures
            r == self.tables@[tid as int].meta,
            r matches Some(m) ==> (m as int) < self.tables@.len(),
    {
        match self.tables[tid].meta {
            Some(m) => Some(m),
            None => None,
        }
    }
}

/// The registry transition that anchors a value: the free-list's most
/// recently released key is reused, else the next fresh key is taken.
pub open spec fn spec_anchor(reg: Seq<RegSlot>, free: Seq<i32>, v: LuaValue) -> (
    Seq<RegSlot>,
    Seq<i32>,
    int,
) {
    if free.len() > 0 {
        let k = free.last() as int;
        (reg.update(k - 1, RegSlot::Val(v)), free.drop_last(), k)
    } else {
        (reg.push(RegSlot::Val(v)), free, reg.len() as int + 1)
    }
}

/// The registry transition that releases a key back to the free-list;
/// the sentinel key -1 releases nothing.
pub open spec fn spec_release(reg: Seq<RegSlot>, free: Seq<i32>, key: int) -> (
    Seq<RegSlot>,
    Seq<i32>,
) {
    if key == -1 {
        (reg, free)
    } else {
        (reg.update(key - 1, RegSlot::Free), free.push(key as i32))
    }
}

/// The value registry key `key` anchors (`Nil` for a free slot).
pub open spec fn reg_val(reg: Seq<RegSlot>, key: int) -> LuaValue {
    match reg[key - 1] {
        RegSlot::Val(v) => v,
        RegSlot::Free => LuaValue::Nil,
    }
}

impl lua_State {
    /// Whether `key` is an admissible anchored-reference key: the
    /// sentinel, or a live registry key.
    pub open spec fn reg_key_ok(self, key: int) -> bool {
        key == -1 || (1 <= key <= self.reg@.len() && self.reg@[key - 1] is Val)
    }

    /// Anchors the topmost stack value in the registry: pops it, claims
    /// a key through the free-list protocol, and stores it there.
    pub fn reg_anchor(&mut self) -> (key: i32)
        requires
            old(self).wf(),
            old(self).stack@.len() >= 1,
            old(self).reg@.len() < 0x40000000,
        ensures
            final(self).wf(),
            final(self).stack@ == old(self).stack@.drop_last(),
            final(self).tables@ == old(self).tables@,
            (final(self).reg@, final(self).free@, key as int) == spec_anchor(
                old(self).reg@,
                old(self).free@,
                old(self).stack@.last(),
            ),
            final(self).reg_key_ok(key as int),
            1 <= key,
            reg_val(final(self).reg@, key as int) == old(self).stack@.last(),
            !old(self).live_keys().contains(key as int),
            final(self).live_keys() == old(self).live_keys().insert(key as int),
    {
        let v = match self.stack.pop() {
            Some(v) => v,
            None => LuaValue::Nil,
        };
        let key: i32;
        if self.free.len() > 0 {
            let k = match self.free.pop() {
                Some(k) => k,
                None => 0,
            };
            self.reg[(k - 1) as usize] = RegSlot::Val(v);
            key = k;
        } else {
            self.reg.push(RegSlot::Val(v));
            key = self.reg.len() as i32;
        }
        proof {
            assert(final(self).stack@ =~= old(self).stack@.drop_last());
            assert(final(self).free@ =~= if old(self).free@.len() > 0 {
                old(self).free@.drop_last()
            } else {
                old(self).free@
            });
            // every slot still free remains listed after the claim
            let fr = final(self).free@;
            assert forall|k2: int|
                0 <= k2 < final(self).reg@.len() && final(self).reg@[k2] is Free implies fr
                .contains((k2 + 1) as i32) by {
                assert(old(self).reg@[k2] is Free);
                let i = choose|i: int|
                    0 <= i < old(self).free@.len() && old(self).free@[i] == (k2 + 1) as i32;
                if old(self).free@.len() > 0 {
                    assert(old(self).free@[old(self).free@.len() - 1] == key);
                    assert(i < old(self).free@.len() - 1);
                    assert(fr[i] == (k2 + 1) as i32);
                } else {
                    assert(fr[i] == (k2 + 1) as i32);
                }
            }
            assert(final(self).live_keys() =~= old(self).live_keys().insert(key as int));
        }
        key
    }

    /// Releases a registry key back to the free-list; the sentinel key
    /// -1 is a no-op.
    pub fn reg_release(&mut self, key: i32)
        requires
            old(self).wf(),
            old(self).reg_key_ok(key as int),
        ensures
            final(self).wf(),
            final(self).stack@ == old(self).stack@,
            final(self).tables@ == old(self).tables@,
            (final(self).reg@, final(self).free@) == spec_release(
                old(self).reg@,
                old(self).free@,
                key as int,
            ),
            final(self).live_keys() == old(self).live_keys().remove(key as int),
    {
        if key == -1 {
            proof {
                assert(final(self).live_keys() =~= old(self).live_keys().remove(key as int));
            }
            return;
        }
        self.reg[(key - 1) as usize] = RegSlot::Free;
        self.free.push(key);
        proof {
            let fr = final(self).free@;
            assert forall|i: int, j: int| 0 <= i < j < fr.len() implies fr[i] != fr[j] by {
                if j == final(self).free@.len() - 1 {
                    // the released key named a live slot, so it was not listed
                    assert(old(self).reg@[old(self).free@[i] - 1] is Free);
                }
            }
            // every free slot is listed: the released one at the new tail,
            // every other at its old position
            assert forall|k2: int|
                0 <= k2 < final(self).reg@.len() && final(self).reg@[k2] is Free implies fr
                .contains((k2 + 1) as i32) by {
                if k2 == key - 1 {
                    assert(fr[fr.len() - 1] == (k2 + 1) as i32);
                } else {
                    assert(old(self).reg@[k2] is Free);
                    let i = choose|i: int|
                        0 <= i < old(self).free@.len() && old(self).free@[i] == (k2 + 1) as i32;
                    assert(fr[i] == (k2 + 1) as i32);
                }
            }
            assert(final(self).live_keys() =~= old(self).live_keys().remove(key as int));
        }
    }

    /// Pushes the value a registry key anchors.  The sentinel key -1
    /// never reaches the registry: it pushes `Nil` explicitly.
    pub fn reg_push(&mut self, key: i32)
        requires
            old(self).wf(),
            old(self).stack@.len() < MAXCSTACK,
            old(self).reg_key_ok(key as int),
        ensures
            final(self).wf(),
            final(self).stack@ == old(self).stack@.push(
                if key == -1 {
                    LuaValue::Nil
                } else {
                    reg_val(old(self).reg@, key as int)
                },
            ),
            final(self).reg@ == old(self).reg@,
            final(self).free@ == old(self).free@,
            final(self).tables@ == old(self).tables@,
    {
        if key == -1 {
            self.push_value(LuaValue::Nil);
        } else {
            let v = match &self.reg[(key - 1) as usize] {
                RegSlot::Val(v) => clone_value(v),
                RegSlot::Free => LuaValue::Nil,
            };
            self.push_value(v);
        }
    }

    /// The border of table `tid`: some `n` with keys `1..=n` all
    /// present and `n + 1` absent, the length operator's answer for an
    /// array-shaped table.  Searches up to the runtime's array-size
    /// bound.
    pub fn table_len(&self, tid: usize) -> (n: usize)
        requires
            self.wf(),
            (tid as int) < self.tables@.len(),
        ensures
            forall|k: int|
                1 <= k <= n ==> !(raw_lookup(
                    tbl_entries(*self, tid as int),
                    KeyView::KInt(k),
                ) is Nil),
            n < 0x8000000 ==> raw_lookup(
                tbl_entries(*self, tid as int),
                KeyView::KInt(n + 1),
            ) is Nil,
    {
        let ghost es = tbl_entries(*self, tid as int);
        let mut n: usize = 0;
        while n < 0x8000000
            invariant
                self.wf(),
                (tid as int) < self.tables@.len(),
                es == tbl_entries(*self, tid as int),
                n <= 0x8000000,
                forall|k: int| 1 <= k <= n ==> !(raw_lookup(es, KeyView::KInt(k)) is Nil),
            decreases 0x8000000 - n,
        {
            let key = TKey::Int((n + 1) as i64);
            match self.find_entry(tid, &key) {
                Some(p) => {
                    proof {
                        lemma_entry_pos(es, KeyView::KInt(n + 1 as int));
                        assert(self.tbl_ok(self.tables@[tid as int]));
                    }
                    n = n + 1;
                },
                None => {
                    return n;
                },
            }
        }
        n
    }

    /// One step of table traversal: with no previous key, the first
    /// entry; with the previous key's position `p`, the entry after
    /// `p`; `None` once the entries are exhausted.
    pub fn next_entry(&self, tid: usize, prev: Option<&TKey>) -> (r: Option<(TKey, LuaValue)>)
        requires
            self.wf(),
            (tid as int) < self.tables@.len(),
            match prev {
                Some(k) => entry_pos(tbl_entries(*self, tid as int), key_view(*k)) != -1,
                None => true,
            },
        ensures
            ({
                let es = tbl_entries(*self, tid as int);
                match prev {
                    None => if es.len() == 0 {
                        r is None
                    } else {
                        r == Some(es[0])
                    },
                    Some(k) => {
                        let p = entry_pos(es, key_view(*k));
                        if p + 1 == es.len() {
                            r is None
                        } else {
                            r == Some(es[p + 1])
                        }
                    },
                }
            }),
    {
        let ghost es = tbl_entries(*self, tid as int);
        let entries = &self.tables[tid].entries;
        let cnt = entries.len();
        let next_pos: usize = match prev {
            None => 0,
            Some(k) => {
                match self.find_entry(tid, k) {
                    Some(p) => {
                        proof {
                            lemma_entry_pos(es, key_view(*k));
                        }
                        assert(p < cnt);
                        p + 1
                    },
                    None => 0,
                }
            },
        };
        if next_pos < entries.len() {
            let k = clone_key(&entries[next_pos].0);
            let v = clone_value(&entries[next_pos].1);
            Some((k, v))
        } else {
            None
        }
    }
}

/// The value the generic field-get entry point produces for key view
/// `kv` on table `tid`: the raw value when present, else the result of
/// following the metatable's index handler through table-valued
/// handlers.  `None` stands for the runtime's "chain too long" error.
/// A function-valued handler would re-enter the interpreter, which is
/// outside the model: it reads as `Nil` here.
pub open spec fn spec_get_field(
    tables: Seq<TableData>,
    tid: int,
    kv: KeyView,
    fuel: nat,
) -> Option<LuaValue>
    decreases fuel,
{
    if fuel == 0 {
        None
    } else {
        let raw = raw_lookup(tables[tid].entries@, kv);
        if !(raw is Nil) {
            Some(raw)
        } else {
            match tables[tid].meta {
                None => Some(LuaValue::Nil),
                Some(m) => {
                    let h = raw_lookup(tables[m as int].entries@, KeyView::KStr("__index"@));
                    match h {
                        LuaValue::Table(t2) => spec_get_field(
                            tables,
                            t2 as int,
                            kv,
                            (fuel - 1) as nat,
                        ),
                        _ => Some(LuaValue::Nil),
                    }
                },
            }
        }
    }
}

/// The table the generic field-set entry point writes into for key view
/// `kv` starting at `tid`: the starting table when the key is present
/// raw or no newindex handler applies, else the table a table-valued
/// newindex chain leads to.  `Some(-1)` stands for a function-valued
/// handler (interpreter territory: the model drops the write); `None`
/// stands for the runtime's "chain too long" error.
pub open spec fn spec_set_dest(
    tables: Seq<TableData>,
    tid: int,
    kv: KeyView,
    fuel: nat,
) -> Option<int>
    decreases fuel,
{
    if fuel == 0 {
        None
    } else if entry_pos(tables[tid].entries@, kv) != -1 {
        Some(tid)
    } else {
        match tables[tid].meta {
            None => Some(tid),
            Some(m) => {
                let h = raw_lookup(tables[m as int].entries@, KeyView::KStr("__newindex"@));
                match h {
                    LuaValue::Nil => Some(tid),
                    LuaValue::Table(t2) => spec_set_dest(tables, t2 as int, kv, (fuel - 1) as nat),
                    _ => Some(-1),
                }
            },
        }
    }
}

/// Whether every metatable and table-valued entry of the first
/// `bound` tables stays within the first `bound` tables.
pub open spec fn tables_closed(tables: Seq<TableData>, bound: int) -> bool {
    &&& forall|i: int|
        0 <= i < bound ==> match (#[trigger] tables[i]).meta {
            Some(m) => (m as int) < bound,
            None => true,
        }
    &&& forall|i: int, j: int|
        0 <= i < bound && 0 <= j < tables[i].entries@.len() ==> ((
        #[trigger] tables[i].entries@[j].1) is Table ==> (tables[i].entries@[j].1->Table_0 as int)
            < bound)
}

/// Growing the arena does not move a set's destination: the newindex
/// chain only walks tables below the old bound, so the destination is
/// the same against the grown arena, and lies below the bound.
pub proof fn lemma_set_dest_prefix(
    tables1: Seq<TableData>,
    tables2: Seq<TableData>,
    tid: int,
    kv: KeyView,
    fuel: nat,
)
    requires
        0 <= tid < tables1.len(),
        tables1.len() <= tables2.len(),
        forall|i: int| 0 <= i < tables1.len() ==> #[trigger] tables2[i] == tables1[i],
        tables_closed(tables1, tables1.len() as int),
    ensures
        spec_set_dest(tables2, tid, kv, fuel) == spec_set_dest(tables1, tid, kv, fuel),
        match spec_set_dest(tables1, tid, kv, fuel) {
            Some(d) => d >= 0 ==> d < tables1.len(),
            None => true,
        },
    decreases fuel,
{
    if fuel > 0 {
        assert(tables2[tid] == tables1[tid]);
        if entry_pos(tables1[tid].entries@, kv) != -1 {
        } else {
            match tables1[tid].meta {
                None => {},
                Some(m) => {
                    let h = raw_lookup(tables1[m as int].entries@, KeyView::KStr("__newindex"@));
                    assert(tables2[m as int] == tables1[m as int]);
                    match h {
                        LuaValue::Nil => {},
                        LuaValue::Table(t2) => {
                            lemma_entry_pos(
                                tables1[m as int].entries@,
                                KeyView::KStr("__newindex"@),
                            );
                            assert((t2 as int) < tables1.len());
                            lemma_set_dest_prefix(
                                tables1,
                                tables2,
                                t2 as int,
                                kv,
                                (fuel - 1) as nat,
                            );
                        },
                        _ => {},
                    }
                },
            }
        }
    }
}

/// The dispatch depth bound the runtime enforces on metatable chains.
pub const TAG_LOOP_MAX: u32 = 100;

impl lua_State {
    /// The generic field-get entry point: raw access plus metatable
    /// dispatch through table-valued index handlers, failing as the
    /// runtime does when the chain exceeds its depth bound.
    pub fn get_field(&self, tid: usize, key: &TKey) -> (r: Result<LuaValue, Error>)
        requires
            self.wf(),
            (tid as int) < self.tables@.len(),
        ensures
            match spec_get_field(self.tables@, tid as int, key_view(*key), TAG_LOOP_MAX as nat) {
                Some(v) => r == Result::<LuaValue, Error>::Ok(v) && self.val_ok(v),
                None => r matches Err(e) && e matches Error::RuntimeError(m) && m@
                    == "loop in gettable"@,
            },
    {
        let mut cur = tid;
        let mut fuel: u32 = TAG_LOOP_MAX;
        loop
            invariant
                self.wf(),
                (cur as int) < self.tables@.len(),
                fuel <= TAG_LOOP_MAX,
                spec_get_field(self.tables@, tid as int, key_view(*key), TAG_LOOP_MAX as nat)
                    == spec_get_field(self.tables@, cur as int, key_view(*key), fuel as nat),
            decreases fuel,
        {
            if fuel == 0 {
                return Err(Error::RuntimeError(String::from_str("loop in gettable")));
            }
            let raw = self.raw_get(cur, key);
            if !raw.is_nil() {
                return Ok(raw);
            }
            match self.get_meta(cur) {
                None => {
                    return Ok(LuaValue::Nil);
                },
                Some(m) => {
                    let hk = TKey::Str(String::from_str("__index"));
                    let h = self.raw_get(m, &hk);
                    match h {
                        LuaValue::Table(t2) => {
                            cur = t2;
                            fuel = fuel - 1;
                        },
                        _ => {
                            return Ok(LuaValue::Nil);
                        },
                    }
                },
            }
        }
    }

    /// The generic field-set entry point: raw update plus metatable
    /// dispatch through table-valued newindex handlers, failing as the
    /// runtime does when the chain exceeds its depth bound.
    pub fn set_field(&mut self, tid: usize, key: TKey, v: LuaValue) -> (r: Result<(), Error>)
        requires
            old(self).wf(),
            (tid as int) < old(self).tables@.len(),
            old(self).val_ok(v),
            !(v is Missing),
            crate::value::key_in_range(key),
        ensures
            final(self).wf(),
            final(self).stack@ == old(self).stack@,
            final(self).reg@ == old(self).reg@,
            final(self).free@ == old(self).free@,
            final(self).tables@.len() == old(self).tables@.len(),
            match spec_set_dest(old(self).tables@, tid as int, key_view(key), TAG_LOOP_MAX as nat) {
                Some(d) => if d >= 0 {
                    r is Ok && tbl_entries(*final(self), d) == raw_update(
                        tbl_entries(*old(self), d),
                        key,
                        v,
                    ) && final(self).tables@[d].meta == old(self).tables@[d].meta
                        && forall|t: int|
                        0 <= t < old(self).tables@.len() && t != d ==> final(self).tables@[t]
                            == old(self).tables@[t]
                } else {
                    r is Ok && final(self).tables@ == old(self).tables@
                },
                None => (r matches Err(e) && e matches Error::RuntimeError(m) && m@
                    == "loop in settable"@) && final(self).tables@ == old(self).tables@,
            },
    {
        let mut cur = tid;
        let mut fuel: u32 = TAG_LOOP_MAX;
        loop
            invariant
                self.wf(),
                *self == *old(self),
                (cur as int) < self.tables@.len(),
                fuel <= TAG_LOOP_MAX,
                old(self).val_ok(v),
                !(v is Missing),
                crate::value::key_in_range(key),
                spec_set_dest(old(self).tables@, tid as int, key_view(key), TAG_LOOP_MAX as nat)
                    == spec_set_dest(old(self).tables@, cur as int, key_view(key), fuel as nat),
            decreases fuel,
        {
            if fuel == 0 {
                return Err(Error::RuntimeError(String::from_str("loop in settable")));
            }
            match self.find_entry(cur, &key) {
                Some(_) => {
                    self.raw_set(cur, key, v);
                    return Ok(());
                },
                None => {
                },
            }
            match self.get_meta(cur) {
                None => {
                    self.raw_set(cur, key, v);
                    return Ok(());
                },
                Some(m) => {
                    let hk = TKey::Str(String::from_str("__newindex"));
                    let h = self.raw_get(m, &hk);
                    match h {
                        LuaValue::Nil => {
                            self.raw_set(cur, key, v);
                            return Ok(());
                        },
                        LuaValue::Table(t2) => {
                            cur = t2;
                            fuel = fuel - 1;
                        },
                        _ => {
                            return Ok(());
                        },
                    }
                },
            }
        }
    }
}

} // verus!
