//! The bridge's cross-cutting guarantees, stated and proved once over
//! the specification functions the operation contracts use.

use vstd::prelude::*;
use crate::errors::Error;
use crate::errors::display_str;
use crate::num::int_bits;
use crate::num::int_bits_pred;
use crate::num::num_int_of_bits;
use crate::num::num_trunc_of_bits;
use crate::num::lemma_int_bits_unique;
use crate::read::Read;
use crate::rt::RegSlot;
use crate::rt::slot;
use crate::rt::spec_anchor;
use crate::rt::spec_release;
use crate::value::LuaValue;

verus! {

/// The set of registry keys a registry sequence holds values under.
pub open spec fn live_of(reg: Seq<RegSlot>) -> Set<int> {
    Set::new(|k: int| 1 <= k <= reg.len() && reg[k - 1] is Val)
}

/// The set of keys a free-list holds.
pub open spec fn free_set(free: Seq<i32>) -> Set<int> {
    Set::new(|k: int| exists|i: int| 0 <= i < free.len() && free[i] == k)
}

/// Round-trip of the number encoding: any canonical double pattern of
/// an integer decodes back to exactly that integer, both exactly and
/// under truncation, and is the canonical pattern.
pub proof fn lemma_number_round_trip(n: int, b: u64)
    requires
        int_bits_pred(n, b),
    ensures
        num_int_of_bits(b) == Some(n),
        num_trunc_of_bits(b) == n,
        b == int_bits(n),
{
    assert(exists|bb: u64| int_bits_pred(n, bb));
    let w = int_bits(n);
    assert(int_bits_pred(n, w));
    lemma_int_bits_unique(w, b);
}

/// Round-trip of integer marshalling: writing an integer's foreign
/// form and reading the resulting top-of-stack slot yields the
/// original value, and the write grew the stack by exactly one slot —
/// the type's footprint.
pub proof fn lemma_round_trip_i32(
    stack: Seq<LuaValue>,
    reg: Seq<RegSlot>,
    free: Seq<i32>,
    n: i32,
    b: u64,
)
    requires
        int_bits_pred(n as int, b),
    ensures
        <i32 as Read>::read_val(stack.push(LuaValue::Number(b)), reg, free, -1) == n,
        stack.push(LuaValue::Number(b)).len() == stack.len() + <i32 as crate::size::Size>::size_spec(),
{
    lemma_number_round_trip(n as int, b);
    let s1 = stack.push(LuaValue::Number(b));
    assert(slot(s1, -1) == LuaValue::Number(b));
}

/// Round-trip of boolean marshalling.
pub proof fn lemma_round_trip_bool(
    stack: Seq<LuaValue>,
    reg: Seq<RegSlot>,
    free: Seq<i32>,
    v: bool,
)
    ensures
        <bool as Read>::read_val(stack.push(LuaValue::Bool(v)), reg, free, -1) == v,
        stack.push(LuaValue::Bool(v)).len() == stack.len()
            + <bool as crate::size::Size>::size_spec(),
{
    let s1 = stack.push(LuaValue::Bool(v));
    assert(slot(s1, -1) == LuaValue::Bool(v));
}

/// Round-trip of string marshalling: the value read back is the very
/// string written.
pub proof fn lemma_round_trip_string(
    stack: Seq<LuaValue>,
    reg: Seq<RegSlot>,
    free: Seq<i32>,
    v: String,
)
    ensures
        <String as Read>::read_val(stack.push(LuaValue::Str(v)), reg, free, -1) == v,
        stack.push(LuaValue::Str(v)).len() == stack.len()
            + <String as crate::size::Size>::size_spec(),
{
    let s1 = stack.push(LuaValue::Str(v));
    assert(slot(s1, -1) == LuaValue::Str(v));
}

/// Round-trip of optional marshalling: an absent value writes as nil
/// and reads back as absent; a present string reads back present.
pub proof fn lemma_round_trip_optional(
    stack: Seq<LuaValue>,
    reg: Seq<RegSlot>,
    free: Seq<i32>,
    v: Option<String>,
)
    ensures
        match v {
            None => <Option<String> as Read>::read_val(
                stack.push(LuaValue::Nil),
                reg,
                free,
                -1,
            ) is None,
            Some(x) => <Option<String> as Read>::read_val(
                stack.push(LuaValue::Str(x)),
                reg,
                free,
                -1,
            ) == Some(x),
        },
{
    match v {
        None => {
            assert(slot(stack.push(LuaValue::Nil), -1) == LuaValue::Nil);
        },
        Some(x) => {
            assert(slot(stack.push(LuaValue::Str(x)), -1) == LuaValue::Str(x));
        },
    }
}

/// Round-trip through the typed protocol: a written integer's slot
/// passes the typed read's kind test and reads back exactly.
pub proof fn lemma_typed_round_trip_i32(stack: Seq<LuaValue>, n: i32, b: u64)
    requires
        int_bits_pred(n as int, b),
    ensures
        <i32 as crate::transfer::FromLua>::from_ok(stack.push(LuaValue::Number(b)), -1),
        forall|reg: Seq<RegSlot>, free: Seq<i32>|
            #[trigger] <i32 as crate::transfer::FromLua>::from_val(
                stack.push(LuaValue::Number(b)),
                reg,
                free,
                -1,
            ) == n,
{
    lemma_number_round_trip(n as int, b);
    assert(slot(stack.push(LuaValue::Number(b)), -1) == LuaValue::Number(b));
}

/// Round-trip through the typed protocol for strings: the value read
/// back is the very string written.
pub proof fn lemma_typed_round_trip_string(stack: Seq<LuaValue>, v: String)
    ensures
        <String as crate::transfer::FromLua>::from_ok(stack.push(LuaValue::Str(v)), -1),
        forall|reg: Seq<RegSlot>, free: Seq<i32>|
            #[trigger] <String as crate::transfer::FromLua>::from_val(
                stack.push(LuaValue::Str(v)),
                reg,
                free,
                -1,
            ) == v,
{
    assert(slot(stack.push(LuaValue::Str(v)), -1) == LuaValue::Str(v));
}

/// Reference lifecycle: anchoring a value and releasing the claimed
/// key restores the registry's live-key set, and every other key's
/// content is untouched.
pub proof fn lemma_anchor_release(reg: Seq<RegSlot>, free: Seq<i32>, v: LuaValue)
    requires
        reg.len() < 0x40000000,
        forall|i: int|
            0 <= i < free.len() ==> 1 <= #[trigger] free[i] && free[i] <= reg.len() && reg[free[i]
                - 1] is Free,
    ensures
        ({
            let (r1, f1, k) = spec_anchor(reg, free, v);
            let (r2, f2) = spec_release(r1, f1, k);
            &&& live_of(r2) == live_of(reg)
            &&& forall|j: int| 0 <= j < reg.len() && j != k - 1 ==> r2[j] == reg[j]
            &&& free_set(f2) == free_set(free).insert(k)
        }),
{
    let (r1, f1, k) = spec_anchor(reg, free, v);
    let (r2, f2) = spec_release(r1, f1, k);
    assert(live_of(r2) =~= live_of(reg));
    if free.len() > 0 {
        assert forall|x: int| free_set(f2).contains(x) implies free_set(free).insert(k).contains(
            x,
        ) by {
            if x != k {
                let i = choose|i: int| 0 <= i < f2.len() && f2[i] == x;
                if i < f1.len() {
                    assert(free[i] == x);
                }
            }
        }
        assert forall|x: int| free_set(free).insert(k).contains(x) implies free_set(f2).contains(
            x,
        ) by {
            if x == k {
                assert(f2[f2.len() - 1] == k);
            } else {
                let i = choose|i: int| 0 <= i < free.len() && free[i] == x;
                if i < free.len() - 1 {
                    assert(f2[i] == x);
                } else {
                    assert(free[free.len() - 1] == k);
                    assert(x == k);
                }
            }
        }
        assert(free_set(f2) =~= free_set(free).insert(k));
    } else {
        assert forall|x: int| free_set(f2).contains(x) implies free_set(free).insert(k).contains(
            x,
        ) by {
            let i = choose|i: int| 0 <= i < f2.len() && f2[i] == x;
        }
        assert forall|x: int| free_set(free).insert(k).contains(x) implies free_set(f2).contains(
            x,
        ) by {
            if x == k {
                assert(f2[f2.len() - 1] == k);
            } else {
                let i = choose|i: int| 0 <= i < free.len() && free[i] == x;
            }
        }
        assert(free_set(f2) =~= free_set(free).insert(k));
    }
}

/// Minimal admissibility of a registry and its free-list for the
/// lifecycle laws: listed keys name free slots, and no key is listed
/// twice.
pub open spec fn reg_free_wf(reg: Seq<RegSlot>, free: Seq<i32>) -> bool {
    &&& forall|i: int|
        0 <= i < free.len() ==> 1 <= #[trigger] free[i] && free[i] <= reg.len() && reg[free[i]
            - 1] is Free
    &&& forall|i: int, j: int| 0 <= i < j < free.len() ==> free[i] != free[j]
}

/// The set of keys a key sequence holds.
pub open spec fn key_set(ks: Seq<int>) -> Set<int> {
    Set::new(|k: int| exists|i: int| 0 <= i < ks.len() && ks[i] == k)
}

/// Prepending one key to a sequence inserts it into the key set.
pub proof fn lemma_key_set_cons(k0: int, rest: Seq<int>)
    ensures
        key_set(seq![k0] + rest) == key_set(rest).insert(k0),
{
    let ks = seq![k0] + rest;
    assert forall|k: int| key_set(ks).contains(k) implies key_set(rest).insert(k0).contains(
        k,
    ) by {
        let i = choose|i: int| 0 <= i < ks.len() && ks[i] == k;
        if i > 0 {
            assert(rest[i - 1] == k);
        }
    }
    assert forall|k: int| key_set(rest).insert(k0).contains(k) implies key_set(ks).contains(
        k,
    ) by {
        if k == k0 {
            assert(ks[0] == k0);
        } else {
            let i = choose|i: int| 0 <= i < rest.len() && rest[i] == k;
            assert(ks[i + 1] == k);
        }
    }
    assert(key_set(ks) =~= key_set(rest).insert(k0));
}

/// Anchoring a sequence of values, one after another.
pub open spec fn anchor_seq(reg: Seq<RegSlot>, free: Seq<i32>, vs: Seq<LuaValue>) -> (
    Seq<RegSlot>,
    Seq<i32>,
    Seq<int>,
)
    decreases vs.len(),
{
    if vs.len() == 0 {
        (reg, free, Seq::<int>::empty())
    } else {
        let a = spec_anchor(reg, free, vs[0]);
        let rest = anchor_seq(a.0, a.1, vs.drop_first());
        (rest.0, rest.1, seq![a.2] + rest.2)
    }
}

/// Releasing a sequence of keys, one after another.
pub open spec fn release_seq(reg: Seq<RegSlot>, free: Seq<i32>, ks: Seq<int>) -> (
    Seq<RegSlot>,
    Seq<i32>,
)
    decreases ks.len(),
{
    if ks.len() == 0 {
        (reg, free)
    } else {
        let a = spec_release(reg, free, ks[0]);
        release_seq(a.0, a.1, ks.drop_first())
    }
}

/// One anchoring step: the claimed key is fresh, every live slot is
/// untouched, and admissibility survives.
proof fn lemma_anchor_step(reg: Seq<RegSlot>, free: Seq<i32>, v: LuaValue)
    requires
        reg_free_wf(reg, free),
        reg.len() < 0x40000000,
    ensures
        ({
            let a = spec_anchor(reg, free, v);
            &&& 1 <= a.2 <= a.0.len()
            &&& a.0[a.2 - 1] is Val
            &&& !live_of(reg).contains(a.2)
            &&& live_of(a.0) == live_of(reg).insert(a.2)
            &&& forall|j: int| 0 <= j < reg.len() && reg[j] is Val ==> a.0[j] == reg[j]
            &&& reg_free_wf(a.0, a.1)
            &&& reg.len() <= a.0.len() <= reg.len() + 1
        }),
{
    let a = spec_anchor(reg, free, v);
    assert(live_of(a.0) =~= live_of(reg).insert(a.2));
}

/// Anchoring `N` values claims `N` distinct fresh keys: the live-key
/// set grows by exactly those keys and every previously live slot is
/// untouched.
pub proof fn lemma_anchor_seq(reg: Seq<RegSlot>, free: Seq<i32>, vs: Seq<LuaValue>)
    requires
        reg_free_wf(reg, free),
        reg.len() + vs.len() < 0x40000000,
    ensures
        ({
            let a = anchor_seq(reg, free, vs);
            &&& a.2.len() == vs.len()
            &&& forall|i: int|
                0 <= i < a.2.len() ==> 1 <= #[trigger] a.2[i] && a.2[i] <= a.0.len() && a.0[a.2[i]
                    - 1] is Val
            &&& forall|i: int, j: int| 0 <= i < j < a.2.len() ==> a.2[i] != a.2[j]
            &&& forall|i: int| 0 <= i < a.2.len() ==> !live_of(reg).contains(#[trigger] a.2[i])
            &&& live_of(a.0) == live_of(reg) + key_set(a.2)
            &&& forall|j: int| 0 <= j < reg.len() && reg[j] is Val ==> a.0[j] == reg[j]
            &&& reg_free_wf(a.0, a.1)
            &&& reg.len() <= a.0.len() <= reg.len() + vs.len()
        }),
    decreases vs.len(),
{
    let a = anchor_seq(reg, free, vs);
    if vs.len() == 0 {
        assert(live_of(a.0) =~= live_of(reg) + key_set(a.2));
    } else {
        let s = spec_anchor(reg, free, vs[0]);
        lemma_anchor_step(reg, free, vs[0]);
        lemma_anchor_seq(s.0, s.1, vs.drop_first());
        let rest = anchor_seq(s.0, s.1, vs.drop_first());
        assert(a.2 == seq![s.2] + rest.2);
        assert(a.2[0] == s.2);
        assert forall|i: int| 1 <= i < a.2.len() implies a.2[i] == rest.2[i - 1] by {}
        // the first key is live after the first step and stays live
        assert(live_of(s.0).contains(s.2));
        assert(s.0[s.2 - 1] is Val);
        assert(a.0[s.2 - 1] == s.0[s.2 - 1]);
        // distinctness: the later keys are fresh for the first step's state
        assert forall|i: int, j: int| 0 <= i < j < a.2.len() implies a.2[i] != a.2[j] by {
            if i == 0 {
                assert(!live_of(s.0).contains(rest.2[j - 1]));
            }
        }
        assert forall|i: int| 0 <= i < a.2.len() implies !live_of(reg).contains(
            #[trigger] a.2[i],
        ) by {
            if i > 0 {
                assert(!live_of(s.0).contains(rest.2[i - 1]));
                if live_of(reg).contains(rest.2[i - 1]) {
                    assert(reg[rest.2[i - 1] - 1] is Val);
                    assert(s.0[rest.2[i - 1] - 1] == reg[rest.2[i - 1] - 1]);
                    assert(false);
                }
            }
        }
        lemma_key_set_cons(s.2, rest.2);
        assert(live_of(a.0) == live_of(s.0) + key_set(rest.2));
        assert(live_of(s.0) == live_of(reg).insert(s.2));
        assert(live_of(a.0) =~= live_of(reg) + key_set(a.2));
    }
}

/// Releasing a sequence of distinct live keys removes exactly those
/// keys from the live set and touches no other slot.
pub proof fn lemma_release_seq(reg: Seq<RegSlot>, free: Seq<i32>, ks: Seq<int>)
    requires
        forall|i: int|
            0 <= i < ks.len() ==> 1 <= #[trigger] ks[i] && ks[i] <= reg.len() && reg[ks[i]
                - 1] is Val,
        forall|i: int, j: int| 0 <= i < j < ks.len() ==> ks[i] != ks[j],
    ensures
        ({
            let a = release_seq(reg, free, ks);
            &&& live_of(a.0) == live_of(reg) - key_set(ks)
            &&& forall|j: int|
                0 <= j < reg.len() && !key_set(ks).contains(j + 1) ==> a.0[j] == reg[j]
        }),
    decreases ks.len(),
{
    let a = release_seq(reg, free, ks);
    if ks.len() == 0 {
        assert(live_of(a.0) =~= live_of(reg) - key_set(ks));
        assert forall|j: int|
            0 <= j < reg.len() && !key_set(ks).contains(j + 1) implies a.0[j] == reg[j] by {}
    } else {
        let s = spec_release(reg, free, ks[0]);
        assert forall|i: int| 0 <= i < ks.drop_first().len() implies 1 <= #[trigger] ks.drop_first()[i]
            && ks.drop_first()[i] <= s.0.len() && s.0[ks.drop_first()[i] - 1] is Val by {
            assert(ks.drop_first()[i] == ks[i + 1]);
        }
        lemma_release_seq(s.0, s.1, ks.drop_first());
        let rest = release_seq(s.0, s.1, ks.drop_first());
        assert(ks =~= seq![ks[0]] + ks.drop_first());
        lemma_key_set_cons(ks[0], ks.drop_first());
        assert(key_set(ks) == key_set(ks.drop_first()).insert(ks[0]));
        assert(live_of(s.0) =~= live_of(reg).remove(ks[0]));
        assert(live_of(a.0) =~= live_of(reg) - key_set(ks));
        assert forall|j: int|
            0 <= j < reg.len() && !key_set(ks).contains(j + 1) implies a.0[j] == reg[j] by {
            assert(!key_set(ks.drop_first()).contains(j + 1));
            assert(s.0[j] == reg[j]);
        }
    }
}

/// The reference lifecycle for any count and any drop order: anchor
/// `N` values, then release the `N` claimed keys in any order — the
/// registry's live-key set returns exactly to its pre-test state, and
/// every slot that was live before is untouched throughout.
pub proof fn lemma_lifecycle_n_any_order(
    reg: Seq<RegSlot>,
    free: Seq<i32>,
    vs: Seq<LuaValue>,
    order: Seq<int>,
)
    requires
        reg_free_wf(reg, free),
        reg.len() + vs.len() < 0x40000000,
        ({
            let a = anchor_seq(reg, free, vs);
            &&& order.len() == a.2.len()
            &&& key_set(order) == key_set(a.2)
            &&& forall|i: int, j: int| 0 <= i < j < order.len() ==> order[i] != order[j]
        }),
    ensures
        ({
            let a = anchor_seq(reg, free, vs);
            let b = release_seq(a.0, a.1, order);
            &&& live_of(b.0) == live_of(reg)
            &&& forall|j: int| 0 <= j < reg.len() && reg[j] is Val ==> b.0[j] == reg[j]
        }),
{
    let a = anchor_seq(reg, free, vs);
    let b = release_seq(a.0, a.1, order);
    lemma_anchor_seq(reg, free, vs);
    assert forall|i: int| 0 <= i < order.len() implies 1 <= #[trigger] order[i] && order[i]
        <= a.0.len() && a.0[order[i] - 1] is Val by {
        assert(order[i] == order[i]);
        assert(key_set(order).contains(order[i]));
        assert(key_set(a.2).contains(order[i]));
        let w = choose|w: int| 0 <= w < a.2.len() && a.2[w] == order[i];
        assert(a.2[w] == order[i]);
        assert(1 <= a.2[w] && a.2[w] <= a.0.len() && a.0[a.2[w] - 1] is Val);
    }
    lemma_release_seq(a.0, a.1, order);
    assert forall|k: int| live_of(b.0).contains(k) implies live_of(reg).contains(k) by {}
    assert forall|k: int| live_of(reg).contains(k) implies live_of(b.0).contains(k) by {
        assert(!key_set(a.2).contains(k));
        assert(live_of(a.0).contains(k));
    }
    assert(live_of(b.0) =~= live_of(reg));
    assert forall|j: int| 0 <= j < reg.len() && reg[j] is Val implies b.0[j] == reg[j] by {
        assert(a.0[j] == reg[j]);
        if key_set(order).contains(j + 1) {
            assert(!live_of(reg).contains(j + 1));
            assert(false);
        }
    }
}

/// The trampoline's frame accessors address exactly the caller's
/// arguments: position `i` of a frame whose stack is the argument
/// sequence is argument `i`, in order.
pub proof fn lemma_frame_args(args: Seq<LuaValue>, i: int)
    requires
        1 <= i <= args.len(),
    ensures
        slot(args, i) == args[i - 1],
{
}

/// A native error's display text crosses the boundary verbatim: the
/// message the trampoline raises is the display text, and the
/// protected-call classifier reads that very message back as the
/// runtime error's text.
pub proof fn lemma_error_text_verbatim(e: Error, m: String, stack: Seq<LuaValue>)
    requires
        m@ == display_str(e),
    ensures
        slot(stack.push(LuaValue::Str(m)), -1) is Str,
        slot(stack.push(LuaValue::Str(m)), -1)->Str_0@ == display_str(e),
{
    assert(slot(stack.push(LuaValue::Str(m)), -1) == LuaValue::Str(m));
}

} // verus!
