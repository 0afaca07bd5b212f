//! The key protocol of composite views: integers address entries
//! through the raw path, strings through the generic field path.

use vstd::prelude::*;
use vstd::string::StringExecFns;
use crate::value::TKey;
use crate::value::KeyView;
use crate::value::key_view;
use crate::value::key_in_range;

verus! {

/// A value usable as a composite-view key.
pub trait LuaIndex {
    /// The entry identity the key addresses.
    spec fn kv(&self) -> KeyView;

    /// Whether the key is within the runtime's representable range.
    spec fn key_ok(&self) -> bool;

    /// Whether the key addresses entries through the raw path
    /// (integers) rather than the generic field path (strings).
    spec fn uses_raw(&self) -> bool;

    /// The key as the model's key type.
    fn key_of(&self) -> (k: TKey)
        requires
            self.key_ok(),
        ensures
            key_view(k) == self.kv(),
            key_in_range(k),
    ;

    /// Whether this key takes the raw path.
    fn raw(&self) -> (b: bool)
        ensures
            b == self.uses_raw(),
    ;
}

impl LuaIndex for i32 {
    open spec fn kv(&self) -> KeyView {
        KeyView::KInt(*self as int)
    }

    open spec fn key_ok(&self) -> bool {
        true
    }

    open spec fn uses_raw(&self) -> bool {
        true
    }

    fn key_of(&self) -> TKey {
        TKey::Int(*self as i64)
    }

    fn raw(&self) -> bool {
        true
    }
}

impl LuaIndex for usize {
    open spec fn kv(&self) -> KeyView {
        KeyView::KInt(*self as int)
    }

    open spec fn key_ok(&self) -> bool {
        (*self as int) < 0x20000000000000
    }

    open spec fn uses_raw(&self) -> bool {
        true
    }

    fn key_of(&self) -> TKey {
        TKey::Int(*self as i64)
    }

    fn raw(&self) -> bool {
        true
    }
}

impl<'a> LuaIndex for &'a str {
    open spec fn kv(&self) -> KeyView {
        KeyView::KStr(self@)
    }

    open spec fn key_ok(&self) -> bool {
        true
    }

    open spec fn uses_raw(&self) -> bool {
        false
    }

    fn key_of(&self) -> TKey {
        TKey::Str(String::from_str(self))
    }

    fn raw(&self) -> bool {
        false
    }
}

} // verus!
