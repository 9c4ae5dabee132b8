//! Updating a map entry through a function, where an entry holding the
//! default value is the same as no entry.
use std::collections::HashMap;
use std::hash::Hash;
use vstd::prelude::*;
use vstd::std_specs::hash::{builds_valid_hashers, obeys_key_model};

verus! {

/// Values that can tell whether they are their type's default.
pub trait CheckDefault: Default {
    /// Whether the value is the default one.
    spec fn spec_is_default(&self) -> bool;

    /// Whether the value is the default one.
    fn is_default(&self) -> (r: bool)
        ensures
            r == self.spec_is_default(),
    ;
}

impl<V> CheckDefault for Option<V> {
    open spec fn spec_is_default(&self) -> bool {
        self is None
    }

    fn is_default(&self) -> (r: bool) {
        self.is_none()
    }
}

impl CheckDefault for u32 {
    open spec fn spec_is_default(&self) -> bool {
        *self == 0
    }

    fn is_default(&self) -> (r: bool) {
        *self == 0
    }
}

/// The map after its entry for `key` was given `new_value`: a default value
/// removes the entry.
pub open spec fn updated<K, V: CheckDefault>(m: Map<K, V>, key: K, new_value: V) -> Map<K, V> {
    if new_value.spec_is_default() {
        m.remove(key)
    } else {
        m.insert(key, new_value)
    }
}

/// Maps whose entries can be updated in place by a function.
pub trait MapUpdate<K, V>: Sized {
    /// Replaces the value of `key` (the default one when there is none) with
    /// what `update_func` makes of it.
    fn update<F>(&mut self, key: K, update_func: F)
        where
            F: Sized + FnOnce(V) -> V,
        requires
            forall|v: V| call_requires(update_func, (v,)),
    ;

    /// Like `update`, where `update_func` also returns a result, which is
    /// returned.
    fn update_return<F, R>(&mut self, key: K, update_func: F) -> R
        where
            F: Sized + FnOnce(V) -> (V, R),
        requires
            forall|v: V| call_requires(update_func, (v,)),
    ;
}

/// The value `update` hands to the function for `key`: the one held, or
/// what `V::default()` gives when none is held.
pub open spec fn held_or<K, V: Default>(m: Map<K, V>, key: K, v: V) -> bool {
    if m.contains_key(key) {
        v == m[key]
    } else {
        call_ensures(V::default, (), v)
    }
}

impl<K: Eq + Hash, V: CheckDefault> MapUpdate<K, V> for HashMap<K, V> {
    fn update<F>(&mut self, key: K, update_func: F)
        where
            F: Sized + FnOnce(V) -> V,
        ensures
            obeys_key_model::<K>() && builds_valid_hashers::<std::hash::RandomState>() ==> exists|
                v: V,
                new_value: V,
            |
                #![trigger call_ensures(update_func, (v,), new_value)]
                held_or(old(self)@, key, v) && call_ensures(update_func, (v,), new_value) && final(self)@
                    == updated(old(self)@, key, new_value),
    {
        let old_value = match self.remove(&key) {
            Some(v) => v,
            None => V::default(),
        };
        let new_value = update_func(old_value);
        if !new_value.is_default() {
            self.insert(key, new_value);
        }
    }

    fn update_return<F, R>(&mut self, key: K, update_func: F) -> (r: R)
        where
            F: Sized + FnOnce(V) -> (V, R),
        ensures
            obeys_key_model::<K>() && builds_valid_hashers::<std::hash::RandomState>() ==> exists|v: V, out: (V, R)|
                #![trigger call_ensures(update_func, (v,), out)]
                held_or(old(self)@, key, v) && call_ensures(update_func, (v,), out) && out.1 == r && final(self)@
                    == updated(old(self)@, key, out.0),
    {
        let old_value = match self.remove(&key) {
            Some(v) => v,
            None => V::default(),
        };
        let (new_value, retval) = update_func(old_value);
        if !new_value.is_default() {
            self.insert(key, new_value);
        }
        retval
    }
}

} // verus!
