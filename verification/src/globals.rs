use crate::value::Value;
use rustc_hash::FxHashMap;
use vstd::prelude::*;

verus! {

/// The globals of a machine, by the handle of their name.
pub type Globals = FxHashMap<u32, Value>;

/// `FxHashMap::default` makes a map without entries.
#[verifier::external_body]
pub(crate) fn globals_new() -> (m: Globals)
    ensures
        m@ == (Map::<u32, Value>::empty()),
{
    FxHashMap::default()
}

/// `HashMap::get` on an `FxHashMap`: the value stored under the key, if
/// there is one.
#[verifier::external_body]
pub(crate) fn globals_get(m: &Globals, key: u32) -> (r: Option<Value>)
    ensures
        r == (if m@.contains_key(key) {
            Some(m@[key])
        } else {
            None
        }),
{
    m.get(&key).copied()
}

/// `HashMap::insert` on an `FxHashMap`: afterwards the key maps to the new
/// value and every other key is as before.
#[verifier::external_body]
pub(crate) fn globals_insert(m: &mut Globals, key: u32, value: Value)
    ensures
        final(m)@ == old(m)@.insert(key, value),
{
    m.insert(key, value);
}

} // verus!
