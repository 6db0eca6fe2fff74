use vstd::prelude::*;

use crate::error::ConvertError;
use crate::tree::{config_to_generic, generic_to_config, is_finite_bits, view_result, Tree, Value};

verus! {

/// Whether a binary64 bit pattern is a finite number.
pub fn is_finite(bits: u64) -> (r: bool)
    ensures
        r == is_finite_bits(bits),
{
    (bits >> 52u64) & 0x7ffu64 != 0x7ffu64
}

/// Whether no float anywhere in the tree is an infinity or a NaN.
pub fn all_finite(v: &Value) -> (r: bool)
    ensures
        r == v@.all_finite(),
    decreases v,
{
    match v {
        Value::Float(b) => is_finite(*b),
        Value::Array(items) => {
            let mut i: usize = 0;
            while i < items.len()
                invariant
                    *v == Value::Array(*items),
                    i <= items.len(),
                    v@ is Array,
                    v@->Array_0.len() == items.len(),
                    forall|k: int| 0 <= k < items.len() ==> v@->Array_0[k] == (#[trigger] items[k])@,
                    forall|k: int| 0 <= k < i ==> (#[trigger] items[k]@).all_finite(),
                decreases items.len() - i,
            {
                proof {
                    assert(decreases_to!(*v => *items));
                    assert(decreases_to!(*items => items[i as int]));
                }
                if !all_finite(&items[i]) {
                    assert(!v@->Array_0[i as int].all_finite());
                    return false;
                }
                i = i + 1;
            }
            proof {
                let t = v@->Array_0;
                assert forall|k: int| 0 <= k < t.len() implies t[k].all_finite() by {
                    assert(t[k] == items[k]@);
                }
            }
            true
        },
        Value::Table(entries) => {
            let mut i: usize = 0;
            while i < entries.len()
                invariant
                    *v == Value::Table(*entries),
                    i <= entries.len(),
                    v@ is Table,
                    v@->Table_0.len() == entries.len(),
                    forall|k: int|
                        0 <= k < entries.len() ==> v@->Table_0[k] == ((#[trigger] entries[k]).0@,
                            entries[k].1@),
                    forall|k: int| 0 <= k < i ==> (#[trigger] entries[k]).1@.all_finite(),
                decreases entries.len() - i,
            {
                proof {
                    assert(decreases_to!(*v => *entries));
                    assert(decreases_to!(*entries => entries[i as int]));
                    assert(decreases_to!(entries[i as int] => entries[i as int].1));
                }
                if !all_finite(&entries[i].1) {
                    assert(!v@->Table_0[i as int].1.all_finite());
                    return false;
                }
                i = i + 1;
            }
            proof {
                let t = v@->Table_0;
                assert forall|k: int| 0 <= k < t.len() implies t[k].1.all_finite() by {
                    assert(t[k].1 == entries[k].1@);
                }
            }
            true
        },
        _ => true,
    }
}

/// Rewrites a config-style tree into the generic format's model: datetimes
/// become strings of their canonical text, all else keeps its shape and
/// order. Fails with `InvalidNumber` exactly when some float is not finite.
pub fn to_generic(v: &Value) -> (r: Result<Value, ConvertError>)
    ensures
        view_result(r) == config_to_generic(v@),
    decreases v,
{
    match v {
        Value::String(s) => Ok(Value::String(s.clone())),
        Value::Integer(i) => Ok(Value::Integer(*i)),
        Value::Float(b) => {
            if is_finite(*b) {
                Ok(Value::Float(*b))
            } else {
                Err(ConvertError::InvalidNumber)
            }
        },
        Value::Boolean(b) => Ok(Value::Boolean(*b)),
        Value::Datetime(s) => Ok(Value::String(s.clone())),
        Value::Array(items) => {
            let mut out: Vec<Value> = Vec::new();
            proof {
                assert(v@->Array_0.len() == items.len());
            }
            let mut i: usize = 0;
            while i < items.len()
                invariant
                    i <= items.len(),
                    out.len() == i,
                    *v == Value::Array(*items),
                    v@ is Array,
                    v@->Array_0.len() == items.len(),
                    forall|k: int| 0 <= k < items.len() ==> v@->Array_0[k] == (#[trigger] items[k])@,
                    forall|k: int| 0 <= k < i ==> (#[trigger] items[k]@).all_finite(),
                    forall|k: int| 0 <= k < i ==> (#[trigger] out[k]@) == items[k]@.generic(),
                decreases items.len() - i,
            {
                proof {
                    assert(decreases_to!(*v => *items));
                    assert(decreases_to!(*items => items[i as int]));
                }
                match to_generic(&items[i]) {
                    Ok(g) => out.push(g),
                    Err(e) => {
                        assert(!v@.all_finite()) by {
                            let t = v@->Array_0;
                            assert(!t[i as int].all_finite());
                        }
                        return Err(e);
                    },
                }
                i = i + 1;
            }
            let r = Value::Array(out);
            assert(r@ == v@.generic()) by {
                assert(out@.len() == items.len());
                assert forall|k: int| 0 <= k < items.len() implies r@->Array_0[k]
                    == v@.generic()->Array_0[k] by {
                    assert(r@->Array_0[k] == out[k]@);
                }
                assert(r@->Array_0 =~= v@.generic()->Array_0);
            }
            Ok(r)
        },
        Value::Table(entries) => {
            let mut out: Vec<(String, Value)> = Vec::new();
            proof {
                assert(v@->Table_0.len() == entries.len());
            }
            let mut i: usize = 0;
            while i < entries.len()
                invariant
                    i <= entries.len(),
                    out.len() == i,
                    *v == Value::Table(*entries),
                    v@ is Table,
                    v@->Table_0.len() == entries.len(),
                    forall|k: int|
                        0 <= k < entries.len() ==> v@->Table_0[k] == ((#[trigger] entries[k]).0@,
                            entries[k].1@),
                    forall|k: int| 0 <= k < i ==> (#[trigger] entries[k]).1@.all_finite(),
                    forall|k: int| 0 <= k < i ==> (#[trigger] out[k]).0@ == entries[k].0@,
                    forall|k: int| 0 <= k < i ==> (#[trigger] out[k]).1@ == entries[k].1@.generic(),
                decreases entries.len() - i,
            {
                let entry = &entries[i];
                proof {
                    assert(decreases_to!(*v => *entries));
                    assert(decreases_to!(*entries => entries[i as int]));
                    assert(decreases_to!(entries[i as int] => entries[i as int].1));
                }
                match to_generic(&entry.1) {
                    Ok(g) => out.push((entry.0.clone(), g)),
                    Err(e) => {
                        assert(!v@.all_finite()) by {
                            let t = v@->Table_0;
                            assert(!t[i as int].1.all_finite());
                        }
                        return Err(e);
                    },
                }
                i = i + 1;
            }
            let r = Value::Table(out);
            assert(r@ == v@.generic()) by {
                assert(r@->Table_0 =~= v@.generic()->Table_0);
            }
            Ok(r)
        },
    }
}

} // verus!

verus! {

/// Checks a generic-format tree for the config-style format and hands it
/// over: the root must be a table (else `UnsupportedRoot`), and no float may
/// be an infinity or a NaN (else `InvalidNumber`). Each value keeps its own
/// variant, so an integer stays an integer and a float a float.
pub fn to_config(v: Value) -> (r: Result<Value, ConvertError>)
    ensures
        view_result(r) == generic_to_config(v@),
{
    if !matches!(v, Value::Table(_)) {
        return Err(ConvertError::UnsupportedRoot);
    }
    if !all_finite(&v) {
        return Err(ConvertError::InvalidNumber);
    }
    Ok(v)
}

} // verus!
