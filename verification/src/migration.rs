//! The migration sequencer: which versioned upgrade steps still have to
//! run to bring a store at some schema version up to the latest one.
//!
//! The steps themselves (schema statements, data rewrites) live with the
//! persistence layer; this module decides, idempotently, which step
//! numbers to apply and in what order.

use vstd::prelude::*;

verus! {

/// The newest schema version this library knows.
pub const LATEST_SCHEMA_VERSION: i32 = 9;

/// The ascending list of schema versions that still have to be applied to
/// a store whose ledger stands at `current`.  A store already at (or past)
/// the latest version gets an empty plan, so running the sequencer again
/// after an upgrade is a no-op.
pub fn pending_migrations(current: i32) -> (r: Vec<i32>)
    requires
        current >= 0,
    ensures
        r@.len() == (if current >= LATEST_SCHEMA_VERSION {
            0int
        } else {
            (LATEST_SCHEMA_VERSION - current) as int
        }),
        forall|k: int| 0 <= k < r@.len() ==> r@[k] == current + 1 + k,
{
    let mut r: Vec<i32> = Vec::new();
    let mut v: i32 = current;
    while v < LATEST_SCHEMA_VERSION
        invariant
            current <= v,
            v <= LATEST_SCHEMA_VERSION || v == current,
            r@.len() == v - current,
            forall|k: int| 0 <= k < r@.len() ==> r@[k] == current + 1 + k,
        decreases LATEST_SCHEMA_VERSION - v,
    {
        r.push(v + 1);
        v = v + 1;
    }
    r
}

} // verus!
