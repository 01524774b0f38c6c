//! The checkpoint coordinator: one row per logical consumer holding the last
//! stream version whose batch was fully persisted.
//!
//! Recording progress is an ordinary overwrite upsert in its own final step,
//! never inside a row transaction. A crash between the data commit and the
//! checkpoint commit only means the next run replays a batch the conflict
//! rules already absorb.

use vstd::prelude::*;
use crate::store::{find_key, lemma_find_key_props, lemma_find_key_at};

verus! {

/// One row of the checkpoint table.
#[derive(Clone, Debug, PartialEq)]
pub struct Checkpoint {
    pub processor: String,
    pub last_success_version: i64,
    pub last_updated: i64,
    pub last_transaction_timestamp: i64,
}

pub open spec fn checkpoint_keys(s: Seq<Checkpoint>) -> Seq<Seq<char>> {
    s.map_values(|c: Checkpoint| c.processor@)
}

/// Overwrite rule: the version and timestamps are replaced, the consumer name
/// stays.
pub open spec fn merge_checkpoint(orig: Checkpoint, row: Checkpoint) -> Checkpoint {
    Checkpoint {
        last_success_version: row.last_success_version,
        last_updated: row.last_updated,
        last_transaction_timestamp: row.last_transaction_timestamp,
        ..orig
    }
}

pub open spec fn upsert_checkpoint(s: Seq<Checkpoint>, row: Checkpoint) -> Seq<Checkpoint> {
    let f = find_key(checkpoint_keys(s), row.processor@);
    if f >= 0 {
        s.update(f, merge_checkpoint(s[f], row))
    } else {
        s.push(row)
    }
}

/// The recorded resume version for a consumer, if any.
pub open spec fn last_progress_spec(s: Seq<Checkpoint>, name: Seq<char>) -> Option<int> {
    let f = find_key(checkpoint_keys(s), name);
    if f >= 0 {
        Some(s[f].last_success_version as int)
    } else {
        None
    }
}

/// Looks up a checkpoint row by consumer name.
pub fn find_checkpoint_idx(table: &Vec<Checkpoint>, name: &String) -> (r: Option<usize>)
    ensures
        match r {
            Some(i) => i == find_key(checkpoint_keys(table@), name@),
            None => find_key(checkpoint_keys(table@), name@) == -1,
        },
{
    let mut i: usize = 0;
    while i < table.len()
        invariant
            i <= table@.len(),
            forall|j: int| 0 <= j < i ==> checkpoint_keys(table@)[j] != name@,
        decreases table@.len() - i,
    {
        if table[i].processor == *name {
            proof {
                lemma_find_key_at(checkpoint_keys(table@), name@, i as int);
            }
            return Some(i);
        }
        i = i + 1;
    }
    proof {
        crate::store::lemma_find_key_absent(checkpoint_keys(table@), name@);
    }
    None
}

/// Records that every batch up to `version` for `name` is durably persisted,
/// overwriting any earlier record for the same consumer.
pub fn record_progress(table: &mut Vec<Checkpoint>, name: &String, version: i64, updated_at: i64,
    tx_timestamp: i64)
    ensures
        final(table)@ == upsert_checkpoint(
            old(table)@,
            Checkpoint {
                processor: *name,
                last_success_version: version,
                last_updated: updated_at,
                last_transaction_timestamp: tx_timestamp,
            },
        ),
{
    let row = Checkpoint {
        processor: name.clone(),
        last_success_version: version,
        last_updated: updated_at,
        last_transaction_timestamp: tx_timestamp,
    };
    match find_checkpoint_idx(table, name) {
        Option::Some(i) => {
            proof {
                lemma_find_key_props(checkpoint_keys(table@), name@);
            }
            let merged = Checkpoint {
                processor: table[i].processor.clone(),
                last_success_version: version,
                last_updated: updated_at,
                last_transaction_timestamp: tx_timestamp,
            };
            table.set(i, merged);
        },
        Option::None => {
            table.push(row);
        },
    }
}

/// The version to resume after for `name`: the last recorded progress.
pub fn last_progress(table: &Vec<Checkpoint>, name: &String) -> (r: Option<i64>)
    ensures
        match r {
            Some(v) => last_progress_spec(table@, name@) == Some(v as int),
            None => last_progress_spec(table@, name@) is None,
        },
{
    match find_checkpoint_idx(table, name) {
        Option::Some(i) => {
            proof {
                lemma_find_key_props(checkpoint_keys(table@), name@);
            }
            Some(table[i].last_success_version)
        },
        Option::None => None,
    }
}

/// Progress recorded for a consumer is exactly what a later resume reads:
/// recording version `v` and asking for the resume point gives `v`, whatever
/// the table held before.
pub proof fn lemma_record_then_read(s: Seq<Checkpoint>, row: Checkpoint)
    ensures
        last_progress_spec(upsert_checkpoint(s, row), row.processor@) == Some(
            row.last_success_version as int,
        ),
{
    let keys = checkpoint_keys(s);
    lemma_find_key_props(keys, row.processor@);
    let f = find_key(keys, row.processor@);
    if f >= 0 {
        let s2 = s.update(f, merge_checkpoint(s[f], row));
        assert(checkpoint_keys(s2) =~= keys);
        assert(s2[f].last_success_version == row.last_success_version);
    } else {
        let s2 = s.push(row);
        assert(checkpoint_keys(s2)[s.len() as int] == row.processor@);
        assert forall|j: int| 0 <= j < s.len() implies checkpoint_keys(s2)[j] != row.processor@ by {
            assert(checkpoint_keys(s2)[j] == keys[j]);
        }
        lemma_find_key_at(checkpoint_keys(s2), row.processor@, s.len() as int);
    }
}

} // verus!
