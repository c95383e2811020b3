//! Stored configuration: the sACN network settings, and which records of an
//! imported configuration get written to the database.
use vstd::prelude::*;

verus! {

/// Where and how DMX frames are sent.
pub struct NetworkConfig {
    /// Send to the sACN multicast groups rather than one address.
    pub use_multicast: bool,
    /// Destination address for unicast.
    pub unicast_ip: String,
    /// Global universe; a strip's universe is shifted up by this minus one.
    pub universe: u16,
}

impl Default for NetworkConfig {
    /// Multicast on universe 1, with a placeholder unicast address.
    fn default() -> (config: NetworkConfig)
        ensures
            config.use_multicast,
            config.unicast_ip@ == "192.168.1.50"@,
            config.universe == 1,
    {
        NetworkConfig { use_multicast: true, unicast_ip: "192.168.1.50".to_owned(), universe: 1 }
    }
}

/// Whether the import writes record `i` of `incoming`. Replacing writes every
/// record; merging skips a record whose id is already stored or was written
/// earlier in the same import.
pub open spec fn import_writes(existing: Seq<u64>, incoming: Seq<u64>, merge: bool, i: int) -> bool {
    !merge || (!existing.contains(incoming[i]) && forall|j: int| 0 <= j < i ==> incoming[j] != incoming[i])
}

fn listed(ids: &Vec<u64>, id: u64, upto: usize) -> (found: bool)
    requires
        upto <= ids@.len(),
    ensures
        found == exists|j: int| 0 <= j < upto && ids@[j] == id,
{
    let mut k: usize = 0;
    while k < upto
        invariant
            upto <= ids@.len(),
            k <= upto,
            forall|m: int| 0 <= m < k ==> ids@[m] != id,
        decreases upto - k,
    {
        if ids[k] == id {
            return true;
        }
        k = k + 1;
    }
    false
}

/// For each incoming record id, whether importing writes that record (see
/// `import_writes`), given the ids already stored.
pub fn import_plan(existing: &Vec<u64>, incoming: &Vec<u64>, merge: bool) -> (writes: Vec<bool>)
    ensures
        writes@.len() == incoming@.len(),
        forall|i: int|
            0 <= i < incoming@.len() ==> #[trigger] writes@[i] == import_writes(
                existing@,
                incoming@,
                merge,
                i,
            ),
{
    let mut writes: Vec<bool> = Vec::new();
    let mut i: usize = 0;
    while i < incoming.len()
        invariant
            i <= incoming@.len(),
            writes@.len() == i,
            forall|k: int|
                0 <= k < i ==> #[trigger] writes@[k] == import_writes(existing@, incoming@, merge, k),
        decreases incoming@.len() - i,
    {
        let id = incoming[i];
        let write = if !merge {
            true
        } else {
            let stored = listed(existing, id, existing.len());
            let repeated = listed(incoming, id, i);
            proof {
                assert(stored == existing@.contains(id));
            }
            !stored && !repeated
        };
        writes.push(write);
        i = i + 1;
    }
    writes
}

/// After a merging import, every incoming id is stored exactly once: ids the
/// import writes are new and distinct, and every other incoming id was stored
/// already or written earlier by the same import.
pub proof fn lemma_merge_keeps_ids_unique(existing: Seq<u64>, incoming: Seq<u64>)
    ensures
        forall|i: int|
            0 <= i < incoming.len() && #[trigger] import_writes(existing, incoming, true, i)
                ==> !existing.contains(incoming[i]),
        forall|i: int, j: int|
            0 <= i < j < incoming.len() && import_writes(existing, incoming, true, i)
                && import_writes(existing, incoming, true, j) ==> incoming[i] != incoming[j],
        forall|i: int|
            0 <= i < incoming.len() && !#[trigger] import_writes(existing, incoming, true, i)
                ==> existing.contains(incoming[i]) || exists|j: int|
                0 <= j < i && import_writes(existing, incoming, true, j) && incoming[j]
                    == incoming[i],
{
    assert forall|i: int|
        0 <= i < incoming.len() && !#[trigger] import_writes(existing, incoming, true, i) implies existing.contains(
        incoming[i],
    ) || exists|j: int|
        0 <= j < i && import_writes(existing, incoming, true, j) && incoming[j] == incoming[i] by {
        if !existing.contains(incoming[i]) {
            // the first earlier occurrence of the same id was written
            let earlier = choose|j: int| 0 <= j < i && incoming[j] == incoming[i];
            lemma_first_occurrence_written(existing, incoming, i, earlier);
        }
    }
}

proof fn lemma_first_occurrence_written(existing: Seq<u64>, incoming: Seq<u64>, i: int, j: int)
    requires
        0 <= j < i < incoming.len(),
        incoming[j] == incoming[i],
        !existing.contains(incoming[i]),
    ensures
        exists|k: int|
            0 <= k < i && import_writes(existing, incoming, true, k) && incoming[k] == incoming[i],
    decreases j,
{
    if import_writes(existing, incoming, true, j) {
    } else {
        let k = choose|k: int| 0 <= k < j && incoming[k] == incoming[j];
        lemma_first_occurrence_written(existing, incoming, i, k);
    }
}

/// A flag as the database stores it: 1 or 0.
pub fn flag_to_sql(flag: bool) -> (value: i64)
    ensures
        value == if flag {
            1i64
        } else {
            0i64
        },
{
    if flag {
        1
    } else {
        0
    }
}

/// A stored flag read back: any non-zero value is set.
pub fn flag_from_sql(value: i64) -> (flag: bool)
    ensures
        flag == (value != 0),
{
    value != 0
}

/// A record id as the database stores it: the same 64 bits as a signed
/// integer.
pub fn id_to_sql(id: u64) -> (value: i64)
    ensures
        value == id as i64,
{
    id as i64
}

/// A stored record id read back.
pub fn id_from_sql(value: i64) -> (id: u64)
    ensures
        id == value as u64,
{
    value as u64
}

/// A stored Launchpad button or colour code read back: its low byte.
pub fn code_from_sql(value: i64) -> (code: u8)
    ensures
        code == value as u8,
{
    value as u8
}

/// Storing and reading back gives the same flag, record id and Launchpad code.
pub proof fn lemma_sql_round_trips(flag: bool, id: u64, code: u8)
    ensures
        (if flag {
            1i64
        } else {
            0i64
        } != 0) == flag,
        (id as i64) as u64 == id,
        (code as i64) as u8 == code,
{
    assert((id as i64) as u64 == id) by (bit_vector);
    assert((code as i64) as u8 == code) by (bit_vector);
}

} // verus!
