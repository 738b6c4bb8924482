//! The server's shared state: the key-value store with per-entry expiry, the
//! node's replication role, and the registry of replica sinks. The store is
//! modelled as a map from key to entry; expiry is lazy, checked only when a
//! key is read.

use vstd::hash_map::StringHashMap;
use vstd::prelude::*;

verus! {

/// One stored entry: the value, when it was written, and its optional
/// time-to-live in milliseconds.
#[derive(Debug)]
pub struct Value {
    pub data: String,
    pub created_at: u128,
    pub expiry: Option<u64>,
}

/// The mathematical shadow of a stored entry.
pub struct EntryModel {
    pub data: Seq<char>,
    pub created_at: u128,
    pub expiry: Option<u64>,
}

impl View for Value {
    type V = EntryModel;

    open spec fn view(&self) -> EntryModel {
        EntryModel { data: self.data@, created_at: self.created_at, expiry: self.expiry }
    }
}

/// How this node stands in replication: its role, the address of its leader
/// if it is a replica, and the static replication id and offset it reports.
#[derive(Debug)]
pub struct ReplicationInfo {
    pub replica_info: String,
    pub role: String,
    pub master_replid: String,
    pub master_repl_offset: i32,
}

/// Everything one node shares between its connections: the store, the
/// replication configuration, and the handles of the replica sinks registered
/// so far, in registration order. The sink handles index whatever transport
/// the caller keeps beside them.
pub struct SharedData {
    pub replica_sinks: Vec<u64>,
    pub replication_info: ReplicationInfo,
    pub redis_cache: StringHashMap<Value>,
}

impl SharedData {
    /// A freshly started node: an empty store and no registered sinks.
    pub fn new(replication_info: ReplicationInfo) -> (sd: SharedData)
        ensures
            sd.replica_sinks@ == Seq::<u64>::empty(),
            sd.cache() == Map::<Seq<char>, EntryModel>::empty(),
            sd.replication_info == replication_info,
    {
        let sd = SharedData {
            replica_sinks: Vec::new(),
            replication_info,
            redis_cache: StringHashMap::new(),
        };
        proof {
            assert(sd.cache() =~= Map::<Seq<char>, EntryModel>::empty());
        }
        sd
    }

    /// A node is the leader exactly when it was configured with the master
    /// role at startup; the role never changes afterwards.
    pub open spec fn is_leader(&self) -> bool {
        self.replication_info.role@ == "master"@
    }

    /// The store as a map from key to entry model.
    pub open spec fn cache(&self) -> Map<Seq<char>, EntryModel> {
        self.redis_cache@.map_values(|v: Value| v@)
    }
}

/// Whether an entry has lapsed at time `now`: only an entry that carries a
/// time-to-live ever expires, strictly after `created_at + expiry`.
pub open spec fn entry_expired(e: EntryModel, now: u128) -> bool {
    match e.expiry {
        Some(ms) => now > e.created_at + ms,
        None => false,
    }
}

/// What a read of `k` at time `now` yields: the stored value, unless the key
/// is absent or its entry has expired.
pub open spec fn lookup(cache: Map<Seq<char>, EntryModel>, k: Seq<char>, now: u128) -> Option<
    Seq<char>,
> {
    if cache.contains_key(k) && !entry_expired(cache[k], now) {
        Some(cache[k].data)
    } else {
        None
    }
}

/// The store after a read of `k` at time `now`: an expired entry is removed
/// (lazy eviction); nothing else ever changes on a read.
pub open spec fn cache_after_get(
    cache: Map<Seq<char>, EntryModel>,
    k: Seq<char>,
    now: u128,
) -> Map<Seq<char>, EntryModel> {
    if cache.contains_key(k) && entry_expired(cache[k], now) {
        cache.remove(k)
    } else {
        cache
    }
}

/// Inserting into the store inserts its model into the model map.
pub proof fn lemma_cache_insert(m: Map<Seq<char>, Value>, k: Seq<char>, v: Value)
    ensures
        m.insert(k, v).map_values(|x: Value| x@) == m.map_values(|x: Value| x@).insert(k, v@),
{
    let lhs = m.insert(k, v).map_values(|x: Value| x@);
    let rhs = m.map_values(|x: Value| x@).insert(k, v@);
    assert(lhs =~= rhs);
}

/// Removing from the store removes the key from the model map.
pub proof fn lemma_cache_remove(m: Map<Seq<char>, Value>, k: Seq<char>)
    ensures
        m.remove(k).map_values(|x: Value| x@) == m.map_values(|x: Value| x@).remove(k),
{
    let lhs = m.remove(k).map_values(|x: Value| x@);
    let rhs = m.map_values(|x: Value| x@).remove(k);
    assert(lhs =~= rhs);
}

/// A write reads back as written: after an entry for `k` is stored, a read
/// of `k` yields its value — at any time at all when the entry carries no
/// TTL, and until the TTL has elapsed when it carries one.
pub proof fn lemma_set_then_get(
    cache: Map<Seq<char>, EntryModel>,
    k: Seq<char>,
    data: Seq<char>,
    now: u128,
    ttl: Option<u64>,
    later: u128,
)
    requires
        match ttl {
            Some(ms) => later <= now + ms,
            None => true,
        },
    ensures
        lookup(cache.insert(k, EntryModel { data, created_at: now, expiry: ttl }), k, later)
            == Some(data),
{
}

/// A key without a TTL is stable: reading it yields the same value at every
/// time, and a read never changes the store.
pub proof fn lemma_get_stable_without_ttl(
    cache: Map<Seq<char>, EntryModel>,
    k: Seq<char>,
    t1: u128,
    t2: u128,
)
    requires
        cache.contains_key(k),
        cache[k].expiry is None,
    ensures
        lookup(cache, k, t1) == Some(cache[k].data),
        lookup(cache, k, t2) == lookup(cache, k, t1),
        cache_after_get(cache, k, t1) == cache,
{
}

/// An entry read after its TTL has elapsed is gone for good: the read yields
/// nothing and removes the key, and a second read still yields nothing
/// rather than failing.
pub proof fn lemma_expired_get_removes(
    cache: Map<Seq<char>, EntryModel>,
    k: Seq<char>,
    data: Seq<char>,
    now: u128,
    ms: u64,
    later: u128,
    second: u128,
)
    requires
        later > now + ms,
    ensures
        ({
            let stored = cache.insert(
                k,
                EntryModel { data, created_at: now, expiry: Some(ms) },
            );
            let evicted = cache_after_get(stored, k, later);
            &&& lookup(stored, k, later) is None
            &&& evicted == stored.remove(k)
            &&& !evicted.contains_key(k)
            &&& lookup(evicted, k, second) is None
            &&& cache_after_get(evicted, k, second) == evicted
        }),
{
}

/// A key never written reads as absent, and the read leaves the store as it
/// was.
pub proof fn lemma_get_absent(cache: Map<Seq<char>, EntryModel>, k: Seq<char>, now: u128)
    requires
        !cache.contains_key(k),
    ensures
        lookup(cache, k, now) is None,
        cache_after_get(cache, k, now) == cache,
{
}

/// Registers the calling connection as one more replica sink and hands back
/// its handle; sinks are never removed, so the handle is the registration
/// index.
pub fn register_replica(shared_data: &mut SharedData) -> (h: u64)
    ensures
        h == old(shared_data).replica_sinks@.len(),
        final(shared_data).replica_sinks@ == old(shared_data).replica_sinks@.push(h),
        final(shared_data).replication_info == old(shared_data).replication_info,
        final(shared_data).redis_cache == old(shared_data).redis_cache,
{
    let h = shared_data.replica_sinks.len() as u64;
    shared_data.replica_sinks.push(h);
    h
}

} // verus!
