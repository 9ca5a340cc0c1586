//! Deciding which chunk work to do: demands for chunks are recorded, turned
//! into tasks once their conditions hold, handed out nearest first, and
//! settled when their results come back.

use std::collections::HashMap;
use vstd::multiset::Multiset;
use vstd::prelude::*;

use crate::chunk::Chunk;
use crate::chunk_pos::ChunkPos;
use crate::manager::{chunk_key, key_of, lemma_key_injective, ChunkManager};
use crate::tick::{ticks_between, Tick};
use crate::version::Version;

verus! {

broadcast use {
    vstd::std_specs::hash::group_hash_axioms,
    ChunkPos::lemma_view_eq,
    Version::lemma_view_eq,
    vstd::seq_lib::lemma_seq_contains_after_push,
};

/// Settings of a scheduler.
pub struct ChunkSchedulerConfig {
    unload_delay: Tick,
}

impl ChunkSchedulerConfig {
    /// How long a chunk must stay unwanted before it is unloaded.
    pub closed spec fn spec_unload_delay(&self) -> Tick {
        self.unload_delay
    }

    /// A configuration that unloads a chunk `unload_delay` ticks after it stopped being wanted.
    pub fn new(unload_delay: Tick) -> (r: Self)
        ensures
            r.spec_unload_delay() == unload_delay,
    {
        Self { unload_delay }
    }
}

/// What is wanted of one chunk.
#[derive(Debug, Clone, Copy)]
pub struct ChunkDemand {
    /// The chunk should be resident.
    pub needs_residency: bool,
    /// The chunk should be meshed.
    pub needs_meshing: bool,
    /// The chunk should be saved.
    pub needs_saving: bool,
    /// The tick since which the chunk has not been wanted resident, if it is not.
    pub unload_since: Option<Tick>,
    /// The version of the chunk that the demand is about.
    pub version: Version,
}

/// The demand that wants nothing yet, about `version`.
pub open spec fn fresh_demand(version: Version) -> ChunkDemand {
    ChunkDemand {
        needs_residency: false,
        needs_meshing: false,
        needs_saving: false,
        unload_since: None,
        version,
    }
}

/// Whether a demand wants nothing.
pub open spec fn demand_idle(d: ChunkDemand) -> bool {
    !d.needs_residency && !d.needs_meshing && !d.needs_saving && d.unload_since is None
}

impl ChunkDemand {
    /// The demand that wants nothing yet, about `version`.
    pub fn new(version: Version) -> (r: Self)
        ensures
            r == fresh_demand(version),
    {
        Self {
            needs_residency: false,
            needs_meshing: false,
            needs_saving: false,
            unload_since: None,
            version,
        }
    }

    /// Whether the demand wants nothing.
    pub fn is_idle(&self) -> (r: bool)
        ensures
            r == demand_idle(*self),
    {
        !self.needs_residency && !self.needs_meshing && !self.needs_saving && self.unload_since.is_none()
    }
}

/// The kinds of demand that can be made of a chunk.
#[derive(Debug, Clone, Copy, PartialEq, Eq, Structural)]
pub enum ChunkDemandKind {
    Load,
    Mesh,
    Unload,
    Save,
}

/// The kinds of work that can be done on a chunk.
#[derive(Debug, Clone, Copy, PartialEq, Eq, Structural, Hash)]
pub enum ChunkTaskKind {
    Load,
    Mesh,
    Unload,
    Save,
}

/// What identifies a task: the chunk, the version it was scheduled for, and the kind of work.
#[derive(Debug, Clone, Copy, PartialEq, Eq, Structural, Hash)]
pub struct ChunkTaskKey {
    pub chunk_pos: ChunkPos,
    pub version: Version,
    pub kind: ChunkTaskKind,
}

impl ChunkTaskKey {
    /// The chunk the task is about.
    pub fn chunk_pos(&self) -> (r: ChunkPos)
        ensures
            r == self.chunk_pos,
    {
        self.chunk_pos
    }

    /// The version of the chunk the task was scheduled for.
    pub fn version(&self) -> (r: Version)
        ensures
            r == self.version,
    {
        self.version
    }

    /// The kind of work.
    pub fn kind(&self) -> (r: ChunkTaskKind)
        ensures
            r == self.kind,
    {
        self.kind
    }
}

/// A unit of chunk work with its priority: lower priorities are handed out first.
#[derive(Debug, Clone, Copy, PartialEq, Eq, Structural)]
pub struct ChunkTask {
    pub priority: u64,
    pub key: ChunkTaskKey,
}

impl ChunkTask {
    /// What identifies the task.
    pub fn key(&self) -> (r: ChunkTaskKey)
        ensures
            r == self.key,
    {
        self.key
    }
}

/// The result of a task, as handed back by a worker.
#[derive(Debug)]
pub enum ChunkTaskResult {
    Loaded { key: ChunkTaskKey, chunk: Chunk },
    Meshed { key: ChunkTaskKey, mesh: bool },
    Saved { key: ChunkTaskKey },
    Unloaded { key: ChunkTaskKey },
}

/// Whether chunk position `a` comes after `b` in the order of x, then y, then z.
pub open spec fn pos_after(a: ChunkPos, b: ChunkPos) -> bool {
    a@.0 > b@.0 || (a@.0 == b@.0 && (a@.1 > b@.1 || (a@.1 == b@.1 && a@.2 > b@.2)))
}

/// Whether task `a` is handed out before task `b`: a lower priority first,
/// then, at equal priority, a later chunk position.
pub open spec fn pops_before(a: ChunkTask, b: ChunkTask) -> bool {
    a.priority < b.priority || (a.priority == b.priority && pos_after(a.key.chunk_pos, b.key.chunk_pos))
}

/// The task made for key `k` when the player is at `player`: the squared
/// distance to the player as priority, reversed for unloading so that the
/// farthest chunks go first.
pub open spec fn task_for(k: ChunkTaskKey, player: ChunkPos) -> ChunkTask {
    let dist = k.chunk_pos.spec_dist_euclid_2(player);
    ChunkTask {
        priority: if k.kind == ChunkTaskKind::Unload {
            (u64::MAX - dist) as u64
        } else {
            dist as u64
        },
        key: k,
    }
}

/// Whether demand `d` for the chunk in key `k` calls for the work in `k`,
/// given whether the chunk is resident, the current tick and the unload delay.
pub open spec fn key_called_for(
    d: ChunkDemand,
    k: ChunkTaskKey,
    resident: bool,
    now: Tick,
    delay: Tick,
) -> bool {
    &&& k.version == d.version
    &&& match k.kind {
        ChunkTaskKind::Load => !resident && d.needs_residency,
        ChunkTaskKind::Mesh => resident && d.needs_meshing,
        ChunkTaskKind::Save => resident && d.needs_saving,
        ChunkTaskKind::Unload => resident && !d.needs_residency && d.unload_since is Some
            && ticks_between(d.unload_since->0, now) >= delay.0,
    }
}

/// The demand after a demand of `kind` about version `ver`, made at `now`,
/// was added to the demands `dm` for chunk `p`.
pub open spec fn added_demand(
    dm: Map<ChunkPos, ChunkDemand>,
    p: ChunkPos,
    kind: ChunkDemandKind,
    ver: Version,
    now: Tick,
) -> ChunkDemand {
    let b = if dm.contains_key(p) {
        ChunkDemand {
            needs_residency: dm[p].needs_residency,
            needs_meshing: dm[p].needs_meshing,
            needs_saving: dm[p].needs_saving,
            unload_since: dm[p].unload_since,
            version: ver,
        }
    } else {
        fresh_demand(ver)
    };
    match kind {
        ChunkDemandKind::Load => ChunkDemand {
            needs_residency: true,
            needs_meshing: b.needs_meshing,
            needs_saving: b.needs_saving,
            unload_since: None,
            version: b.version,
        },
        ChunkDemandKind::Mesh => ChunkDemand {
            needs_residency: b.needs_residency,
            needs_meshing: true,
            needs_saving: b.needs_saving,
            unload_since: b.unload_since,
            version: b.version,
        },
        ChunkDemandKind::Unload => ChunkDemand {
            needs_residency: false,
            needs_meshing: b.needs_meshing,
            needs_saving: b.needs_saving,
            unload_since: if b.unload_since is Some {
                b.unload_since
            } else {
                Some(now)
            },
            version: b.version,
        },
        ChunkDemandKind::Save => ChunkDemand {
            needs_residency: b.needs_residency,
            needs_meshing: b.needs_meshing,
            needs_saving: true,
            unload_since: b.unload_since,
            version: b.version,
        },
    }
}

/// Whether the result of task `k` settles demand `d`: a load always does; a
/// mesh only for the same version, an unload for the same lifecycle version,
/// a save for the same data version.
pub open spec fn merge_succeeds(d: ChunkDemand, k: ChunkTaskKey) -> bool {
    match k.kind {
        ChunkTaskKind::Load => true,
        ChunkTaskKind::Mesh => k.version.spec_eq_patch(d.version),
        ChunkTaskKind::Unload => k.version.spec_eq_major(d.version),
        ChunkTaskKind::Save => k.version.spec_eq_minor(d.version),
    }
}

/// Demand `d` once settled by the result of task `k`.
pub open spec fn merged_demand(d: ChunkDemand, k: ChunkTaskKey) -> ChunkDemand {
    if !merge_succeeds(d, k) {
        d
    } else {
        match k.kind {
            ChunkTaskKind::Load => d,
            ChunkTaskKind::Mesh => ChunkDemand {
                needs_residency: d.needs_residency,
                needs_meshing: false,
                needs_saving: d.needs_saving,
                unload_since: d.unload_since,
                version: d.version,
            },
            ChunkTaskKind::Unload => ChunkDemand {
                needs_residency: d.needs_residency,
                needs_meshing: d.needs_meshing,
                needs_saving: d.needs_saving,
                unload_since: None,
                version: d.version,
            },
            ChunkTaskKind::Save => ChunkDemand {
                needs_residency: d.needs_residency,
                needs_meshing: d.needs_meshing,
                needs_saving: false,
                unload_since: d.unload_since,
                version: d.version,
            },
        }
    }
}

/// Whether `k` is one of `keys`.
fn contains_task_key(keys: &Vec<ChunkTaskKey>, k: &ChunkTaskKey) -> (r: bool)
    ensures
        r == keys@.contains(*k),
{
    let mut i: usize = 0;
    while i < keys.len()
        invariant
            i <= keys@.len(),
            forall|j: int| 0 <= j < i ==> keys@[j] != *k,
        decreases keys@.len() - i,
    {
        if keys[i] == *k {
            return true;
        }
        i += 1;
    }
    false
}

/// Queues `task` and marks its key active, unless its key is active already.
fn push_task(active: &mut Vec<ChunkTaskKey>, pending: &mut Vec<ChunkTask>, task: ChunkTask)
    requires
        old(active)@.no_duplicates(),
    ensures
        final(active)@.no_duplicates(),
        forall|k: ChunkTaskKey|
            #![trigger final(active)@.contains(k)]
            final(active)@.contains(k) <==> old(active)@.contains(k) || k == task.key,
        forall|t: ChunkTask|
            #![trigger final(pending)@.to_multiset().count(t)]
            final(pending)@.to_multiset().count(t) == old(pending)@.to_multiset().count(t) + if t
                == task && !old(active)@.contains(task.key) {
                1int
            } else {
                0int
            },
{
    broadcast use vstd::seq_lib::to_multiset_build;

    if !contains_task_key(active, &task.key) {
        active.push(task.key);
        pending.push(task);
        proof {
            assert forall|i: int, j: int|
                0 <= i < active@.len() && 0 <= j < active@.len() && i != j implies active@[i]
                != active@[j] by {
                if i == active@.len() - 1 {
                    assert(old(active)@.contains(active@[j]));
                } else if j == active@.len() - 1 {
                    assert(old(active)@.contains(active@[i]));
                }
            }
        }
    }
}

/// Queues the work that demand `demand` for the chunk at `chunk_pos` calls for.
fn commit_chunk(
    active: &mut Vec<ChunkTaskKey>,
    pending: &mut Vec<ChunkTask>,
    chunk_pos: ChunkPos,
    demand: ChunkDemand,
    resident: bool,
    player_pos: &ChunkPos,
    curr_tick: Tick,
    delay: Tick,
)
    requires
        old(active)@.no_duplicates(),
    ensures
        final(active)@.no_duplicates(),
        forall|k: ChunkTaskKey|
            #![trigger final(active)@.contains(k)]
            final(active)@.contains(k) <==> old(active)@.contains(k) || (k.chunk_pos == chunk_pos
                && key_called_for(demand, k, resident, curr_tick, delay)),
        forall|t: ChunkTask|
            #![trigger final(pending)@.to_multiset().count(t)]
            final(pending)@.to_multiset().count(t) == old(pending)@.to_multiset().count(t) + if t
                == task_for(t.key, *player_pos) && t.key.chunk_pos == chunk_pos && key_called_for(
                demand,
                t.key,
                resident,
                curr_tick,
                delay,
            ) && !old(active)@.contains(t.key) {
                1int
            } else {
                0int
            },
{
    let distance = chunk_pos.dist_euclid_2(player_pos);
    let ghost a0 = active@;
    let ghost p0 = pending@;
    let k_load = ChunkTaskKey { chunk_pos, version: demand.version, kind: ChunkTaskKind::Load };
    let k_mesh = ChunkTaskKey { chunk_pos, version: demand.version, kind: ChunkTaskKind::Mesh };
    let k_save = ChunkTaskKey { chunk_pos, version: demand.version, kind: ChunkTaskKind::Save };
    let k_unload = ChunkTaskKey { chunk_pos, version: demand.version, kind: ChunkTaskKind::Unload };
    let c_load = !resident && demand.needs_residency;
    let c_mesh = resident && demand.needs_meshing;
    let c_save = resident && demand.needs_saving;
    let c_unload = resident && !demand.needs_residency && match demand.unload_since {
        Some(start) => curr_tick.ticks_since(&start).as_u64() >= delay.as_u64(),
        None => false,
    };
    assert(c_load == key_called_for(demand, k_load, resident, curr_tick, delay));
    assert(c_mesh == key_called_for(demand, k_mesh, resident, curr_tick, delay));
    assert(c_save == key_called_for(demand, k_save, resident, curr_tick, delay));
    assert(c_unload == key_called_for(demand, k_unload, resident, curr_tick, delay));
    let t_load = ChunkTask { priority: distance, key: k_load };
    let t_mesh = ChunkTask { priority: distance, key: k_mesh };
    let t_save = ChunkTask { priority: distance, key: k_save };
    let t_unload = ChunkTask { priority: u64::MAX - distance, key: k_unload };
    assert(t_load == task_for(k_load, *player_pos));
    assert(t_mesh == task_for(k_mesh, *player_pos));
    assert(t_save == task_for(k_save, *player_pos));
    assert(t_unload == task_for(k_unload, *player_pos));
    if c_load {
        push_task(active, pending, t_load);
    }
    if c_mesh {
        push_task(active, pending, t_mesh);
    }
    if c_save {
        push_task(active, pending, t_save);
    }
    if c_unload {
        push_task(active, pending, t_unload);
    }
    proof {
        assert forall|k: ChunkTaskKey| k.chunk_pos == chunk_pos && k.version == demand.version implies k
            == k_load || k == k_mesh || k == k_save || k == k_unload by {
            match k.kind {
                ChunkTaskKind::Load => assert(k == k_load),
                ChunkTaskKind::Mesh => assert(k == k_mesh),
                ChunkTaskKind::Save => assert(k == k_save),
                ChunkTaskKind::Unload => assert(k == k_unload),
            }
        }
    }
}

/// Whether task `a` is handed out before task `b`.
fn task_pops_before(a: &ChunkTask, b: &ChunkTask) -> (r: bool)
    ensures
        r == pops_before(*a, *b),
{
    if a.priority != b.priority {
        return a.priority < b.priority;
    }
    let (ax, ay, az) = a.key.chunk_pos.pos();
    let (bx, by, bz) = b.key.chunk_pos.pos();
    ax > bx || (ax == bx && (ay > by || (ay == by && az > bz)))
}

/// Removes `k` from `keys`, where it occurs at most once.
fn remove_task_key(keys: &mut Vec<ChunkTaskKey>, k: &ChunkTaskKey)
    requires
        old(keys)@.no_duplicates(),
    ensures
        final(keys)@.no_duplicates(),
        final(keys)@.to_set() == old(keys)@.to_set().remove(*k),
{
    let mut i: usize = 0;
    while i < keys.len()
        invariant
            i <= keys@.len(),
            keys@ == old(keys)@,
            old(keys)@.no_duplicates(),
            forall|j: int| 0 <= j < i ==> keys@[j] != *k,
        decreases keys@.len() - i,
    {
        if keys[i] == *k {
            let ghost before = keys@;
            keys.remove(i);
            proof {
                assert forall|a: int, b: int|
                    0 <= a < keys@.len() && 0 <= b < keys@.len() && a != b implies keys@[a]
                    != keys@[b] by {
                    let a1 = if a < i { a } else { a + 1 };
                    let b1 = if b < i { b } else { b + 1 };
                    assert(keys@[a] == before[a1]);
                    assert(keys@[b] == before[b1]);
                }
                assert forall|x: ChunkTaskKey| keys@.to_set().contains(x) == before.to_set().remove(
                    *k,
                ).contains(x) by {
                    if keys@.contains(x) {
                        let a = choose|a: int| 0 <= a < keys@.len() && keys@[a] == x;
                        let a1 = if a < i { a } else { a + 1 };
                        assert(before[a1] == x);
                        assert(a1 != i);
                    }
                    if before.contains(x) && x != *k {
                        let a1 = choose|a1: int| 0 <= a1 < before.len() && before[a1] == x;
                        assert(a1 != i);
                        let a = if a1 < i { a1 } else { a1 - 1 };
                        assert(keys@[a] == x);
                    }
                }
                assert(keys@.to_set() =~= before.to_set().remove(*k));
            }
            return;
        }
        i += 1;
    }
    assert(old(keys)@.to_set() =~= old(keys)@.to_set().remove(*k));
}

/// `new` is scheduler `old` after a demand of `kind` about version `ver`,
/// made at `now`, was recorded for the chunk at `p`.
pub open spec fn added(
    old: ChunkScheduler,
    new: ChunkScheduler,
    kind: ChunkDemandKind,
    p: ChunkPos,
    ver: Version,
    now: Tick,
) -> bool {
    &&& new.demands() == old.demands().insert(p, added_demand(old.demands(), p, kind, ver, now))
    &&& new.active() == old.active()
    &&& new.pending() == old.pending()
    &&& new.config() == old.config()
}

/// `new` is scheduler `old` after the result of the task with key `k` was
/// settled, and `r` is what settling it returned.
pub open spec fn merged(old: ChunkScheduler, new: ChunkScheduler, k: ChunkTaskKey, r: bool) -> bool {
    &&& new.pending() == old.pending()
    &&& new.config() == old.config()
    &&& new.active() == old.active().remove(k)
    &&& if old.demands().contains_key(k.chunk_pos) {
        let d = old.demands()[k.chunk_pos];
        let nd = merged_demand(d, k);
        &&& r == merge_succeeds(d, k)
        &&& new.demands() == if demand_idle(nd) {
            old.demands().remove(k.chunk_pos)
        } else {
            old.demands().insert(k.chunk_pos, nd)
        }
    } else {
        &&& !r
        &&& new.demands() == old.demands()
    }
}

/// `new` is scheduler `old` after it handed out `r`: the next waiting task,
/// or `None` when none was waiting.
pub open spec fn handed_out(old: ChunkScheduler, new: ChunkScheduler, r: Option<ChunkTask>) -> bool {
    &&& new.demands() == old.demands()
    &&& new.active() == old.active()
    &&& new.config() == old.config()
    &&& match r {
        None => old.pending() == Multiset::<ChunkTask>::empty() && new.pending() == old.pending(),
        Some(t) => {
            &&& old.pending().count(t) > 0
            &&& new.pending() == old.pending().remove(t)
            &&& forall|u: ChunkTask| #[trigger] old.pending().count(u) > 0 ==> !pops_before(u, t)
        },
    }
}

/// `new` is scheduler `old` after a commit at tick `now`, with the resident
/// chunks `chunks` and the player at `player`: the demands stay, every key that
/// the demands call for becomes active, and a task is queued for each such key
/// that was not active yet.
pub open spec fn committed(
    old: ChunkScheduler,
    new: ChunkScheduler,
    chunks: Map<ChunkPos, Chunk>,
    player: ChunkPos,
    now: Tick,
) -> bool {
    &&& new.demands() == old.demands()
    &&& new.config() == old.config()
    &&& forall|k: ChunkTaskKey|
        #![trigger new.active().contains(k)]
        new.active().contains(k) <==> old.active().contains(k) || old.called_for(chunks, now, k)
    &&& forall|t: ChunkTask|
        #![trigger new.pending().count(t)]
        new.pending().count(t) == old.pending().count(t) + if t == task_for(t.key, player)
            && old.called_for(chunks, now, t.key) && !old.active().contains(t.key) {
            1int
        } else {
            0int
        }
}

/// Decides which chunk work to do and in which order.
pub struct ChunkScheduler {
    config: ChunkSchedulerConfig,
    demanded: HashMap<u64, (ChunkPos, ChunkDemand)>,
    pending: Vec<ChunkTask>,
    active: Vec<ChunkTaskKey>,
}

impl ChunkScheduler {
    /// The demands, by chunk.
    pub closed spec fn demands(&self) -> Map<ChunkPos, ChunkDemand> {
        Map::new(
            |p: ChunkPos| self.demanded@.contains_key(chunk_key(p@)),
            |p: ChunkPos| self.demanded@[chunk_key(p@)].1,
        )
    }

    /// The keys of the tasks handed out or waiting, whose results have not been settled.
    pub closed spec fn active(&self) -> Set<ChunkTaskKey> {
        self.active@.to_set()
    }

    /// The tasks waiting to be handed out.
    pub closed spec fn pending(&self) -> Multiset<ChunkTask> {
        self.pending@.to_multiset()
    }

    /// The settings.
    pub closed spec fn config(&self) -> Tick {
        self.config.unload_delay
    }

    /// The internal tables agree with each other.
    pub closed spec fn wf(&self) -> bool {
        &&& forall|k: u64| #[trigger]
            self.demanded@.contains_key(k) ==> chunk_key(self.demanded@[k].0@) == k
        &&& self.active@.no_duplicates()
        &&& forall|p: ChunkPos| #[trigger]
            self.demands().contains_key(p) ==> !demand_idle(self.demands()[p])
    }

    /// Whether task key `k` is called for by the demands, given the resident chunks.
    pub open spec fn called_for(
        &self,
        chunks: Map<ChunkPos, Chunk>,
        now: Tick,
        k: ChunkTaskKey,
    ) -> bool {
        &&& self.demands().contains_key(k.chunk_pos)
        &&& key_called_for(
            self.demands()[k.chunk_pos],
            k,
            chunks.contains_key(k.chunk_pos),
            now,
            self.config(),
        )
    }

    /// A scheduler with no demand and no task.
    pub fn new(config: ChunkSchedulerConfig) -> (r: Self)
        ensures
            r.wf(),
            r.demands() == Map::<ChunkPos, ChunkDemand>::empty(),
            r.active() == Set::<ChunkTaskKey>::empty(),
            r.pending() == Multiset::<ChunkTask>::empty(),
            r.config() == config.spec_unload_delay(),
    {
        let r = Self { config, demanded: HashMap::new(), pending: Vec::new(), active: Vec::new() };
        assert(r.demands() =~= Map::<ChunkPos, ChunkDemand>::empty());
        assert(r.active@.to_set() =~= Set::<ChunkTaskKey>::empty());
        proof {
            vstd::seq_lib::to_multiset_len(r.pending@);
            vstd::multiset::lemma_multiset_empty_len(r.pending@.to_multiset());
        }
        r
    }

    /// Records a demand of `demand_kind` for the chunk at `chunk_pos`, about
    /// version `chunk_ver`, made at `curr_tick`.
    pub fn add(
        &mut self,
        demand_kind: ChunkDemandKind,
        chunk_pos: ChunkPos,
        chunk_ver: Version,
        curr_tick: Tick,
    )
        requires
            old(self).wf(),
        ensures
            final(self).wf(),
            final(self).demands() == old(self).demands().insert(
                chunk_pos,
                added_demand(old(self).demands(), chunk_pos, demand_kind, chunk_ver, curr_tick),
            ),
            final(self).active() == old(self).active(),
            final(self).pending() == old(self).pending(),
            final(self).config() == old(self).config(),
            added(*old(self), *final(self), demand_kind, chunk_pos, chunk_ver, curr_tick),
    {
        let k = key_of(&chunk_pos);
        let ghost dm = self.demands();
        let mut demand = match self.demanded.remove(&k) {
            Some(entry) => {
                assert(chunk_key(entry.0@) == k);
                proof {
                    lemma_key_injective(entry.0, chunk_pos);
                }
                let mut d = entry.1;
                d.version = chunk_ver;
                d
            },
            None => ChunkDemand::new(chunk_ver),
        };
        match demand_kind {
            ChunkDemandKind::Load => {
                demand.needs_residency = true;
                demand.unload_since = None;
            },
            ChunkDemandKind::Mesh => demand.needs_meshing = true,
            ChunkDemandKind::Unload => {
                demand.needs_residency = false;
                if demand.unload_since.is_none() {
                    demand.unload_since = Some(curr_tick);
                }
            },
            ChunkDemandKind::Save => demand.needs_saving = true,
        }
        self.demanded.insert(k, (chunk_pos, demand));
        proof {
            let nd = added_demand(dm, chunk_pos, demand_kind, chunk_ver, curr_tick);
            assert(demand == nd);
            assert forall|q: ChunkPos| #![trigger self.demands().contains_key(q)]
                self.demands().contains_key(q) == dm.insert(chunk_pos, nd).contains_key(q) by {
                if chunk_key(q@) == k {
                    lemma_key_injective(q, chunk_pos);
                }
            }
            assert forall|q: ChunkPos| #![trigger self.demands()[q]]
                self.demands().contains_key(q) implies self.demands()[q] == dm.insert(chunk_pos, nd)[q] by {
                if chunk_key(q@) == k {
                    lemma_key_injective(q, chunk_pos);
                }
            }
            assert(self.demands() =~= dm.insert(chunk_pos, nd));
        }
    }

    /// Queues, once each, the tasks that the demands call for, given the
    /// resident chunks and the player's position and the current tick.
    pub fn commit(&mut self, manager: &ChunkManager, player_pos: &ChunkPos, curr_tick: Tick)
        requires
            old(self).wf(),
        ensures
            final(self).wf(),
            committed(*old(self), *final(self), manager@, *player_pos, curr_tick),
    {
        let ghost a0 = self.active@;
        let ghost p0 = self.pending@;
        let ghost old_self = *self;
        let delay = self.config.unload_delay;
        let ghost mut seen: Set<u64> = Set::empty();
        for key in it: self.demanded.keys()
            invariant
                self.wf(),
                old_self.wf(),
                self.demanded@ == old_self.demanded@,
                self.config.unload_delay == delay,
                delay == old_self.config(),
                a0 == old_self.active@,
                p0 == old_self.pending@,
                it.seq().unref().to_set() == self.demanded@.dom(),
                forall|ck: u64| #[trigger]
                    self.demanded@.dom().contains(ck) ==> seen.contains(ck) || exists|j: int|
                        it.index() <= j < it.seq().len() && *it.seq()[j] == ck,
                forall|k: ChunkTaskKey|
                    #![trigger self.active@.contains(k)]
                    self.active@.contains(k) <==> a0.contains(k) || (old_self.called_for(
                        manager@,
                        curr_tick,
                        k,
                    ) && seen.contains(chunk_key(k.chunk_pos@))),
                forall|t: ChunkTask|
                    #![trigger self.pending@.to_multiset().count(t)]
                    self.pending@.to_multiset().count(t) == p0.to_multiset().count(t) + if t
                        == task_for(t.key, *player_pos) && old_self.called_for(
                        manager@,
                        curr_tick,
                        t.key,
                    ) && !a0.contains(t.key) && seen.contains(chunk_key(t.key.chunk_pos@)) {
                        1int
                    } else {
                        0int
                    },
        {
            assert(it.seq()[it.index() as int] == key);
            assert(it.seq().unref()[it.index() as int] == *key);
            assert(it.seq().unref().to_set().contains(*key));
            let entry = match self.demanded.get(key) {
                Some(e) => *e,
                None => {
                    assert(false);
                    (*player_pos, ChunkDemand::new(Version::new(0, 0, 0)))
                },
            };
            let chunk_pos = entry.0;
            let demand = entry.1;
            let ghost kk = *key;
            assert(chunk_key(chunk_pos@) == kk);
            assert(old_self.demands().contains_key(chunk_pos));
            assert(old_self.demands()[chunk_pos] == demand);
            let resident = manager.get_chunk(&chunk_pos).is_some();
            let ghost a1 = self.active@;
            let ghost p1 = self.pending@;
            commit_chunk(
                &mut self.active,
                &mut self.pending,
                chunk_pos,
                demand,
                resident,
                player_pos,
                curr_tick,
                delay,
            );
            proof {
                let seen1 = seen.insert(kk);
                assert forall|k: ChunkTaskKey| #![trigger self.active@.contains(k)]
                    self.active@.contains(k) <==> a0.contains(k) || (old_self.called_for(
                        manager@,
                        curr_tick,
                        k,
                    ) && seen1.contains(chunk_key(k.chunk_pos@))) by {
                    if chunk_key(k.chunk_pos@) == kk {
                        lemma_key_injective(k.chunk_pos, chunk_pos);
                    }
                }
                assert forall|t: ChunkTask| #![trigger self.pending@.to_multiset().count(t)]
                    self.pending@.to_multiset().count(t) == p0.to_multiset().count(t) + if t
                        == task_for(t.key, *player_pos) && old_self.called_for(
                        manager@,
                        curr_tick,
                        t.key,
                    ) && !a0.contains(t.key) && seen1.contains(chunk_key(t.key.chunk_pos@)) {
                        1int
                    } else {
                        0int
                    } by {
                    if chunk_key(t.key.chunk_pos@) == kk {
                        lemma_key_injective(t.key.chunk_pos, chunk_pos);
                        assert(a1.contains(t.key) <==> a0.contains(t.key) || (old_self.called_for(
                            manager@,
                            curr_tick,
                            t.key,
                        ) && seen.contains(kk)));
                    }
                }
                seen = seen1;
            }
        }
        proof {
            assert forall|q: ChunkPos| #[trigger] old_self.demands().contains_key(q) implies seen.contains(
                chunk_key(q@),
            ) by {
                assert(self.demanded@.dom().contains(chunk_key(q@)));
            }
        }
    }

    /// Hands out the task to do next: of the waiting tasks, one with the lowest
    /// priority, and among those one with the latest chunk position.
    pub fn branch(&mut self) -> (r: Option<ChunkTask>)
        requires
            old(self).wf(),
        ensures
            final(self).wf(),
            final(self).demands() == old(self).demands(),
            final(self).active() == old(self).active(),
            final(self).config() == old(self).config(),
            match r {
                None => old(self).pending() == Multiset::<ChunkTask>::empty() && final(self).pending()
                    == old(self).pending(),
                Some(t) => {
                    &&& old(self).pending().count(t) > 0
                    &&& final(self).pending() == old(self).pending().remove(t)
                    &&& forall|u: ChunkTask| #[trigger]
                        old(self).pending().count(u) > 0 ==> !pops_before(u, t)
                },
            },
            handed_out(*old(self), *final(self), r),
    {
        broadcast use {vstd::seq_lib::to_multiset_contains, vstd::seq_lib::to_multiset_remove};

        let n = self.pending.len();
        if n == 0 {
            proof {
                vstd::seq_lib::to_multiset_len(self.pending@);
                vstd::multiset::lemma_multiset_empty_len(self.pending@.to_multiset());
            }
            return None;
        }
        let mut best: usize = 0;
        let mut i: usize = 1;
        while i < n
            invariant
                n == self.pending@.len(),
                best < i <= n,
                forall|j: int| 0 <= j < i ==> !pops_before(#[trigger] self.pending@[j], self.pending@[best as int]),
            decreases n - i,
        {
            if task_pops_before(&self.pending[i], &self.pending[best]) {
                best = i;
            }
            i += 1;
        }
        let ghost before = self.pending@;
        let t = self.pending.remove(best);
        proof {
            assert(before.contains(t));
            assert forall|u: ChunkTask| #[trigger] before.to_multiset().count(u) > 0 implies !pops_before(
                u,
                t,
            ) by {
                assert(before.contains(u));
                let j = choose|j: int| 0 <= j < before.len() && before[j] == u;
            }
            assert(self.demands() =~= old(self).demands());
            assert forall|p: ChunkPos| #[trigger]
                self.demands().contains_key(p) implies !demand_idle(self.demands()[p]) by {
                assert(old(self).demands().contains_key(p));
            }
        }
        Some(t)
    }

    /// Settles the result of the task with key `task_key`: the key is no
    /// longer active; if the result is current, the demand it answers is
    /// cleared, and a demand left wanting nothing is dropped. Returns whether
    /// the result was current.
    pub fn merge(&mut self, task_key: &ChunkTaskKey) -> (r: bool)
        requires
            old(self).wf(),
        ensures
            final(self).wf(),
            final(self).pending() == old(self).pending(),
            final(self).config() == old(self).config(),
            final(self).active() == old(self).active().remove(*task_key),
            if old(self).demands().contains_key(task_key.chunk_pos) {
                let d = old(self).demands()[task_key.chunk_pos];
                let nd = merged_demand(d, *task_key);
                &&& r == merge_succeeds(d, *task_key)
                &&& final(self).demands() == if demand_idle(nd) {
                    old(self).demands().remove(task_key.chunk_pos)
                } else {
                    old(self).demands().insert(task_key.chunk_pos, nd)
                }
            } else {
                &&& !r
                &&& final(self).demands() == old(self).demands()
            },
            merged(*old(self), *final(self), *task_key, r),
    {
        remove_task_key(&mut self.active, task_key);
        let pos = task_key.chunk_pos;
        let k = key_of(&pos);
        let ghost dm = self.demands();
        let entry = match self.demanded.remove(&k) {
            Some(e) => e,
            None => {
                assert(!dm.contains_key(pos));
                assert(self.demands() =~= dm);
                assert forall|p: ChunkPos| #[trigger]
                    self.demands().contains_key(p) implies !demand_idle(self.demands()[p]) by {
                    assert(dm.contains_key(p));
                }
                return false;
            },
        };
        proof {
            lemma_key_injective(entry.0, pos);
        }
        let mut demand = entry.1;
        let same_patch = task_key.version.eq_patch(&demand.version);
        let same_minor = task_key.version.eq_minor(&demand.version);
        let same_major = task_key.version.eq_major(&demand.version);
        let success = match task_key.kind {
            ChunkTaskKind::Load => true,
            ChunkTaskKind::Mesh => {
                if same_patch {
                    demand.needs_meshing = false;
                    true
                } else {
                    false
                }
            },
            ChunkTaskKind::Unload => {
                if same_major {
                    demand.unload_since = None;
                    true
                } else {
                    false
                }
            },
            ChunkTaskKind::Save => {
                if same_minor {
                    demand.needs_saving = false;
                    true
                } else {
                    false
                }
            },
        };
        let ghost nd = merged_demand(dm[pos], *task_key);
        assert(demand == nd);
        if !demand.is_idle() {
            self.demanded.insert(k, (pos, demand));
            proof {
                assert forall|q: ChunkPos| #![trigger self.demands().contains_key(q)]
                    self.demands().contains_key(q) == dm.insert(pos, nd).contains_key(q) by {
                    if chunk_key(q@) == k {
                        lemma_key_injective(q, pos);
                    }
                }
                assert forall|q: ChunkPos| #![trigger self.demands()[q]]
                    self.demands().contains_key(q) implies self.demands()[q] == dm.insert(pos, nd)[q] by {
                    if chunk_key(q@) == k {
                        lemma_key_injective(q, pos);
                    }
                }
                assert(self.demands() =~= dm.insert(pos, nd));
            }
        } else {
            proof {
                assert forall|q: ChunkPos| #![trigger self.demands().contains_key(q)]
                    self.demands().contains_key(q) == dm.remove(pos).contains_key(q) by {
                    if chunk_key(q@) == k {
                        lemma_key_injective(q, pos);
                    }
                }
                assert(self.demands() =~= dm.remove(pos));
            }
        }
        success
    }

    /// The demand recorded for the chunk at `pos`, if any.
    pub fn demand(&self, pos: &ChunkPos) -> (r: Option<ChunkDemand>)
        ensures
            r == if self.demands().contains_key(*pos) {
                Some(self.demands()[*pos])
            } else {
                None::<ChunkDemand>
            },
    {
        match self.demanded.get(&key_of(pos)) {
            Some(e) => Some(e.1),
            None => None,
        }
    }
}

/// Committing a second time, at the same tick and with the same resident
/// chunks, queues nothing new and activates nothing new: the work called for
/// was queued by the first commit, wherever the player stands.
pub proof fn lemma_commit_twice(
    s0: ChunkScheduler,
    s1: ChunkScheduler,
    s2: ChunkScheduler,
    chunks: Map<ChunkPos, Chunk>,
    player1: ChunkPos,
    player2: ChunkPos,
    now: Tick,
)
    requires
        committed(s0, s1, chunks, player1, now),
        committed(s1, s2, chunks, player2, now),
    ensures
        s2.pending() == s1.pending(),
        s2.active() == s1.active(),
{
    assert forall|k: ChunkTaskKey| #[trigger] s1.called_for(chunks, now, k) implies s1.active().contains(k) by {
        assert(s0.called_for(chunks, now, k));
    }
    assert forall|t: ChunkTask| s2.pending().count(t) == s1.pending().count(t) by {
        if s1.called_for(chunks, now, t.key) {
            assert(s1.active().contains(t.key));
        }
    }
    assert(s2.pending() =~= s1.pending());
    assert forall|k: ChunkTaskKey| s2.active().contains(k) == s1.active().contains(k) by {
        if s1.called_for(chunks, now, k) {
            assert(s1.active().contains(k));
        }
    }
    assert(s2.active() =~= s1.active());
}

/// A resident chunk asked to be unloaded at tick `t`, with no unload asked
/// before, is called to be unloaded at tick `now` exactly when `delay` ticks
/// have passed since `t`.
pub proof fn lemma_unload_waits(
    dm: Map<ChunkPos, ChunkDemand>,
    p: ChunkPos,
    ver: Version,
    t: Tick,
    now: Tick,
    delay: Tick,
)
    requires
        !(dm.contains_key(p) && dm[p].unload_since is Some),
    ensures
        key_called_for(
            added_demand(dm, p, ChunkDemandKind::Unload, ver, t),
            ChunkTaskKey { chunk_pos: p, version: ver, kind: ChunkTaskKind::Unload },
            true,
            now,
            delay,
        ) <==> ticks_between(t, now) >= delay.0,
{
}

/// A demand keeps the kinds of work asked before when another kind is asked,
/// and takes the version of the latest request.
pub proof fn lemma_demand_kinds_coexist(
    dm: Map<ChunkPos, ChunkDemand>,
    p: ChunkPos,
    first: ChunkDemandKind,
    second: ChunkDemandKind,
    v1: Version,
    v2: Version,
    t1: Tick,
    t2: Tick,
)
    ensures
        ({
            let d1 = added_demand(dm, p, first, v1, t1);
            let d2 = added_demand(dm.insert(p, d1), p, second, v2, t2);
            &&& d2.version == v2
            &&& first == ChunkDemandKind::Mesh ==> d2.needs_meshing
            &&& first == ChunkDemandKind::Save ==> d2.needs_saving
            &&& second == ChunkDemandKind::Mesh ==> d2.needs_meshing
            &&& second == ChunkDemandKind::Save ==> d2.needs_saving
        }),
{
}

/// Settling a task clears only the demand that the task answers, and only
/// when its version is current for that kind of work: a mesh of another
/// patch, a save of another minor or an unload of another major version
/// leaves the demand as it was, and a load never clears a pending unload.
pub proof fn lemma_merge_clears_only_its_demand(d: ChunkDemand, k: ChunkTaskKey)
    ensures
        ({
            let nd = merged_demand(d, k);
            &&& nd.version == d.version
            &&& nd.needs_residency == d.needs_residency
            &&& k.kind != ChunkTaskKind::Mesh ==> nd.needs_meshing == d.needs_meshing
            &&& k.kind != ChunkTaskKind::Save ==> nd.needs_saving == d.needs_saving
            &&& k.kind != ChunkTaskKind::Unload ==> nd.unload_since == d.unload_since
            &&& !merge_succeeds(d, k) ==> nd == d
            &&& k.kind == ChunkTaskKind::Load ==> nd == d
            &&& k.kind == ChunkTaskKind::Mesh && k.version.spec_eq_patch(d.version) ==> !nd.needs_meshing
            &&& k.kind == ChunkTaskKind::Save && k.version.spec_eq_minor(d.version) ==> !nd.needs_saving
            &&& k.kind == ChunkTaskKind::Unload && k.version.spec_eq_major(d.version)
                ==> nd.unload_since is None
        }),
{
}


/// A commit activates a key only for work that its chunk's demand calls for,
/// with the demand's version: a load for a chunk that is not resident and is
/// wanted resident; a mesh or a save only for a resident chunk whose demand
/// wants it; an unload only for a resident chunk no longer wanted resident,
/// once the unload delay has passed since the unload was first asked.
pub proof fn lemma_commit_only_called_work(
    s0: ChunkScheduler,
    s1: ChunkScheduler,
    chunks: Map<ChunkPos, Chunk>,
    player: ChunkPos,
    now: Tick,
    k: ChunkTaskKey,
)
    requires
        committed(s0, s1, chunks, player, now),
        s1.active().contains(k),
        !s0.active().contains(k),
    ensures
        s0.demands().contains_key(k.chunk_pos),
        ({
            let d = s0.demands()[k.chunk_pos];
            let resident = chunks.contains_key(k.chunk_pos);
            &&& k.version == d.version
            &&& k.kind == ChunkTaskKind::Load ==> !resident && d.needs_residency
            &&& k.kind == ChunkTaskKind::Mesh ==> resident && d.needs_meshing
            &&& k.kind == ChunkTaskKind::Save ==> resident && d.needs_saving
            &&& k.kind == ChunkTaskKind::Unload ==> resident && !d.needs_residency
                && d.unload_since is Some && {
                let since = d.unload_since->0;
                let delay = s0.config();
                since.0 + delay.0 <= now.0 || delay.0 == 0
            }
        }),
{
}

/// Every task a commit queues is for a key it newly activated, and has as
/// priority the squared distance from its chunk to the player, except an
/// unload, whose priority is `u64::MAX` minus that distance: lower priorities
/// are handed out first, so the nearest chunks are loaded, meshed and saved
/// first and the farthest unloaded first.
pub proof fn lemma_commit_priority(
    s0: ChunkScheduler,
    s1: ChunkScheduler,
    chunks: Map<ChunkPos, Chunk>,
    player: ChunkPos,
    now: Tick,
    t: ChunkTask,
)
    requires
        committed(s0, s1, chunks, player, now),
        s1.pending().count(t) > s0.pending().count(t),
    ensures
        s1.active().contains(t.key),
        !s0.active().contains(t.key),
        t.key.kind != ChunkTaskKind::Unload ==> t.priority == t.key.chunk_pos.spec_dist_euclid_2(player),
        t.key.kind == ChunkTaskKind::Unload ==> t.priority == u64::MAX - t.key.chunk_pos.spec_dist_euclid_2(
            player,
        ),
{
    let a = t.key.chunk_pos;
    let dx = a@.0 - player@.0;
    let dy = a@.1 - player@.1;
    let dz = a@.2 - player@.2;
    assert(0 <= dx * dx <= 65536 * 65536) by (nonlinear_arith)
        requires
            -65536 <= dx <= 65536,
    ;
    assert(0 <= dy * dy <= 65536 * 65536) by (nonlinear_arith)
        requires
            -65536 <= dy <= 65536,
    ;
    assert(0 <= dz * dz <= 65536 * 65536) by (nonlinear_arith)
        requires
            -65536 <= dz <= 65536,
    ;
    assert(s1.active().contains(t.key));
}

/// Recording a demand sets what its kind asks for and keeps the rest of the
/// chunk's demand: a load wants the chunk resident and cancels a pending
/// unload; a mesh or a save adds that work; an unload stops wanting the
/// chunk resident and starts the unload timer at `now` unless it is already
/// running, in which case it keeps its start. The demand takes the version
/// of the request, and the demands of other chunks stay as they were.
pub proof fn lemma_add_effect(
    s0: ChunkScheduler,
    s1: ChunkScheduler,
    kind: ChunkDemandKind,
    p: ChunkPos,
    ver: Version,
    now: Tick,
)
    requires
        added(s0, s1, kind, p, ver, now),
    ensures
        s1.demands().contains_key(p),
        forall|q: ChunkPos| #![trigger s1.demands().contains_key(q)]
            q != p ==> s1.demands().contains_key(q) == s0.demands().contains_key(q),
        forall|q: ChunkPos| #![trigger s1.demands()[q]]
            q != p && s0.demands().contains_key(q) ==> s1.demands()[q] == s0.demands()[q],
        ({
            let had = s0.demands().contains_key(p);
            let d0 = s0.demands()[p];
            let d1 = s1.demands()[p];
            let res0 = had && d0.needs_residency;
            let mesh0 = had && d0.needs_meshing;
            let save0 = had && d0.needs_saving;
            let since0 = if had {
                d0.unload_since
            } else {
                None
            };
            &&& d1.version == ver
            &&& d1.needs_residency == match kind {
                ChunkDemandKind::Load => true,
                ChunkDemandKind::Unload => false,
                _ => res0,
            }
            &&& d1.needs_meshing == (kind == ChunkDemandKind::Mesh || mesh0)
            &&& d1.needs_saving == (kind == ChunkDemandKind::Save || save0)
            &&& d1.unload_since == match kind {
                ChunkDemandKind::Load => None,
                ChunkDemandKind::Unload => if since0 is Some {
                    since0
                } else {
                    Some(now)
                },
                _ => since0,
            }
        }),
{
}

/// Settling a task's result: a load is always current; a mesh only when the
/// task was made for the demand's very version (major, minor and patch); a
/// save when major and minor agree; an unload when the major version agrees.
/// A result that is not current changes no demand. A current one clears the
/// work it answers and nothing else, and a demand left wanting nothing is
/// dropped. Other chunks' demands are never touched, and the key is no longer
/// active.
pub proof fn lemma_merge_effect(s0: ChunkScheduler, s1: ChunkScheduler, k: ChunkTaskKey, r: bool)
    requires
        s0.wf(),
        merged(s0, s1, k, r),
    ensures
        !s1.active().contains(k),
        forall|q: ChunkPos| #![trigger s1.demands().contains_key(q)]
            q != k.chunk_pos ==> s1.demands().contains_key(q) == s0.demands().contains_key(q),
        forall|q: ChunkPos| #![trigger s1.demands()[q]]
            q != k.chunk_pos && s0.demands().contains_key(q) ==> s1.demands()[q] == s0.demands()[q],
        !s0.demands().contains_key(k.chunk_pos) ==> !r && s1.demands() == s0.demands(),
        s0.demands().contains_key(k.chunk_pos) ==> ({
            let d = s0.demands()[k.chunk_pos];
            let kv = k.version@;
            let dv = d.version@;
            &&& r == match k.kind {
                ChunkTaskKind::Load => true,
                ChunkTaskKind::Mesh => kv == dv,
                ChunkTaskKind::Save => kv.0 == dv.0 && kv.1 == dv.1,
                ChunkTaskKind::Unload => kv.0 == dv.0,
            }
            &&& !r ==> s1.demands() == s0.demands()
            &&& s1.demands().contains_key(k.chunk_pos) ==> {
                let d1 = s1.demands()[k.chunk_pos];
                &&& d1.version == d.version
                &&& d1.needs_residency == d.needs_residency
                &&& d1.needs_meshing == (d.needs_meshing && !(r && k.kind == ChunkTaskKind::Mesh))
                &&& d1.needs_saving == (d.needs_saving && !(r && k.kind == ChunkTaskKind::Save))
                &&& d1.unload_since == if r && k.kind == ChunkTaskKind::Unload {
                    None
                } else {
                    d.unload_since
                }
            }
            &&& !s1.demands().contains_key(k.chunk_pos) ==> r && !d.needs_residency && !(d.needs_meshing
                && k.kind != ChunkTaskKind::Mesh) && !(d.needs_saving && k.kind != ChunkTaskKind::Save)
                && !(d.unload_since is Some && k.kind != ChunkTaskKind::Unload)
        }),
{
    broadcast use Version::lemma_view_eq;
    if s0.demands().contains_key(k.chunk_pos) {
        let d = s0.demands()[k.chunk_pos];
        assert(!demand_idle(d));
        if k.kind == ChunkTaskKind::Mesh {
            assert(k.version.spec_eq_patch(d.version) <==> k.version@ == d.version@);
        }
    }
}


/// Tasks are handed out lowest priority first (so nearest first, and farthest
/// first for unloading): the task handed out has a priority no higher than any
/// waiting task, and of the waiting tasks with the same priority none has a
/// chunk position after its own, in the order of x, then y, then z. It leaves
/// the waiting tasks once, and nothing is handed out only when none waits.
pub proof fn lemma_branch_order(s0: ChunkScheduler, s1: ChunkScheduler, r: Option<ChunkTask>)
    requires
        handed_out(s0, s1, r),
    ensures
        r is None <==> s0.pending() == Multiset::<ChunkTask>::empty(),
        r is Some ==> ({
            let t = r->0;
            let tp = t.key.chunk_pos@;
            &&& s0.pending().count(t) > 0
            &&& s1.pending().count(t) == s0.pending().count(t) - 1
            &&& forall|u: ChunkTask| #![trigger s0.pending().count(u)]
                u != t ==> s1.pending().count(u) == s0.pending().count(u)
            &&& forall|u: ChunkTask| #![trigger s0.pending().count(u)]
                s0.pending().count(u) > 0 ==> t.priority <= u.priority
            &&& forall|u: ChunkTask| #![trigger s0.pending().count(u)]
                s0.pending().count(u) > 0 && u.priority == t.priority ==> {
                    let up = u.key.chunk_pos@;
                    up.0 < tp.0 || (up.0 == tp.0 && (up.1 < tp.1 || (up.1 == tp.1 && up.2 <= tp.2)))
                }
        }),
{
    if r is Some {
        let t = r->0;
        assert(s0.pending().count(t) > 0);
        assert(s0.pending() != Multiset::<ChunkTask>::empty());
    }
}

} // verus!
