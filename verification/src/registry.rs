//! The wait registry: which polling system serves which kind of wait, and which
//! polling systems have waiters right now.
//!
//! Both tables are hash collections of `bevy_platform`, keyed by integers. What they
//! hold is named by [`cache_entries`] and [`active_members`]; the functions at the end
//! of this file say what each call into the collections does to those contents.
use vstd::prelude::*;

use bevy_platform::collections::HashMap;
use bevy_platform::collections::HashSet;
use bevy_ecs::world::World;
use bevy_platform::hash::FixedHasher;

verus! {

#[verifier::external_type_specification]
#[verifier::external_body]
#[verifier::reject_recursive_types(K)]
#[verifier::reject_recursive_types(V)]
#[verifier::reject_recursive_types(S)]
pub struct ExHashMap<K, V, S>(HashMap<K, V, S>);

#[verifier::external_type_specification]
#[verifier::external_body]
#[verifier::reject_recursive_types(T)]
#[verifier::reject_recursive_types(S)]
pub struct ExHashSet<T, S>(HashSet<T, S>);

#[verifier::external_type_specification]
#[verifier::external_body]
pub struct ExFixedHasher(FixedHasher);

/// The hash map of a cache: from (kind, type key) to the handle of a polling system.
pub type CacheMap = HashMap<(u8, u64), u64, FixedHasher>;

/// The hash set of an active set: handles of polling systems.
pub type ActiveSet = HashSet<u64, FixedHasher>;

/// What is awaited: a component on one entity, a resource of the world, or the
/// messages of one type.
#[derive(Clone, Copy, Debug, PartialEq, Eq, Structural)]
pub enum WaitKind {
    Component,
    Resource,
    Message,
}

impl WaitKind {
    /// The number that stands for the kind in a registry key.
    pub open spec fn code(self) -> u8 {
        match self {
            WaitKind::Component => 0,
            WaitKind::Resource => 1,
            WaitKind::Message => 2,
        }
    }

    /// The number that stands for the kind in a registry key.
    pub fn discriminant(&self) -> (code: u8)
        ensures
            code == self.code(),
    {
        match self {
            WaitKind::Component => 0,
            WaitKind::Resource => 1,
            WaitKind::Message => 2,
        }
    }
}

/// `length` is the number of members of `members`, which is a finite set.
pub open spec fn counts<T>(members: Set<T>, length: usize) -> bool {
    members.finite() && members.len() == length
}

/// The mappings that a cache holds: from the kind of wait and the key of the awaited
/// type to the handle of the polling system that serves them.
pub uninterp spec fn cache_entries(map: CacheMap) -> Map<(u8, u64), u64>;

/// The handles that an active set holds.
pub uninterp spec fn active_members(set: ActiveSet) -> Set<u64>;

/// The polling systems that were ever registered, one per kind of wait and awaited
/// type. An entry is created on first use and never removed: a polling system
/// without waiters is kept for the next wait.
#[derive(Debug)]
pub struct WaiterCache(pub(crate) CacheMap);

/// The polling systems that have at least one waiter, and are therefore run once per
/// frame.
#[derive(Debug)]
pub struct ActiveWaiters(pub(crate) ActiveSet);

impl View for WaiterCache {
    type V = Map<(u8, u64), u64>;

    closed spec fn view(&self) -> Map<(u8, u64), u64> {
        cache_entries(self.0)
    }
}

impl View for ActiveWaiters {
    type V = Set<u64>;

    closed spec fn view(&self) -> Set<u64> {
        active_members(self.0)
    }
}

impl WaiterCache {
    /// The registry key of a kind of wait on an awaited type.
    pub open spec fn key(kind: WaitKind, type_key: u64) -> (u8, u64) {
        (kind.code(), type_key)
    }

    /// A cache without polling systems.
    pub fn new() -> (cache: Self)
        ensures
            cache@ == Map::<(u8, u64), u64>::empty(),
    {
        let map = cache_new();
        proof {
            assert(cache_entries(map) =~= Map::<(u8, u64), u64>::empty());
        }
        Self(map)
    }

    /// The number of polling systems that were ever registered.
    pub fn len(&self) -> (length: usize)
        ensures
            length == self@.len(),
    {
        cache_len(&self.0)
    }

    /// The polling system that serves the given kind of wait on the given type, if
    /// one was registered.
    pub fn get(&self, kind: WaitKind, type_key: u64) -> (system: Option<u64>)
        ensures
            system == (if self@.contains_key(Self::key(kind, type_key)) {
                Some(self@[Self::key(kind, type_key)])
            } else {
                None
            }),
    {
        cache_get(&self.0, kind.discriminant(), type_key)
    }

    /// The polling system that serves the given kind of wait on the given type. The
    /// first call for a key registers a polling system, by calling `register` on the
    /// world, and remembers its handle; every later call finds that handle and leaves
    /// `register` alone. So two waits on one type share one polling system.
    pub fn ensure<F: FnOnce(&mut World) -> u64>(
        &mut self,
        world: &mut World,
        kind: WaitKind,
        type_key: u64,
        register: F,
    ) -> (system: u64)
        requires
            forall|host: &mut World| register.requires((host,)),
        ensures
            final(self)@ == old(self)@.insert(Self::key(kind, type_key), system),
            old(self)@.contains_key(Self::key(kind, type_key)) ==> system == old(self)@[Self::key(
                kind,
                type_key,
            )] && final(self)@ == old(self)@,
            !old(self)@.contains_key(Self::key(kind, type_key)) ==> exists|host: &mut World| #[trigger]
                    register.ensures((host,), system),
    {
        match self.get(kind, type_key) {
            Some(system) => {
                proof {
                    assert(self@.insert(Self::key(kind, type_key), system) == self@);
                }
                system
            },
            None => {
                let system = register(world);
                cache_insert(&mut self.0, kind.discriminant(), type_key, system);
                system
            },
        }
    }
}

impl Default for WaiterCache {
    fn default() -> (cache: Self)
        ensures
            cache@ == Map::<(u8, u64), u64>::empty(),
    {
        Self::new()
    }
}

impl ActiveWaiters {
    /// An active set without polling systems.
    pub fn new() -> (active: Self)
        ensures
            active@ == Set::<u64>::empty(),
    {
        Self(active_new())
    }

    /// The number of active polling systems.
    pub fn len(&self) -> (length: usize)
        ensures
            length == self@.len(),
    {
        active_len(&self.0)
    }

    /// Whether the polling system is active.
    pub fn contains(&self, system: u64) -> (found: bool)
        ensures
            found == self@.contains(system),
    {
        active_contains(&self.0, system)
    }

    /// Marks the polling system as active. `true` when it was not active before.
    pub fn activate(&mut self, system: u64) -> (changed: bool)
        ensures
            final(self)@ == old(self)@.insert(system),
            changed == !old(self)@.contains(system),
    {
        active_insert(&mut self.0, system)
    }

    /// Marks the polling system as idle. `true` when it was active before.
    pub fn deactivate(&mut self, system: u64) -> (changed: bool)
        ensures
            final(self)@ == old(self)@.remove(system),
            changed == old(self)@.contains(system),
    {
        active_remove(&mut self.0, system)
    }
}

impl Default for ActiveWaiters {
    fn default() -> (active: Self)
        ensures
            active@ == Set::<u64>::empty(),
    {
        Self::new()
    }
}

/// Where a kind of wait on a type stands in its life.
#[derive(Clone, Copy, Debug, PartialEq, Eq, Structural)]
pub enum WaitState {
    /// Nobody ever waited: no polling system was registered.
    Uninitialized,
    /// A polling system is registered, but it has no waiter and is not run.
    Idle,
    /// A polling system is registered and is run once per frame.
    Active,
}

/// The state of a kind of wait on a type, read from the two tables.
pub open spec fn wait_state(
    cache: Map<(u8, u64), u64>,
    active: Set<u64>,
    kind: WaitKind,
    type_key: u64,
) -> WaitState {
    let key = WaiterCache::key(kind, type_key);
    if !cache.contains_key(key) {
        WaitState::Uninitialized
    } else if active.contains(cache[key]) {
        WaitState::Active
    } else {
        WaitState::Idle
    }
}

/// The two tables agree: every active polling system is a registered one.
pub open spec fn registered(cache: Map<(u8, u64), u64>, active: Set<u64>) -> bool {
    forall|system: u64|
        active.contains(system) ==> exists|key: (u8, u64)|
            cache.contains_key(key) && #[trigger] cache[key] == system
}

/// The state of a kind of wait on a type.
pub fn state_of(cache: &WaiterCache, active: &ActiveWaiters, kind: WaitKind, type_key: u64) -> (state:
    WaitState)
    ensures
        state == wait_state(cache@, active@, kind, type_key),
{
    match cache.get(kind, type_key) {
        None => WaitState::Uninitialized,
        Some(system) => {
            if active.contains(system) {
                WaitState::Active
            } else {
                WaitState::Idle
            }
        },
    }
}

/// What registering a wait does to the two tables: the key maps to `system`, which is
/// the system that was already there for the key, if there was one; `system` is
/// active; and the tables still agree if they did before.
pub open spec fn enrolled(
    cache_before: Map<(u8, u64), u64>,
    cache_after: Map<(u8, u64), u64>,
    active_before: Set<u64>,
    active_after: Set<u64>,
    kind: WaitKind,
    type_key: u64,
    system: u64,
) -> bool {
    let key = WaiterCache::key(kind, type_key);
    &&& cache_after == cache_before.insert(key, system)
    &&& cache_before.contains_key(key) ==> system == cache_before[key] && cache_after == cache_before
    &&& active_after == active_before.insert(system)
    &&& wait_state(cache_after, active_after, kind, type_key) == WaitState::Active
    &&& registered(cache_before, active_before) ==> registered(cache_after, active_after)
}

/// The polling systems that the driver runs this frame: every active one, once. The
/// order is that in which the hash set hands them out, which is not specified.
pub fn drive_waiting_for(waiters: &ActiveWaiters) -> (systems: Vec<u64>)
    ensures
        systems@.no_duplicates(),
        systems@.to_set() == waiters@,
{
    active_list(&waiters.0)
}

/// `HashMap::new`: an empty map.
#[verifier::external_body]
fn cache_new() -> (map: CacheMap)
    ensures
        cache_entries(map).dom() == Set::<(u8, u64)>::empty(),
{
    HashMap::new()
}

/// `HashMap::len`: the number of entries, of which there are finitely many.
#[verifier::external_body]
fn cache_len(map: &CacheMap) -> (length: usize)
    ensures
        counts(cache_entries(*map).dom(), length),
{
    map.len()
}

/// `HashMap::get`: the value stored under the key, if there is one.
#[verifier::external_body]
fn cache_get(map: &CacheMap, kind: u8, type_key: u64) -> (system: Option<
    u64,
>)
    ensures
        system == (if cache_entries(*map).contains_key((kind, type_key)) {
            Some(cache_entries(*map)[(kind, type_key)])
        } else {
            None
        }),
{
    map.get(&(kind, type_key)).copied()
}

/// `HashMap::insert`: stores the value under the key, replacing what was there.
#[verifier::external_body]
fn cache_insert(map: &mut CacheMap, kind: u8, type_key: u64, system: u64)
    ensures
        cache_entries(*final(map)) == cache_entries(*old(map)).insert((kind, type_key), system),
{
    map.insert((kind, type_key), system);
}

/// `HashSet::new`: an empty set.
#[verifier::external_body]
fn active_new() -> (set: ActiveSet)
    ensures
        active_members(set) == Set::<u64>::empty(),
{
    HashSet::new()
}

/// `HashSet::len`: the number of members, of which there are finitely many.
#[verifier::external_body]
fn active_len(set: &ActiveSet) -> (length: usize)
    ensures
        counts(active_members(*set), length),
{
    set.len()
}

/// `HashSet::contains`: whether the value is a member.
#[verifier::external_body]
fn active_contains(set: &ActiveSet, system: u64) -> (found: bool)
    ensures
        found == active_members(*set).contains(system),
{
    set.contains(&system)
}

/// `HashSet::insert`: adds the value; `true` when it was not a member before.
#[verifier::external_body]
fn active_insert(set: &mut ActiveSet, system: u64) -> (added: bool)
    ensures
        active_members(*final(set)) == active_members(*old(set)).insert(system),
        added == !active_members(*old(set)).contains(system),
{
    set.insert(system)
}

/// `HashSet::remove`: takes the value out; `true` when it was a member.
#[verifier::external_body]
fn active_remove(set: &mut ActiveSet, system: u64) -> (removed: bool)
    ensures
        active_members(*final(set)) == active_members(*old(set)).remove(system),
        removed == active_members(*old(set)).contains(system),
{
    set.remove(&system)
}

/// `HashSet::iter`: hands out every member once, in no particular order.
#[verifier::external_body]
fn active_list(set: &ActiveSet) -> (members: Vec<u64>)
    ensures
        members@.no_duplicates(),
        members@.to_set() == active_members(*set),
{
    set.iter().copied().collect()
}

} // verus!
