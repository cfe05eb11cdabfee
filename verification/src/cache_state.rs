//! The per-path construction gate.
//!
//! Every path has a state of its own. A path whose state is
//! [`CacheStateEntry::PendingStore`] is being built by somebody; whoever asks
//! for it meanwhile has to wait until the state is
//! [`CacheStateEntry::ReadyToConstruct`] again.

use vstd::hash_map::StringHashMap;
use vstd::prelude::*;

verus! {

/// The construction state of one path.
#[derive(Clone, Copy, Debug, PartialEq, Eq, Structural)]
pub enum CacheStateEntry {
    /// Nobody owns the path: the next requester may go on and build it.
    ReadyToConstruct,
    /// That many requesters have registered and not yet stored their result.
    PendingStore(usize),
}

impl CacheStateEntry {
    /// A pending state counts at least one builder.
    pub open spec fn well_formed(self) -> bool {
        self matches CacheStateEntry::PendingStore(n) ==> n >= 1
    }

    /// The number of builders that have registered and not yet completed.
    pub open spec fn pending(self) -> nat {
        match self {
            CacheStateEntry::ReadyToConstruct => 0,
            CacheStateEntry::PendingStore(n) => n as nat,
        }
    }

    /// A requester has to wait as long as the path is pending.
    pub open spec fn blocks(self) -> bool {
        self is PendingStore
    }

    /// The state after a requester that is no longer blocked has registered:
    /// one more builder, unless the descriptor is in the cache already.
    pub open spec fn after_interest(self, cached: bool) -> CacheStateEntry {
        if cached {
            self
        } else {
            CacheStateEntry::PendingStore((self.pending() + 1) as usize)
        }
    }

    /// The state after one builder has stored its result: one builder less,
    /// and ready when none is left.
    pub open spec fn after_completion(self) -> CacheStateEntry {
        match self {
            CacheStateEntry::ReadyToConstruct => CacheStateEntry::ReadyToConstruct,
            CacheStateEntry::PendingStore(n) => if n <= 1 {
                CacheStateEntry::ReadyToConstruct
            } else {
                CacheStateEntry::PendingStore((n - 1) as usize)
            },
        }
    }

    /// Whether a requester that finds this state has to wait.
    pub fn must_wait(&self) -> (wait: bool)
        ensures
            wait == self.blocks(),
    {
        match self {
            CacheStateEntry::ReadyToConstruct => false,
            CacheStateEntry::PendingStore(_) => true,
        }
    }

    /// Registers one requester. `cached` says whether the descriptor of the
    /// path is in the cache. Returns the next state and whether one waiter is
    /// to be woken. That is the case when the path is left ready, as it is
    /// when the descriptor is cached: a waiter that is woken while the path
    /// is pending would only wait again.
    pub fn register_interest(self, cached: bool) -> (next: (CacheStateEntry, bool))
        requires
            !cached ==> self.pending() < usize::MAX,
        ensures
            next.0 == self.after_interest(cached),
            next.1 == (next.0 is ReadyToConstruct),
            self.well_formed() ==> next.0.well_formed(),
    {
        let state = if cached {
            self
        } else {
            let i: usize = match self {
                CacheStateEntry::PendingStore(i) => i,
                CacheStateEntry::ReadyToConstruct => 0,
            };
            CacheStateEntry::PendingStore(i + 1)
        };
        let notify = match state {
            CacheStateEntry::ReadyToConstruct => true,
            CacheStateEntry::PendingStore(_) => false,
        };
        (state, notify)
    }

    /// Records that one builder has stored its result. Returns the next state
    /// and whether one waiter is to be woken, which is the case when the last
    /// builder has completed. A pending state that counts no builder is
    /// treated as one that counts one.
    pub fn complete_construction(self) -> (next: (CacheStateEntry, bool))
        ensures
            next.0 == self.after_completion(),
            next.1 == (self is PendingStore && next.0 is ReadyToConstruct),
            next.0.well_formed(),
            next.0.pending() == if self.pending() == 0 { 0 } else { self.pending() - 1 },
    {
        match self {
            CacheStateEntry::PendingStore(i) => {
                if i <= 1 {
                    (CacheStateEntry::ReadyToConstruct, true)
                } else {
                    (CacheStateEntry::PendingStore(i - 1), false)
                }
            },
            CacheStateEntry::ReadyToConstruct => (CacheStateEntry::ReadyToConstruct, false),
        }
    }
}

/// What a requester is told when it registers its interest in a path.
#[derive(Clone, Copy, Debug, PartialEq, Eq, Structural)]
pub enum Interest {
    /// The path is pending: wait until it is ready, then ask again.
    Wait,
    /// The requester is registered and may go on. `notify` says whether one
    /// waiter is to be woken.
    Registered { notify: bool },
}

/// The state of `path` in `gates`. A path without an entry is ready.
pub open spec fn gate_of(gates: Map<Seq<char>, CacheStateEntry>, path: Seq<char>) -> CacheStateEntry {
    if gates.dom().contains(path) {
        gates[path]
    } else {
        CacheStateEntry::ReadyToConstruct
    }
}

/// What a requester for `path` is told, the descriptor of `path` being in
/// the cache or not as `cached` says.
pub open spec fn interest_in(
    gates: Map<Seq<char>, CacheStateEntry>,
    path: Seq<char>,
    cached: bool,
) -> Interest {
    if gate_of(gates, path).blocks() {
        Interest::Wait
    } else {
        Interest::Registered {
            notify: gate_of(gates, path).after_interest(cached) is ReadyToConstruct,
        }
    }
}

/// The states after a requester has asked for `path`. A requester that has
/// to wait changes nothing.
pub open spec fn after_interest_in(
    gates: Map<Seq<char>, CacheStateEntry>,
    path: Seq<char>,
    cached: bool,
) -> Map<Seq<char>, CacheStateEntry> {
    if gate_of(gates, path).blocks() {
        gates
    } else {
        gates.insert(path, gate_of(gates, path).after_interest(cached))
    }
}

/// The states after one builder of `path` has stored its result. A path
/// that nobody ever asked for has no state to change.
pub open spec fn after_completion_of(
    gates: Map<Seq<char>, CacheStateEntry>,
    path: Seq<char>,
) -> Map<Seq<char>, CacheStateEntry> {
    if gates.dom().contains(path) {
        gates.insert(path, gates[path].after_completion())
    } else {
        gates
    }
}

/// The construction states of all paths. A path gets its entry when it is
/// first asked for, and keeps it.
pub struct CacheState {
    entries: StringHashMap<CacheStateEntry>,
}

impl View for CacheState {
    type V = Map<Seq<char>, CacheStateEntry>;

    closed spec fn view(&self) -> Map<Seq<char>, CacheStateEntry> {
        self.entries@
    }
}

impl CacheState {
    /// No path has been asked for yet.
    pub fn new() -> (gates: CacheState)
        ensures
            gates@ == Map::<Seq<char>, CacheStateEntry>::empty(),
    {
        CacheState { entries: StringHashMap::new() }
    }

    /// The state of `path`. A path that nobody has asked for is ready.
    pub fn state(&self, path: &str) -> (state: CacheStateEntry)
        ensures
            state == gate_of(self@, path@),
    {
        match self.entries.get(path) {
            Some(state) => *state,
            None => CacheStateEntry::ReadyToConstruct,
        }
    }

    /// A requester asks for `path`; `cached` says whether the descriptor of
    /// `path` is in the cache. While the path is pending the requester has
    /// to wait, and nothing changes. Otherwise it is registered: the path's
    /// entry is made if there was none, and counts one more builder unless
    /// the descriptor is cached.
    pub fn register_interest(&mut self, path: &str, cached: bool) -> (interest: Interest)
        ensures
            interest == interest_in(old(self)@, path@, cached),
            final(self)@ == after_interest_in(old(self)@, path@, cached),
    {
        let state = self.state(path);
        if state.must_wait() {
            Interest::Wait
        } else {
            let (next, notify) = state.register_interest(cached);
            self.entries.insert(path.to_owned(), next);
            Interest::Registered { notify }
        }
    }

    /// One builder of `path` has stored its result. Returns whether one
    /// waiter is to be woken, which is the case when the path has become
    /// ready.
    pub fn complete_construction(&mut self, path: &str) -> (notify: bool)
        ensures
            final(self)@ == after_completion_of(old(self)@, path@),
            notify == (gate_of(old(self)@, path@) is PendingStore && gate_of(final(self)@, path@)
                is ReadyToConstruct),
    {
        if self.entries.contains_key(path) {
            let state = self.state(path);
            let (next, notify) = state.complete_construction();
            self.entries.insert(path.to_owned(), next);
            notify
        } else {
            false
        }
    }
}

} // verus!
