//! What is known of the projects of terminals, by working directory.

use crate::assoc::{holds_key, AssocList};
use crate::environment::model::{
    ProbeKeyView, ProjectProbeError, ProjectProbeKey, ProjectProbeOutcome, ProjectSnapshot,
};
use vstd::prelude::*;

verus! {

#[derive(Debug, Eq, PartialEq)]
pub enum ProjectProbeState {
    Unknown,
    Loading,
    Ready,
    NoProject,
    CwdUnavailable,
    Error(ProjectProbeError),
}

#[derive(Debug, Eq, PartialEq)]
pub struct ProjectProbeEntry {
    pub state: ProjectProbeState,
    pub snapshot: Option<ProjectSnapshot>,
    pub generation: u64,
    pub updated_at_ms: u64,
}

impl ProjectProbeEntry {
    pub fn state(&self) -> (r: &ProjectProbeState)
        ensures
            *r == self.state,
    {
        &self.state
    }

    pub fn snapshot(&self) -> (r: Option<&ProjectSnapshot>)
        ensures
            match r {
                Some(snapshot) => self.snapshot == Some(*snapshot),
                None => self.snapshot is None,
            },
    {
        match &self.snapshot {
            Some(snapshot) => Some(snapshot),
            None => None,
        }
    }

    pub fn generation(&self) -> (r: u64)
        ensures
            r == self.generation,
    {
        self.generation
    }

    pub fn updated_at_ms(&self) -> (r: u64)
        ensures
            r == self.updated_at_ms,
    {
        self.updated_at_ms
    }
}

pub struct ProjectStatusStore {
    pub entries: AssocList<ProjectProbeKey, ProjectProbeEntry>,
    pub next_generation: u64,
}

#[verifier::ext_equal]
pub struct StoreView {
    pub entries: Map<ProbeKeyView, ProjectProbeEntry>,
    pub next_generation: u64,
}

impl View for ProjectStatusStore {
    type V = StoreView;

    open spec fn view(&self) -> StoreView {
        StoreView { entries: self.entries@, next_generation: self.next_generation }
    }
}

/// The next generation; the largest one is kept.
pub open spec fn next_of(generation: u64) -> u64 {
    if generation < u64::MAX {
        (generation + 1) as u64
    } else {
        generation
    }
}

/// A store in which a probe has begun: the entry is loading under a new generation and keeps the
/// snapshot it had.
pub open spec fn loading(s: StoreView, key: ProbeKeyView, now_ms: u64) -> StoreView {
    let generation = next_of(s.next_generation);
    StoreView {
        entries: s.entries.insert(
            key,
            ProjectProbeEntry {
                state: ProjectProbeState::Loading,
                snapshot: if s.entries.contains_key(key) {
                    s.entries[key].snapshot
                } else {
                    None
                },
                generation,
                updated_at_ms: now_ms,
            },
        ),
        next_generation: generation,
    }
}

/// Whether a result belongs to the probe that is under way.
pub open spec fn is_current(s: StoreView, key: ProbeKeyView, generation: u64) -> bool {
    s.entries.contains_key(key) && s.entries[key].generation == generation
}

/// The state that an outcome leads to.
pub open spec fn state_after(outcome: ProjectProbeOutcome) -> ProjectProbeState {
    match outcome {
        ProjectProbeOutcome::Ready(_) => ProjectProbeState::Ready,
        ProjectProbeOutcome::NoProject => ProjectProbeState::NoProject,
        ProjectProbeOutcome::CwdMissing => ProjectProbeState::CwdUnavailable,
        ProjectProbeOutcome::Error(error) => ProjectProbeState::Error(error),
    }
}

/// The snapshot that an outcome leaves: an error keeps the one that was there.
pub open spec fn snapshot_after(
    before: Option<ProjectSnapshot>,
    outcome: ProjectProbeOutcome,
) -> Option<ProjectSnapshot> {
    match outcome {
        ProjectProbeOutcome::Ready(snapshot) => Some(snapshot),
        ProjectProbeOutcome::NoProject => None,
        ProjectProbeOutcome::CwdMissing => None,
        ProjectProbeOutcome::Error(_) => before,
    }
}

/// A store after the result of a probe; a result of another generation changes nothing.
pub open spec fn finished(
    s: StoreView,
    key: ProbeKeyView,
    generation: u64,
    outcome: ProjectProbeOutcome,
    now_ms: u64,
) -> StoreView {
    if is_current(s, key, generation) {
        StoreView {
            entries: s.entries.insert(
                key,
                ProjectProbeEntry {
                    state: state_after(outcome),
                    snapshot: snapshot_after(s.entries[key].snapshot, outcome),
                    generation,
                    updated_at_ms: now_ms,
                },
            ),
            ..s
        }
    } else {
        s
    }
}

/// Whether a probe is due: never while one is under way, else once the entry is as old as the limit.
pub open spec fn is_due(s: StoreView, key: ProbeKeyView, now_ms: u64, ttl_ms: u64) -> bool {
    if !s.entries.contains_key(key) {
        true
    } else if s.entries[key].state is Loading {
        false
    } else {
        let age = if now_ms > s.entries[key].updated_at_ms {
            now_ms - s.entries[key].updated_at_ms
        } else {
            0
        };
        age >= ttl_ms
    }
}

impl Default for ProjectStatusStore {
    fn default() -> (r: Self)
        ensures
            r.entries.well_formed(),
            r@ == (StoreView {
                entries: Map::<ProbeKeyView, ProjectProbeEntry>::empty(),
                next_generation: 0,
            }),
    {
        ProjectStatusStore { entries: AssocList::new(), next_generation: 0 }
    }
}

impl ProjectStatusStore {
    pub open spec fn well_formed(self) -> bool {
        self.entries.well_formed()
    }

    pub fn get(&self, key: &ProjectProbeKey) -> (r: Option<&ProjectProbeEntry>)
        requires
            self.well_formed(),
        ensures
            match r {
                Some(entry) => self@.entries.contains_key(key@) && self@.entries[key@] == *entry,
                None => !self@.entries.contains_key(key@),
            },
    {
        self.entries.get(key)
    }

    pub fn snapshot(&self, key: &ProjectProbeKey) -> (r: Option<&ProjectSnapshot>)
        requires
            self.well_formed(),
        ensures
            match r {
                Some(snapshot) => self@.entries.contains_key(key@)
                    && self@.entries[key@].snapshot == Some(*snapshot),
                None => !self@.entries.contains_key(key@)
                    || self@.entries[key@].snapshot is None,
            },
    {
        match self.get(key) {
            Some(entry) => entry.snapshot(),
            None => None,
        }
    }

    pub fn should_probe(&self, key: &ProjectProbeKey, now_ms: u64, ttl_ms: u64) -> (r: bool)
        requires
            self.well_formed(),
        ensures
            r == is_due(self@, key@, now_ms, ttl_ms),
    {
        match self.get(key) {
            None => true,
            Some(entry) => match &entry.state {
                ProjectProbeState::Loading => false,
                _ => now_ms.saturating_sub(entry.updated_at_ms) >= ttl_ms,
            },
        }
    }

    /// Begins a probe and gives its generation.
    pub fn mark_loading(&mut self, key: ProjectProbeKey, now_ms: u64) -> (r: u64)
        requires
            old(self).well_formed(),
        ensures
            final(self).well_formed(),
            final(self)@ == loading(old(self)@, key@, now_ms),
            r == next_of(old(self)@.next_generation),
    {
        self.next_generation = self.next_generation.saturating_add(1);
        let generation: u64 = self.next_generation;
        let ghost before = self.entries@;
        let snapshot = match self.entries.remove(&key) {
            Some(entry) => entry.snapshot,
            None => None,
        };
        let entry = ProjectProbeEntry {
            state: ProjectProbeState::Loading,
            snapshot,
            generation,
            updated_at_ms: now_ms,
        };
        self.entries.insert_new(key, entry);
        assert(self.entries@ =~= before.insert(key@, entry));
        generation
    }

    /// Takes in the result of a probe; says whether it was of the current generation.
    pub fn finish_probe(
        &mut self,
        key: &ProjectProbeKey,
        generation: u64,
        outcome: ProjectProbeOutcome,
        now_ms: u64,
    ) -> (r: bool)
        requires
            old(self).well_formed(),
        ensures
            final(self).well_formed(),
            final(self)@ == finished(old(self)@, key@, generation, outcome, now_ms),
            r == is_current(old(self)@, key@, generation),
    {
        match self.entries.get(key) {
            None => return false,
            Some(entry) => {
                if entry.generation != generation {
                    return false;
                }
            },
        }
        let ghost before = self.entries@;
        let kept = match self.entries.remove(key) {
            Some(entry) => entry.snapshot,
            None => None,
        };
        let (state, snapshot) = match outcome {
            ProjectProbeOutcome::Ready(snapshot) => (ProjectProbeState::Ready, Some(snapshot)),
            ProjectProbeOutcome::NoProject => (ProjectProbeState::NoProject, None),
            ProjectProbeOutcome::CwdMissing => (ProjectProbeState::CwdUnavailable, None),
            ProjectProbeOutcome::Error(error) => (ProjectProbeState::Error(error), kept),
        };
        let entry = ProjectProbeEntry { state, snapshot, generation, updated_at_ms: now_ms };
        self.entries.insert_new(key.clone(), entry);
        assert(self.entries@ =~= before.insert(key@, entry));
        true
    }

    /// Drops the entries whose key is not kept.
    pub fn retain_keys<F: Fn(&ProjectProbeKey) -> bool>(&mut self, keep: F)
        requires
            old(self).well_formed(),
            forall|key: &ProjectProbeKey| call_requires(keep, (key,)),
        ensures
            final(self).well_formed(),
            final(self)@.next_generation == old(self)@.next_generation,
            forall|key: ProbeKeyView|
                #[trigger] final(self)@.entries.contains_key(key) ==> old(self)@.entries.contains_key(key) && final(self)@.entries[key]
                    == old(self)@.entries[key] && exists|k: &ProjectProbeKey|
                    k@ == key && call_ensures(keep, (k,), true),
            forall|key: ProbeKeyView|
                #[trigger] old(self)@.entries.contains_key(key) && !final(self)@.entries.contains_key(key) ==> exists|k: &ProjectProbeKey|
                    k@ == key && call_ensures(keep, (k,), false),
    {
        let ghost start = self.entries;
        let mut rest: AssocList<ProjectProbeKey, ProjectProbeEntry> = AssocList::new();
        let mut kept: AssocList<ProjectProbeKey, ProjectProbeEntry> = AssocList::new();
        std::mem::swap(&mut rest, &mut self.entries);
        let ghost mut dropped: Set<ProbeKeyView> = Set::empty();
        while rest.entries.len() > 0
            invariant
                start.well_formed(),
                rest.entries@ == start.entries@.take(rest.entries@.len() as int),
                rest.entries@.len() <= start.entries@.len(),
                kept.well_formed(),
                self.next_generation == old(self).next_generation,
                forall|key: &ProjectProbeKey| call_requires(keep, (key,)),
                forall|key: ProbeKeyView|
                    #[trigger] kept@.contains_key(key) ==> start@.contains_key(key) && kept@[key]
                        == start@[key] && (exists|k: &ProjectProbeKey|
                        k@ == key && call_ensures(keep, (k,), true)),
                forall|key: ProbeKeyView|
                    #[trigger] dropped.contains(key) ==> (exists|k: &ProjectProbeKey|
                        k@ == key && call_ensures(keep, (k,), false)),
                forall|i: int|
                    rest.entries@.len() <= i < start.entries@.len() ==> kept@.contains_key(
                        (#[trigger] start.entries@[i]).0@,
                    ) || dropped.contains(start.entries@[i].0@),
                forall|i: int|
                    0 <= i < rest.entries@.len() ==> !kept@.contains_key(
                        (#[trigger] start.entries@[i]).0@,
                    ),
            decreases rest.entries.len(),
        {
            let ghost n = rest.entries@.len() - 1;
            let popped = rest.entries.pop();
            assert(rest.entries@ =~= start.entries@.take(n));
            if let Some(entry) = popped {
                assert(entry == start.entries@[n]);
                let keep_it = keep(&entry.0);
                proof {
                    start.lemma_entry(n);
                    assert forall|i: int| 0 <= i < n implies (#[trigger] start.entries@[i]).0@
                        != start.entries@[n].0@ by {}
                }
                if keep_it {
                    assert(call_ensures(keep, (&entry.0,), true));
                    kept.insert_new(entry.0, entry.1);
                } else {
                    assert(call_ensures(keep, (&entry.0,), false));
                    proof {
                        dropped = dropped.insert(entry.0@);
                    }
                }
            }
        }
        self.entries = kept;
        proof {
            assert forall|key: ProbeKeyView|
                #[trigger] start@.contains_key(key) && !kept@.contains_key(
                    key,
                ) implies (exists|k: &ProjectProbeKey|
                k@ == key && call_ensures(keep, (k,), false)) by {
                assert(holds_key(start.entries@, key));
                let i = crate::assoc::key_at(start.entries@, key);
                assert(start.entries@[i].0@ == key);
                assert(dropped.contains(key));
            }
        }
    }
}

/// A probe that begins keeps the snapshot that was there.
pub proof fn law_loading_keeps_snapshot(s: StoreView, key: ProbeKeyView, now_ms: u64)
    requires
        s.entries.contains_key(key),
    ensures
        loading(s, key, now_ms).entries[key].snapshot == s.entries[key].snapshot,
        loading(s, key, now_ms).entries[key].state is Loading,
{
}

/// The result of a probe that was overtaken by another is ignored, as long as generations last.
pub proof fn law_stale_result_is_ignored(
    s: StoreView,
    key: ProbeKeyView,
    first_ms: u64,
    second_ms: u64,
    outcome: ProjectProbeOutcome,
    now_ms: u64,
)
    requires
        s.next_generation < u64::MAX - 1,
    ensures
        ({
            let once = loading(s, key, first_ms);
            let twice = loading(once, key, second_ms);
            finished(twice, key, once.next_generation, outcome, now_ms) == twice
        }),
{
}

/// No probe is due while one is under way, and each probe concerns one key only.
pub proof fn law_probes_are_apart(
    s: StoreView,
    key: ProbeKeyView,
    other: ProbeKeyView,
    now_ms: u64,
    later_ms: u64,
    ttl_ms: u64,
)
    requires
        key != other,
    ensures
        !is_due(loading(s, key, now_ms), key, later_ms, ttl_ms),
        loading(s, key, now_ms).entries.contains_key(other) == s.entries.contains_key(other),
        s.entries.contains_key(other) ==> loading(s, key, now_ms).entries[other]
            == s.entries[other],
{
}

/// A probe that begins has the next generation and the time it began, and everything else in the
/// store stays.
pub proof fn law_probes_begin(s: StoreView, key: ProbeKeyView, other: ProbeKeyView, now_ms: u64)
    requires
        s.next_generation < u64::MAX,
    ensures
        ({
            let after = loading(s, key, now_ms);
            &&& after.next_generation == s.next_generation + 1
            &&& after.entries.contains_key(key)
            &&& after.entries[key].state is Loading
            &&& after.entries[key].generation == s.next_generation + 1
            &&& after.entries[key].updated_at_ms == now_ms
            &&& other != key ==> after.entries.contains_key(other) == s.entries.contains_key(other)
            &&& other != key && s.entries.contains_key(other) ==> after.entries[other]
                == s.entries[other]
            &&& is_current(after, key, (s.next_generation + 1) as u64)
        }),
        next_of(u64::MAX) == u64::MAX,
{
}

/// The result of the probe under way is taken: a project is kept, an error keeps the project that
/// was known, and no project or no directory forgets it.
pub proof fn law_results_are_taken(
    s: StoreView,
    key: ProbeKeyView,
    generation: u64,
    snapshot: ProjectSnapshot,
    error: ProjectProbeError,
    now_ms: u64,
)
    requires
        s.entries.contains_key(key),
        s.entries[key].generation == generation,
    ensures
        ({
            let after = finished(s, key, generation, ProjectProbeOutcome::Ready(snapshot), now_ms);
            &&& after.entries[key].state is Ready
            &&& after.entries[key].snapshot == Some(snapshot)
            &&& after.entries[key].generation == generation
            &&& after.entries[key].updated_at_ms == now_ms
            &&& after.next_generation == s.next_generation
        }),
        ({
            let after = finished(s, key, generation, ProjectProbeOutcome::NoProject, now_ms);
            &&& after.entries[key].state is NoProject
            &&& after.entries[key].snapshot is None
        }),
        ({
            let after = finished(s, key, generation, ProjectProbeOutcome::CwdMissing, now_ms);
            &&& after.entries[key].state is CwdUnavailable
            &&& after.entries[key].snapshot is None
        }),
        ({
            let after = finished(s, key, generation, ProjectProbeOutcome::Error(error), now_ms);
            &&& after.entries[key].state == ProjectProbeState::Error(error)
            &&& after.entries[key].snapshot == s.entries[key].snapshot
        }),
{
}

/// A probe is due where nothing is known, or where what is known is old enough.
pub proof fn law_probes_are_due_when_old(
    s: StoreView,
    key: ProbeKeyView,
    now_ms: u64,
    ttl_ms: u64,
)
    ensures
        !s.entries.contains_key(key) ==> is_due(s, key, now_ms, ttl_ms),
        s.entries.contains_key(key) && s.entries[key].state is Loading ==> !is_due(
            s,
            key,
            now_ms,
            ttl_ms,
        ),
        s.entries.contains_key(key) && !(s.entries[key].state is Loading) && now_ms
            >= s.entries[key].updated_at_ms ==> (is_due(s, key, now_ms, ttl_ms) <==> now_ms
            >= s.entries[key].updated_at_ms + ttl_ms),
        s.entries.contains_key(key) && !(s.entries[key].state is Loading) && now_ms
            < s.entries[key].updated_at_ms ==> (is_due(s, key, now_ms, ttl_ms) <==> ttl_ms == 0),
{
}

} // verus!
