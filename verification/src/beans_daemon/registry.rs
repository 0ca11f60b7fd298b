//! The registry of projects, keyed by project path; each state carries the
//! clock reading (nanoseconds) at which it was entered.
use vstd::prelude::*;
use crate::paths::{path_id, path_key, same_key, PathId};
use crate::keyed::{has_key, lookup, unique_keys, lemma_lookup_index, lemma_push, lemma_update, lemma_remove};

verus! {

#[derive(Debug)]
pub enum ProjectState {
    Spawning { since: u64 },
    Healthy { port: u16, pid: u32, spawned_at: u64 },
    Evicting { since: u64 },
    Dead { reason: String, since: u64 },
}

impl ProjectState {
    /// Spawning and healthy projects count toward the LRU cap; evicting and
    /// dead ones do not.
    pub open spec fn spec_counts_toward_cap(&self) -> bool {
        self is Spawning || self is Healthy
    }

    pub open spec fn is_healthy(&self) -> bool {
        self is Healthy
    }

    /// True when the project counts toward the LRU cap.
    pub fn counts_toward_cap(&self) -> (r: bool)
        ensures
            r == self.spec_counts_toward_cap(),
    {
        match self {
            ProjectState::Spawning { .. } | ProjectState::Healthy { .. } => true,
            _ => false,
        }
    }
}

#[derive(Debug)]
pub struct Project {
    pub key: String,
    pub display_name: String,
    pub last_used: u64,
    pub state: ProjectState,
}

#[derive(Debug, PartialEq, Eq)]
pub enum RegistryError {
    AlreadyRegistered { key: String },
    UnknownProject { key: String },
}

impl RegistryError {
    pub open spec fn spec_message(&self) -> Seq<char> {
        match self {
            RegistryError::AlreadyRegistered { key } => "project already registered: "@ + key@,
            RegistryError::UnknownProject { key } => "unknown project: "@ + key@,
        }
    }

    pub fn message(&self) -> (m: String)
        ensures
            m@ == self.spec_message(),
    {
        match self {
            RegistryError::AlreadyRegistered { key } => {
                let mut m = String::from_str("project already registered: ");
                m.append(key.as_str());
                m
            },
            RegistryError::UnknownProject { key } => {
                let mut m = String::from_str("unknown project: ");
                m.append(key.as_str());
                m
            },
        }
    }
}

pub open spec fn key_of() -> spec_fn(Project) -> PathId {
    |p: Project| path_id(p.key@)
}

#[derive(Debug)]
pub struct Registry {
    by_key: Vec<Project>,
}

impl View for Registry {
    type V = Seq<Project>;

    closed spec fn view(&self) -> Seq<Project> {
        self.by_key@
    }
}

/// Number of projects that count toward the LRU cap.
pub open spec fn active_count_of(s: Seq<Project>) -> nat
    decreases s.len(),
{
    if s.len() == 0 {
        0
    } else {
        active_count_of(s.drop_last()) + if s.last().state.spec_counts_toward_cap() { 1nat } else { 0nat }
    }
}

/// Position `i` holds the least recently used healthy project, the first in
/// order among those used equally long ago.
pub open spec fn is_lru_healthy(s: Seq<Project>, i: int) -> bool {
    &&& 0 <= i < s.len()
    &&& s[i].state.is_healthy()
    &&& forall|j: int| 0 <= j < s.len() && #[trigger] s[j].state.is_healthy() ==> s[i].last_used <= s[j].last_used
    &&& forall|j: int| 0 <= j < i && #[trigger] s[j].state.is_healthy() ==> s[i].last_used < s[j].last_used
}

pub open spec fn any_healthy(s: Seq<Project>) -> bool {
    exists|i: int| 0 <= i < s.len() && #[trigger] s[i].state.is_healthy()
}

/// `new` is `old` with the `last_used` of the project under `key` set to `now`.
pub open spec fn bumped(old: Seq<Project>, new: Seq<Project>, key: Seq<char>, now: u64) -> bool {
    &&& new.len() == old.len()
    &&& forall|i: int| 0 <= i < old.len() ==> #[trigger] new[i] == if path_id(old[i].key@) == path_id(key) {
        Project { last_used: now, ..old[i] }
    } else {
        old[i]
    }
}

impl Registry {
    #[verifier::type_invariant]
    pub closed spec fn wf(&self) -> bool {
        unique_keys(self@, key_of())
    }

    pub open spec fn spec_get(&self, key: Seq<char>) -> Option<Project> {
        lookup(self@, key_of(), path_id(key))
    }

    pub open spec fn contains(&self, key: Seq<char>) -> bool {
        has_key(self@, key_of(), path_id(key))
    }

    pub fn new() -> (r: Self)
        ensures
            r@ == Seq::<Project>::empty(),
    {
        Registry { by_key: Vec::new() }
    }

    fn position(&self, key: &String) -> (r: Option<usize>)
        ensures
            match r {
                Some(i) => i < self@.len() && path_id(self@[i as int].key@) == path_id(key@),
                None => !self.contains(key@),
            },
    {
        proof {
            use_type_invariant(&*self);
        }
        let want = path_key(key.as_str());
        let mut i: usize = 0;
        while i < self.by_key.len()
            invariant
                i <= self.by_key@.len(),
                want.id() == path_id(key@),
                forall|j: int| 0 <= j < i ==> path_id(#[trigger] self.by_key@[j].key@) != path_id(key@),
            decreases self.by_key@.len() - i,
        {
            let here = path_key(self.by_key[i].key.as_str());
            if same_key(&here, &want) {
                return Some(i);
            }
            i += 1;
        }
        assert forall|j: int| 0 <= j < self@.len() implies #[trigger] key_of()(self@[j]) != path_id(key@) by {
            assert(path_id(self.by_key@[j].key@) != path_id(key@));
        }
        None
    }

    pub fn get(&self, key: &String) -> (r: Option<&Project>)
        ensures
            match r {
                Some(p) => self.spec_get(key@) == Some(*p) && path_id(p.key@) == path_id(key@),
                None => self.spec_get(key@) is None,
            },
    {
        proof {
            use_type_invariant(&*self);
        }
        match self.position(key) {
            Some(i) => {
                proof {
                    lemma_lookup_index(self@, key_of(), i as int);
                }
                Some(&self.by_key[i])
            },
            None => None,
        }
    }

    /// Inserts a fresh `Spawning` project entered at `now`; refused when the
    /// key is already registered.
    pub fn insert_spawning(&mut self, key: String, display_name: String, now: u64) -> (r: Result<(), RegistryError>)
        ensures
            match r {
                Ok(()) => {
                    let p = Project {
                        key,
                        display_name,
                        last_used: now,
                        state: ProjectState::Spawning { since: now },
                    };
                    &&& !old(self).contains(key@)
                    &&& final(self)@ == old(self)@.push(p)
                    &&& final(self).spec_get(key@) == Some(p)
                    &&& forall|k: Seq<char>| path_id(k) != path_id(key@) ==> #[trigger] final(self).spec_get(k) == old(self).spec_get(k)
                },
                Err(e) => old(self).contains(key@) && final(self)@ == old(self)@ && e
                    == (RegistryError::AlreadyRegistered { key }),
            },
    {
        proof {
            use_type_invariant(&*self);
        }
        match self.position(&key) {
            Some(i) => {
                assert(key_of()(self@[i as int]) == path_id(key@));
                Err(RegistryError::AlreadyRegistered { key })
            },
            None => {
                let p = Project {
                    key,
                    display_name,
                    last_used: now,
                    state: ProjectState::Spawning { since: now },
                };
                proof {
                    lemma_push(self@, key_of(), p);
                }
                let mut items = Vec::new();
                std::mem::swap(&mut items, &mut self.by_key);
                items.push(p);
                self.by_key = items;
                assert(self@ == old(self)@.push(p));
                Ok(())
            },
        }
    }

    /// Sets the `last_used` of the project under `key` to `now`; no-op when
    /// the key is not registered.
    pub fn bump_last_used(&mut self, key: &String, now: u64)
        ensures
            bumped(old(self)@, final(self)@, key@, now),
            match old(self).spec_get(key@) {
                Some(p) => final(self).spec_get(key@) == Some(Project { last_used: now, ..p }),
                None => final(self)@ == old(self)@,
            },
            forall|k: Seq<char>| path_id(k) != path_id(key@) ==> #[trigger] final(self).spec_get(k) == old(self).spec_get(k),
    {
        proof {
            use_type_invariant(&*self);
        }
        match self.position(key) {
            Some(i) => {
                proof {
                    let p = self@[i as int];
                    lemma_update(self@, key_of(), i as int, Project { last_used: now, ..p });
                }
                let mut items = Vec::new();
                std::mem::swap(&mut items, &mut self.by_key);
                items[i].last_used = now;
                self.by_key = items;
                proof {
                    lemma_lookup_index(old(self)@, key_of(), i as int);
                }
                assert forall|j: int| 0 <= j < old(self)@.len() && j != i implies path_id(old(self)@[j].key@) != path_id(key@) by {
                    assert(key_of()(old(self)@[j]) != key_of()(old(self)@[i as int]));
                }
            },
            None => {
                assert forall|j: int| 0 <= j < old(self)@.len() implies path_id(old(self)@[j].key@) != path_id(key@) by {
                    assert(key_of()(old(self)@[j]) != path_id(key@));
                }
                assert(self@ =~= old(self)@);
            },
        }
    }

    /// Replaces the state of the project under `key` and returns the prior
    /// state; refused when the key is not registered.
    pub fn transition_state(&mut self, key: &String, new_state: ProjectState) -> (r: Result<ProjectState, RegistryError>)
        ensures
            match r {
                Ok(prior) => transitioned(*old(self), *final(self), key@, new_state, prior),
                Err(e) => !old(self).contains(key@) && final(self)@ == old(self)@ && e
                    == (RegistryError::UnknownProject { key: *key }),
            },
    {
        proof {
            use_type_invariant(&*self);
        }
        match self.position(key) {
            Some(i) => {
                proof {
                    let p = self@[i as int];
                    lemma_update(self@, key_of(), i as int, Project { state: new_state, ..p });
                    lemma_lookup_index(old(self)@, key_of(), i as int);
                }
                let mut st = new_state;
                let mut items = Vec::new();
                std::mem::swap(&mut items, &mut self.by_key);
                std::mem::swap(&mut items[i].state, &mut st);
                self.by_key = items;
                assert(self@ == old(self)@.update(i as int, Project { state: new_state, ..old(self)@[i as int] }));
                Ok(st)
            },
            None => Err(RegistryError::UnknownProject { key: key.clone() }),
        }
    }

    /// Removes the project under `key` and returns it, if registered.
    pub fn remove(&mut self, key: &String) -> (r: Option<Project>)
        ensures
            r == old(self).spec_get(key@),
            !final(self).contains(key@),
            final(self).spec_get(key@) is None,
            forall|k: Seq<char>| path_id(k) != path_id(key@) ==> #[trigger] final(self).spec_get(k) == old(self).spec_get(k),
            match r {
                Some(_) => exists|i: int|
                    0 <= i < old(self)@.len() && path_id(old(self)@[i].key@) == path_id(key@) && final(self)@ == old(self)@.remove(i),
                None => final(self)@ == old(self)@,
            },
    {
        proof {
            use_type_invariant(&*self);
        }
        match self.position(key) {
            Some(i) => {
                proof {
                    lemma_remove(self@, key_of(), i as int);
                    lemma_lookup_index(old(self)@, key_of(), i as int);
                }
                let mut items = Vec::new();
                std::mem::swap(&mut items, &mut self.by_key);
                let p = items.remove(i);
                self.by_key = items;
                assert forall|j: int| 0 <= j < self@.len() implies #[trigger] key_of()(self@[j]) != path_id(key@) by {
                    assert(key_of()(old(self)@[i as int]) == path_id(key@));
                }
                Some(p)
            },
            None => {
                assert(self@ =~= old(self)@);
                None
            },
        }
    }

    /// Number of projects that count toward the LRU cap.
    pub fn count_active(&self) -> (n: usize)
        ensures
            n == active_count_of(self@),
    {
        proof {
            use_type_invariant(&*self);
        }
        let mut n: usize = 0;
        let mut i: usize = 0;
        while i < self.by_key.len()
            invariant
                i <= self@.len(),
                n <= i,
                n == active_count_of(self@.take(i as int)),
            decreases self@.len() - i,
        {
            assert(self@.take(i as int + 1).drop_last() =~= self@.take(i as int));
            if self.by_key[i].state.counts_toward_cap() {
                n += 1;
            }
            i += 1;
        }
        assert(self@.take(i as int) =~= self@);
        n
    }

    /// Key of the least recently used healthy project, if any.
    pub fn find_lru_for_eviction(&self) -> (r: Option<String>)
        ensures
            match r {
                Some(k) => exists|i: int| is_lru_healthy(self@, i) && k == self@[i].key,
                None => !any_healthy(self@),
            },
    {
        proof {
            use_type_invariant(&*self);
        }
        let mut best: Option<usize> = None;
        let mut i: usize = 0;
        while i < self.by_key.len()
            invariant
                i <= self@.len(),
                match best {
                    Some(b) => {
                        &&& b < i
                        &&& self@[b as int].state.is_healthy()
                        &&& forall|j: int| 0 <= j < i && #[trigger] self@[j].state.is_healthy() ==> self@[b as int].last_used <= self@[j].last_used
                        &&& forall|j: int| 0 <= j < b && #[trigger] self@[j].state.is_healthy() ==> self@[b as int].last_used < self@[j].last_used
                    },
                    None => forall|j: int| 0 <= j < i ==> !(#[trigger] self@[j].state.is_healthy()),
                },
            decreases self@.len() - i,
        {
            if let ProjectState::Healthy { .. } = &self.by_key[i].state {
                match best {
                    Some(b) => {
                        if self.by_key[i].last_used < self.by_key[b].last_used {
                            best = Some(i);
                        }
                    },
                    None => {
                        best = Some(i);
                    },
                }
            }
            i += 1;
        }
        match best {
            Some(b) => {
                assert(is_lru_healthy(self@, b as int));
                Some(self.by_key[b].key.clone())
            },
            None => None,
        }
    }

    /// All projects, in registration order.
    pub fn iter(&self) -> (r: &Vec<Project>)
        ensures
            r@ == self@,
    {
        proof {
            use_type_invariant(&*self);
        }
        &self.by_key
    }
}

/// `after` is `before` with the state of the project under `key` replaced by
/// `state`; `prior` was its state.
pub open spec fn transitioned(
    before: Registry,
    after: Registry,
    key: Seq<char>,
    state: ProjectState,
    prior: ProjectState,
) -> bool {
    &&& exists|i: int|
        0 <= i < before@.len() && path_id(before@[i].key@) == path_id(key) && prior == before@[i].state && after@
            == before@.update(i, Project { state, ..before@[i] })
    &&& before.spec_get(key) matches Some(p) && prior == p.state && after.spec_get(key) == Some(
        Project { state, ..p },
    )
    &&& forall|k: Seq<char>| path_id(k) != path_id(key) ==> #[trigger] after.spec_get(k) == before.spec_get(k)
}

/// A project counts toward the cap exactly while it is spawning or healthy,
/// and the active count is the number of such projects, never more than
/// the projects held.
pub proof fn law_active_count_counts_spawning_and_healthy_projects(s: Seq<Project>)
    ensures
        forall|i: int| 0 <= i < s.len() ==> (#[trigger] s[i].state.spec_counts_toward_cap() <==> (s[i].state is Spawning
            || s[i].state is Healthy)),
        active_count_of(s) == s.filter(|p: Project| p.state is Spawning || p.state is Healthy).len(),
        active_count_of(s) <= s.len(),
    decreases s.len(),
{
    let fa = |p: Project| p.state is Spawning || p.state is Healthy;
    if s.len() > 0 {
        let t = s.drop_last();
        law_active_count_counts_spawning_and_healthy_projects(t);
        t.lemma_filter_push(s.last(), fa);
        assert(t.push(s.last()) =~= s);
    } else {
        assert(s.filter(fa) =~= Seq::<Project>::empty());
    }
}

/// The project to evict is determined: at most one position holds the least
/// recently used healthy project, and it was used no later than any healthy
/// project.
pub proof fn law_the_least_recently_used_project_is_unique(s: Seq<Project>, i: int, j: int)
    requires
        is_lru_healthy(s, i),
        is_lru_healthy(s, j),
    ensures
        i == j,
        forall|k: int| 0 <= k < s.len() && #[trigger] s[k].state.is_healthy() ==> s[i].last_used <= s[k].last_used,
{
    if i < j {
        assert(s[j].last_used < s[i].last_used);
    } else if j < i {
        assert(s[i].last_used < s[j].last_used);
    }
}

} // verus!
