//! The registry of projects the daemon knows about, keyed by project path.
//! `C` is the handle of a running child process; the registry only stores it.
use vstd::prelude::*;
use crate::clock;
use crate::paths::{is_absolute, path_id, path_key, same_key, segments, starts_with_cur_dir, PathId};
use crate::keyed::{has_key, lookup, unique_keys, lemma_lookup_index, lemma_push, lemma_update};

verus! {

/// Lifecycle of a registered project.
#[derive(Debug)]
pub enum ProjectState<C> {
    Spawning,
    Healthy { port: u16, child: C },
    Evicting,
    Dead { reason: String },
}

impl<C> ProjectState<C> {
    pub open spec fn is_healthy(&self) -> bool {
        self is Healthy
    }

    /// Spawning and healthy projects occupy a slot under the LRU cap.
    pub open spec fn is_active(&self) -> bool {
        self is Spawning || self is Healthy
    }
}

#[derive(Debug)]
pub struct Project<C> {
    pub key: String,
    pub display_name: String,
    /// Clock reading (nanoseconds) of the last use.
    pub last_used: u64,
    pub state: ProjectState<C>,
    /// Clock reading (nanoseconds) of the last state change.
    pub since: u64,
}

/// Errors of the registry operations.
#[derive(Debug, PartialEq, Eq)]
pub enum RegistryError {
    AlreadyRegistered { key: String },
    UnknownProject { key: String },
}

impl RegistryError {
    /// The message the daemon reports for this error.
    pub open spec fn spec_message(&self) -> Seq<char> {
        match self {
            RegistryError::AlreadyRegistered { key } => "project already registered: "@ + key@,
            RegistryError::UnknownProject { key } => "unknown project: "@ + key@,
        }
    }

    pub fn message(&self) -> (m: String)
        ensures
            m@ == self.spec_message(),
    {
        match self {
            RegistryError::AlreadyRegistered { key } => {
                let mut m = String::from_str("project already registered: ");
                m.append(key.as_str());
                m
            },
            RegistryError::UnknownProject { key } => {
                let mut m = String::from_str("unknown project: ");
                m.append(key.as_str());
                m
            },
        }
    }
}

impl<C> Project<C> {
    /// A project whose `last_used` and `since` are both the current clock reading.
    pub fn new(key: String, display_name: String, state: ProjectState<C>) -> (p: Self)
        ensures
            p.key == key,
            p.display_name == display_name,
            p.state == state,
            p.last_used == p.since,
    {
        let now = clock::now();
        Self::new_at(key, display_name, state, now)
    }

    /// A project created at clock reading `now`.
    pub fn new_at(key: String, display_name: String, state: ProjectState<C>, now: u64) -> (p: Self)
        ensures
            p == (Project { key, display_name, last_used: now, state, since: now }),
    {
        Project { key, display_name, last_used: now, state, since: now }
    }

    /// Sets the state, stamps `since` with the current clock reading, and
    /// returns the prior state. The stamp never goes back: a reading before
    /// the earlier `since` leaves `since` as it was.
    pub fn set_state(&mut self, state: ProjectState<C>) -> (prior: ProjectState<C>)
        ensures
            prior == old(self).state,
            *final(self) == (Project { state, since: final(self).since, ..*old(self) }),
            final(self).since >= old(self).since,
    {
        let now = clock::now();
        let at = if now < self.since { self.since } else { now };
        self.set_state_at(state, at)
    }

    /// Sets the state at clock reading `now` and returns the prior state.
    pub fn set_state_at(&mut self, state: ProjectState<C>, now: u64) -> (prior: ProjectState<C>)
        ensures
            prior == old(self).state,
            *final(self) == (Project { state, since: now, ..*old(self) }),
    {
        let mut state = state;
        std::mem::swap(&mut self.state, &mut state);
        self.since = now;
        state
    }
}

/// What the key of a project is compared by: keys are paths.
pub open spec fn key_of<C>() -> spec_fn(Project<C>) -> PathId {
    |p: Project<C>| path_id(p.key@)
}

#[derive(Debug)]
pub struct Registry<C> {
    by_key: Vec<Project<C>>,
}

impl<C> View for Registry<C> {
    type V = Seq<Project<C>>;

    closed spec fn view(&self) -> Seq<Project<C>> {
        self.by_key@
    }
}

/// Number of projects in `s` that occupy a slot under the LRU cap.
pub open spec fn active_count_of<C>(s: Seq<Project<C>>) -> nat
    decreases s.len(),
{
    if s.len() == 0 {
        0
    } else {
        active_count_of(s.drop_last()) + if s.last().state.is_active() { 1nat } else { 0nat }
    }
}

/// Number of healthy projects in `s`.
pub open spec fn healthy_count_of<C>(s: Seq<Project<C>>) -> nat
    decreases s.len(),
{
    if s.len() == 0 {
        0
    } else {
        healthy_count_of(s.drop_last()) + if s.last().state.is_healthy() { 1nat } else { 0nat }
    }
}

/// Replacing position `i` changes the healthy count by what the old and new
/// records contribute.
pub proof fn lemma_healthy_count_update<C>(s: Seq<Project<C>>, i: int, x: Project<C>)
    requires
        0 <= i < s.len(),
    ensures
        healthy_count_of(s.update(i, x)) + (if s[i].state.is_healthy() { 1int } else { 0int })
            == healthy_count_of(s) + (if x.state.is_healthy() { 1int } else { 0int }),
    decreases s.len(),
{
    let t = s.update(i, x);
    if i == s.len() - 1 {
        assert(t.drop_last() =~= s.drop_last());
    } else {
        assert(t.drop_last() =~= s.drop_last().update(i, x));
        lemma_healthy_count_update(s.drop_last(), i, x);
    }
}

/// Position `i` holds the least recently used healthy project of `s`, the
/// first one in order among those used equally long ago.
pub open spec fn is_lru_healthy<C>(s: Seq<Project<C>>, i: int) -> bool {
    &&& 0 <= i < s.len()
    &&& s[i].state.is_healthy()
    &&& forall|j: int| 0 <= j < s.len() && #[trigger] s[j].state.is_healthy() ==> s[i].last_used <= s[j].last_used
    &&& forall|j: int| 0 <= j < i && #[trigger] s[j].state.is_healthy() ==> s[i].last_used < s[j].last_used
}

/// `s` holds a healthy project.
pub open spec fn any_healthy<C>(s: Seq<Project<C>>) -> bool {
    exists|i: int| 0 <= i < s.len() && #[trigger] s[i].state.is_healthy()
}

/// Position `i` of `new` is position `i` of `old` with `last_used` set to `now`
/// where the key is `key`, and unchanged elsewhere.
pub open spec fn bumped<C>(old: Seq<Project<C>>, new: Seq<Project<C>>, key: Seq<char>, now: u64) -> bool {
    &&& new.len() == old.len()
    &&& forall|i: int| 0 <= i < old.len() ==> #[trigger] new[i] == if path_id(old[i].key@) == path_id(key) {
        Project { last_used: now, ..old[i] }
    } else {
        old[i]
    }
}

/// `after` is `before` with the state of the project under `key` replaced by
/// `state` at clock reading `now`; `prior` was its state.
pub open spec fn transitioned<C>(
    before: Registry<C>,
    after: Registry<C>,
    key: Seq<char>,
    state: ProjectState<C>,
    prior: ProjectState<C>,
    now: u64,
) -> bool {
    &&& exists|i: int|
        0 <= i < before@.len() && path_id(before@[i].key@) == path_id(key) && prior == before@[i].state && after@
            == before@.update(i, Project { state, since: now, ..before@[i] })
    &&& before.spec_get(key) matches Some(p) && prior == p.state && after.spec_get(key) == Some(
        Project { state, since: now, ..p },
    )
    &&& forall|k: Seq<char>| path_id(k) != path_id(key) ==> #[trigger] after.spec_get(k) == before.spec_get(k)
}

impl<C> Registry<C> {
    /// Keys are unique.
    #[verifier::type_invariant]
    pub closed spec fn wf(&self) -> bool {
        unique_keys(self@, key_of::<C>())
    }

    /// A well-formed registry holds no two projects under the same path.
    pub proof fn lemma_keys_unique(&self)
        requires
            self.wf(),
        ensures
            unique_keys(self@, key_of::<C>()),
    {
    }

    /// The project registered under `key`, if any.
    pub open spec fn spec_get(&self, key: Seq<char>) -> Option<Project<C>> {
        lookup(self@, key_of::<C>(), path_id(key))
    }

    pub open spec fn contains(&self, key: Seq<char>) -> bool {
        has_key(self@, key_of::<C>(), path_id(key))
    }

    pub fn new() -> (r: Self)
        ensures
            r@ == Seq::<Project<C>>::empty(),
    {
        Registry { by_key: Vec::new() }
    }

    /// Position of the project whose key is the same path as `key`, if any.
    fn position(&self, key: &String) -> (r: Option<usize>)
        ensures
            match r {
                Some(i) => i < self@.len() && path_id(self@[i as int].key@) == path_id(key@),
                None => !self.contains(key@),
            },
    {
        proof {
            use_type_invariant(&*self);
        }
        let want = path_key(key.as_str());
        let mut i: usize = 0;
        while i < self.by_key.len()
            invariant
                i <= self.by_key@.len(),
                want.id() == path_id(key@),
                forall|j: int| 0 <= j < i ==> path_id(#[trigger] self.by_key@[j].key@) != path_id(key@),
            decreases self.by_key@.len() - i,
        {
            let here = path_key(self.by_key[i].key.as_str());
            if same_key(&here, &want) {
                return Some(i);
            }
            i += 1;
        }
        assert forall|j: int| 0 <= j < self@.len() implies #[trigger] key_of::<C>()(self@[j]) != path_id(key@) by {
            assert(path_id(self.by_key@[j].key@) != path_id(key@));
        }
        None
    }

    pub fn get(&self, key: &String) -> (r: Option<&Project<C>>)
        ensures
            match r {
                Some(p) => self.spec_get(key@) == Some(*p) && path_id(p.key@) == path_id(key@),
                None => self.spec_get(key@) is None,
            },
    {
        proof {
            use_type_invariant(&*self);
        }
        match self.position(key) {
            Some(i) => {
                proof {
                    lemma_lookup_index(self@, key_of::<C>(), i as int);
                }
                Some(&self.by_key[i])
            },
            None => None,
        }
    }

    /// Inserts a fresh project; refused when its key is already registered.
    pub fn insert(&mut self, project: Project<C>) -> (r: Result<(), RegistryError>)
        ensures
            match r {
                Ok(()) => {
                    &&& !old(self).contains(project.key@)
                    &&& final(self)@ == old(self)@.push(project)
                    &&& final(self).spec_get(project.key@) == Some(project)
                    &&& forall|k: Seq<char>| path_id(k) != path_id(project.key@) ==> #[trigger] final(self).spec_get(k) == old(self).spec_get(k)
                },
                Err(e) => old(self).contains(project.key@) && final(self)@ == old(self)@ && e
                    == (RegistryError::AlreadyRegistered { key: project.key }),
            },
    {
        proof {
            use_type_invariant(&*self);
        }
        match self.position(&project.key) {
            Some(i) => {
                assert(key_of::<C>()(self@[i as int]) == path_id(project.key@));
                Err(RegistryError::AlreadyRegistered { key: project.key.clone() })
            },
            None => {
                proof {
                    lemma_push(self@, key_of::<C>(), project);
                }
                let mut items = Vec::new();
                std::mem::swap(&mut items, &mut self.by_key);
                items.push(project);
                self.by_key = items;
                assert(self@ == old(self)@.push(project));
                assert(!old(self).contains(project.key@));
                Ok(())
            },
        }
    }

    /// Sets the `last_used` of the project under `key` to `now`; no-op when
    /// the key is not registered.
    pub fn bump_last_used(&mut self, key: &String, now: u64)
        ensures
            bumped(old(self)@, final(self)@, key@, now),
            match old(self).spec_get(key@) {
                Some(p) => final(self).spec_get(key@) == Some(Project { last_used: now, ..p }),
                None => final(self)@ == old(self)@,
            },
            forall|k: Seq<char>| path_id(k) != path_id(key@) ==> #[trigger] final(self).spec_get(k) == old(self).spec_get(k),
    {
        proof {
            use_type_invariant(&*self);
        }
        match self.position(key) {
            Some(i) => {
                proof {
                    let p = self@[i as int];
                    lemma_update(self@, key_of::<C>(), i as int, Project { last_used: now, ..p });
                }
                let mut items = Vec::new();
                std::mem::swap(&mut items, &mut self.by_key);
                items[i].last_used = now;
                self.by_key = items;
                proof {
                    lemma_lookup_index(old(self)@, key_of::<C>(), i as int);
                }
                assert forall|j: int| 0 <= j < old(self)@.len() && j != i implies path_id(old(self)@[j].key@) != path_id(key@) by {
                    assert(key_of::<C>()(old(self)@[j]) != key_of::<C>()(old(self)@[i as int]));
                }
            },
            None => {
                assert forall|j: int| 0 <= j < old(self)@.len() implies path_id(old(self)@[j].key@) != path_id(key@) by {
                    assert(key_of::<C>()(old(self)@[j]) != path_id(key@));
                }
                assert(self@ =~= old(self)@);
            },
        }
    }

    /// Replaces the state of the project under `key`, stamping `since` with
    /// the current clock reading (never before its earlier `since`), and
    /// returns the prior state; refused when the key is not registered.
    pub fn transition_state(&mut self, key: &String, new_state: ProjectState<C>) -> (r: Result<
        ProjectState<C>,
        RegistryError,
    >)
        ensures
            final(self)@.len() == old(self)@.len(),
            match r {
                Ok(prior) => exists|t: u64|
                    t >= old(self).spec_get(key@)->0.since && transitioned(*old(self), *final(self), key@, new_state, prior, t),
                Err(e) => !old(self).contains(key@) && final(self)@ == old(self)@ && e
                    == (RegistryError::UnknownProject { key: *key }),
            },
    {
        proof {
            use_type_invariant(&*self);
        }
        let now = clock::now();
        let at = match self.get(key) {
            Some(p) => if now < p.since { p.since } else { now },
            None => now,
        };
        self.transition_state_at(key, new_state, at)
    }

    /// `transition_state` at clock reading `now`.
    pub fn transition_state_at(&mut self, key: &String, new_state: ProjectState<C>, now: u64) -> (r:
        Result<ProjectState<C>, RegistryError>)
        ensures
            match r {
                Ok(prior) => transitioned(*old(self), *final(self), key@, new_state, prior, now),
                Err(e) => !old(self).contains(key@) && final(self)@ == old(self)@ && e
                    == (RegistryError::UnknownProject { key: *key }),
            },
    {
        proof {
            use_type_invariant(&*self);
        }
        match self.position(key) {
            Some(i) => {
                proof {
                    let p = self@[i as int];
                    lemma_update(self@, key_of::<C>(), i as int, Project { state: new_state, since: now, ..p });
                }
                proof {
                    lemma_lookup_index(old(self)@, key_of::<C>(), i as int);
                }
                let mut items = Vec::new();
                std::mem::swap(&mut items, &mut self.by_key);
                let prior = items[i].set_state_at(new_state, now);
                self.by_key = items;
                assert(self@ == old(self)@.update(i as int, Project { state: new_state, since: now, ..old(self)@[i as int] }));
                Ok(prior)
            },
            None => Err(RegistryError::UnknownProject { key: key.clone() }),
        }
    }

    /// Number of projects that occupy a slot under the LRU cap (spawning or healthy).
    pub fn count_active(&self) -> (n: usize)
        ensures
            n == active_count_of(self@),
    {
        proof {
            use_type_invariant(&*self);
        }
        let mut n: usize = 0;
        let mut i: usize = 0;
        while i < self.by_key.len()
            invariant
                i <= self@.len(),
                n <= i,
                n == active_count_of(self@.take(i as int)),
            decreases self@.len() - i,
        {
            assert(self@.take(i as int + 1).drop_last() =~= self@.take(i as int));
            match &self.by_key[i].state {
                ProjectState::Spawning | ProjectState::Healthy { .. } => {
                    n += 1;
                },
                _ => {},
            }
            i += 1;
        }
        assert(self@.take(i as int) =~= self@);
        n
    }

    /// Number of healthy projects.
    pub fn count_healthy(&self) -> (n: usize)
        ensures
            n == healthy_count_of(self@),
    {
        proof {
            use_type_invariant(&*self);
        }
        let mut n: usize = 0;
        let mut i: usize = 0;
        while i < self.by_key.len()
            invariant
                i <= self@.len(),
                n <= i,
                n == healthy_count_of(self@.take(i as int)),
            decreases self@.len() - i,
        {
            assert(self@.take(i as int + 1).drop_last() =~= self@.take(i as int));
            if let ProjectState::Healthy { .. } = &self.by_key[i].state {
                n += 1;
            }
            i += 1;
        }
        assert(self@.take(i as int) =~= self@);
        n
    }

    /// Key of the least recently used healthy project (the first in order
    /// among equals), if any project is healthy.
    pub fn find_lru_for_eviction(&self) -> (r: Option<String>)
        ensures
            match r {
                Some(k) => exists|i: int| is_lru_healthy(self@, i) && k == self@[i].key,
                None => !any_healthy(self@),
            },
    {
        proof {
            use_type_invariant(&*self);
        }
        let mut best: Option<usize> = None;
        let mut i: usize = 0;
        while i < self.by_key.len()
            invariant
                i <= self@.len(),
                match best {
                    Some(b) => {
                        &&& b < i
                        &&& self@[b as int].state.is_healthy()
                        &&& forall|j: int| 0 <= j < i && #[trigger] self@[j].state.is_healthy() ==> self@[b as int].last_used <= self@[j].last_used
                        &&& forall|j: int| 0 <= j < b && #[trigger] self@[j].state.is_healthy() ==> self@[b as int].last_used < self@[j].last_used
                    },
                    None => forall|j: int| 0 <= j < i ==> !(#[trigger] self@[j].state.is_healthy()),
                },
            decreases self@.len() - i,
        {
            if let ProjectState::Healthy { .. } = &self.by_key[i].state {
                match best {
                    Some(b) => {
                        if self.by_key[i].last_used < self.by_key[b].last_used {
                            best = Some(i);
                        }
                    },
                    None => {
                        best = Some(i);
                    },
                }
            }
            i += 1;
        }
        match best {
            Some(b) => {
                assert(is_lru_healthy(self@, b as int));
                Some(self.by_key[b].key.clone())
            },
            None => None,
        }
    }

    /// All projects, in registration order.
    pub fn iter(&self) -> (r: &Vec<Project<C>>)
        ensures
            r@ == self@,
    {
        proof {
            use_type_invariant(&*self);
        }
        &self.by_key
    }
}


/// One call made on a registry, as far as its outcome shows: an insert and
/// whether it was accepted, a bump, or a state transition and whether it was
/// accepted.
pub enum RegistryCall<C> {
    Insert { project: Project<C>, ok: bool },
    Bump { key: Seq<char>, now: u64 },
    Transition { key: Seq<char>, state: ProjectState<C>, ok: bool },
}

/// `after` is what `call` made of `before`, as the contract of the method
/// called states it.
pub open spec fn call_made<C>(before: Registry<C>, after: Registry<C>, call: RegistryCall<C>) -> bool {
    match call {
        RegistryCall::Insert { project, ok } => if ok {
            !before.contains(project.key@) && after@ == before@.push(project)
        } else {
            before.contains(project.key@) && after@ == before@
        },
        RegistryCall::Bump { key, now } => bumped(before@, after@, key, now),
        RegistryCall::Transition { key, state, ok } => if ok {
            exists|prior: ProjectState<C>, t: u64| transitioned(before, after, key, state, prior, t)
        } else {
            !before.contains(key) && after@ == before@
        },
    }
}

/// `call` is an accepted insert of a project under the same path as `key`.
pub open spec fn inserted<C>(call: RegistryCall<C>, key: Seq<char>) -> bool {
    call matches RegistryCall::Insert { project, ok } && ok && path_id(project.key@) == path_id(key)
}

/// Registries whose projects carry the same keys position by position hold
/// the same keys.
proof fn lemma_same_keys<C>(before: Registry<C>, after: Registry<C>)
    requires
        after@.len() == before@.len(),
        forall|i: int| 0 <= i < before@.len() ==> #[trigger] after@[i].key == before@[i].key,
    ensures
        forall|k: Seq<char>| #[trigger] after.contains(k) == before.contains(k),
{
    assert forall|k: Seq<char>| #[trigger] after.contains(k) == before.contains(k) by {
        if after.contains(k) {
            let i = choose|i: int| 0 <= i < after@.len() && #[trigger] key_of::<C>()(after@[i]) == path_id(k);
            assert(key_of::<C>()(before@[i]) == path_id(k));
        }
        if before.contains(k) {
            let i = choose|i: int| 0 <= i < before@.len() && #[trigger] key_of::<C>()(before@[i]) == path_id(k);
            assert(key_of::<C>()(after@[i]) == path_id(k));
        }
    }
}

/// A registry holds a project under a key exactly when some call since it
/// was new inserted one under that path and was accepted; and the project
/// found under a key is registered under that same path.
pub proof fn law_registered_keys_are_the_inserted_ones<C>(
    regs: Seq<Registry<C>>,
    calls: Seq<RegistryCall<C>>,
    key: Seq<char>,
)
    requires
        regs.len() == calls.len() + 1,
        regs[0]@ == Seq::<Project<C>>::empty(),
        forall|i: int| 0 <= i < regs.len() ==> (#[trigger] regs[i]).wf(),
        forall|i: int| 0 <= i < calls.len() ==> call_made(regs[i], regs[i + 1], #[trigger] calls[i]),
    ensures
        regs.last().contains(key) <==> exists|i: int| 0 <= i < calls.len() && inserted(#[trigger] calls[i], key),
        regs.last().spec_get(key) matches Some(p) ==> path_id(p.key@) == path_id(key),
    decreases calls.len(),
{
    let last = regs.last();
    if last.contains(key) {
        let i = choose|i: int| 0 <= i < last@.len() && #[trigger] key_of::<C>()(last@[i]) == path_id(key);
        lemma_lookup_index(last@, key_of::<C>(), i);
    }
    if calls.len() == 0 {
        assert(!last.contains(key));
    } else {
        let n = calls.len() - 1;
        let rs = regs.drop_last();
        let cs = calls.drop_last();
        assert forall|i: int| 0 <= i < rs.len() implies (#[trigger] rs[i]).wf() by {
            assert(rs[i] == regs[i]);
        }
        assert forall|i: int| 0 <= i < cs.len() implies call_made(rs[i], rs[i + 1], #[trigger] cs[i]) by {
            assert(rs[i] == regs[i] && rs[i + 1] == regs[i + 1] && cs[i] == calls[i]);
        }
        law_registered_keys_are_the_inserted_ones(rs, cs, key);
        let before = regs[n];
        assert(rs.last() == before);
        assert(regs[n + 1] == last);
        assert(call_made(before, last, calls[n]));
        let earlier = exists|i: int| 0 <= i < cs.len() && inserted(#[trigger] cs[i], key);
        assert(earlier == exists|i: int| 0 <= i < n && inserted(#[trigger] calls[i], key)) by {
            if earlier {
                let i = choose|i: int| 0 <= i < cs.len() && inserted(#[trigger] cs[i], key);
                assert(cs[i] == calls[i]);
            }
            if exists|i: int| 0 <= i < n && inserted(#[trigger] calls[i], key) {
                let i = choose|i: int| 0 <= i < n && inserted(#[trigger] calls[i], key);
                assert(cs[i] == calls[i]);
            }
        }
        match calls[n] {
            RegistryCall::Insert { project, ok } => {
                if ok {
                    if path_id(project.key@) == path_id(key) {
                        lemma_lookup_index(last@, key_of::<C>(), before@.len() as int);
                    } else {
                        if last.contains(key) {
                            let i = choose|i: int| 0 <= i < last@.len() && #[trigger] key_of::<C>()(last@[i]) == path_id(key);
                            assert(i < before@.len());
                            assert(last@[i] == before@[i]);
                        }
                        if before.contains(key) {
                            let i = choose|i: int| 0 <= i < before@.len() && #[trigger] key_of::<C>()(before@[i]) == path_id(key);
                            assert(last@[i] == before@[i]);
                        }
                    }
                }
            },
            RegistryCall::Bump { key: k, now } => {
                assert forall|i: int| 0 <= i < before@.len() implies #[trigger] last@[i].key == before@[i].key by {
                    assert(last@[i] == if path_id(before@[i].key@) == path_id(k) {
                        Project { last_used: now, ..before@[i] }
                    } else {
                        before@[i]
                    });
                }
                lemma_same_keys(before, last);
            },
            RegistryCall::Transition { key: k, state, ok } => {
                if ok {
                    let (prior, t) = choose|prior: ProjectState<C>, t: u64| transitioned(before, last, k, state, prior, t);
                    let j = choose|j: int|
                        0 <= j < before@.len() && path_id(before@[j].key@) == path_id(k) && prior == before@[j].state
                            && last@ == before@.update(j, Project { state, since: t, ..before@[j] });
                    assert forall|i: int| 0 <= i < before@.len() implies #[trigger] last@[i].key == before@[i].key by {}
                    lemma_same_keys(before, last);
                }
            },
        }
    }
}

/// A registry finds a project only under the project's own path: the
/// project found under `key` starts at the root exactly when `key` does and
/// has the same named segments, so projects whose paths differ in any
/// segment are never taken for one another.
pub proof fn law_a_project_is_found_only_under_its_own_path<C>(reg: Registry<C>, key: Seq<char>)
    requires
        reg.wf(),
    ensures
        reg.spec_get(key) matches Some(p) ==> is_absolute(p.key@) == is_absolute(key) && segments(p.key@)
            == segments(key),
        reg.contains(key) <==> exists|i: int|
            0 <= i < reg@.len() && is_absolute(#[trigger] reg@[i].key@) == is_absolute(key)
                && starts_with_cur_dir(reg@[i].key@) == starts_with_cur_dir(key) && segments(reg@[i].key@)
                == segments(key),
{
    if reg.contains(key) {
        let i = choose|i: int| 0 <= i < reg@.len() && #[trigger] key_of::<C>()(reg@[i]) == path_id(key);
        lemma_lookup_index(reg@, key_of::<C>(), i);
    }
    if exists|i: int|
        0 <= i < reg@.len() && is_absolute(#[trigger] reg@[i].key@) == is_absolute(key) && starts_with_cur_dir(
            reg@[i].key@,
        ) == starts_with_cur_dir(key) && segments(reg@[i].key@) == segments(key) {
        let i = choose|i: int|
            0 <= i < reg@.len() && is_absolute(#[trigger] reg@[i].key@) == is_absolute(key)
                && starts_with_cur_dir(reg@[i].key@) == starts_with_cur_dir(key) && segments(reg@[i].key@)
                == segments(key);
        assert(key_of::<C>()(reg@[i]) == path_id(key));
    }
}

/// The active count is the number of projects that are spawning or healthy,
/// and the healthy count the number of healthy ones; no count exceeds the
/// projects held.
pub proof fn law_counts_count_projects_by_state<C>(s: Seq<Project<C>>)
    ensures
        active_count_of(s) == s.filter(|p: Project<C>| p.state is Spawning || p.state is Healthy).len(),
        healthy_count_of(s) == s.filter(|p: Project<C>| p.state is Healthy).len(),
        healthy_count_of(s) <= active_count_of(s) <= s.len(),
    decreases s.len(),
{
    let fa = |p: Project<C>| p.state is Spawning || p.state is Healthy;
    let fh = |p: Project<C>| p.state is Healthy;
    if s.len() > 0 {
        let t = s.drop_last();
        law_counts_count_projects_by_state(t);
        t.lemma_filter_push(s.last(), fa);
        t.lemma_filter_push(s.last(), fh);
        assert(t.push(s.last()) =~= s);
    } else {
        assert(s.filter(fa) =~= Seq::<Project<C>>::empty());
        assert(s.filter(fh) =~= Seq::<Project<C>>::empty());
    }
}

/// A bump (as a heartbeat or a repeated `cd` makes it) sets the last use of
/// the project under `key` to `now` and of no other project; under a key
/// that is not registered it changes nothing.
pub proof fn law_a_bump_touches_only_its_project<C>(
    before: Registry<C>,
    after: Registry<C>,
    key: Seq<char>,
    now: u64,
)
    requires
        before.wf(),
        bumped(before@, after@, key, now),
    ensures
        before.spec_get(key) matches Some(p) ==> after.spec_get(key) == Some(Project { last_used: now, ..p }),
        before.spec_get(key) is None ==> after@ == before@,
        forall|k: Seq<char>| path_id(k) != path_id(key) ==> #[trigger] after.spec_get(k) == before.spec_get(k),
{
    let s = before@;
    if before.contains(key) {
        let i = choose|i: int| 0 <= i < s.len() && #[trigger] key_of::<C>()(s[i]) == path_id(key);
        lemma_lookup_index(s, key_of::<C>(), i);
        let x = Project { last_used: now, ..s[i] };
        assert forall|j: int| 0 <= j < s.len() implies #[trigger] after@[j] == s.update(i, x)[j] by {
            if j != i {
                assert(key_of::<C>()(s[j]) != key_of::<C>()(s[i]));
            }
        }
        assert(after@ =~= s.update(i, x));
        lemma_update(s, key_of::<C>(), i, x);
    } else {
        assert forall|j: int| 0 <= j < s.len() implies #[trigger] after@[j] == s[j] by {
            assert(key_of::<C>()(s[j]) != path_id(key));
        }
        assert(after@ =~= s);
    }
}

/// The project to evict is determined: at most one position holds the least
/// recently used healthy project, and it was used no later than any healthy
/// project.
pub proof fn law_the_least_recently_used_project_is_unique<C>(s: Seq<Project<C>>, i: int, j: int)
    requires
        is_lru_healthy(s, i),
        is_lru_healthy(s, j),
    ensures
        i == j,
        forall|k: int| 0 <= k < s.len() && #[trigger] s[k].state.is_healthy() ==> s[i].last_used <= s[k].last_used,
{
    if i < j {
        assert(s[j].last_used < s[i].last_used);
    } else if j < i {
        assert(s[i].last_used < s[j].last_used);
    }
}

} // verus!
