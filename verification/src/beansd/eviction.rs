//! The periodic eviction sweep: while more projects are healthy than the LRU
//! cap allows, the least recently used healthy one is stopped. The caller
//! runs the loop, asking `sweep_step` for the next project to stop and
//! stopping it through the supervisor.
use vstd::prelude::*;
use crate::paths::path_id;
use crate::keyed::lemma_lookup_index;
use crate::beansd::registry::{
    any_healthy, healthy_count_of, is_lru_healthy, lemma_healthy_count_update, transitioned, key_of, Project,
    ProjectState, Registry,
};

verus! {

pub struct EvictorConfig {
    pub lru_cap: usize,
    pub poll_interval: std::time::Duration,
}

/// The project the sweep stops next: the least recently used healthy one
/// while the healthy count exceeds the cap; none once it does not.
pub fn sweep_step<C>(reg: &Registry<C>, lru_cap: usize) -> (r: Option<String>)
    ensures
        match r {
            Some(k) => healthy_count_of(reg@) > lru_cap && exists|i: int|
                is_lru_healthy(reg@, i) && k == reg@[i].key,
            None => healthy_count_of(reg@) <= lru_cap || !any_healthy(reg@),
        },
{
    if reg.count_healthy() > lru_cap {
        reg.find_lru_for_eviction()
    } else {
        None
    }
}

/// A project that was healthy and is moved to a state that is not healthy
/// (as stopping it does) lowers the healthy count by exactly one; so the
/// sweep ends after as many stops as there are healthy projects over the cap.
pub proof fn law_stopping_a_healthy_project_lowers_the_healthy_count<C>(
    before: Registry<C>,
    after: Registry<C>,
    key: Seq<char>,
    state: ProjectState<C>,
    prior: ProjectState<C>,
    t: u64,
)
    requires
        before.wf(),
        prior.is_healthy(),
        !state.is_healthy(),
        transitioned(before, after, key, state, prior, t),
    ensures
        healthy_count_of(after@) + 1 == healthy_count_of(before@),
{
    let i = choose|i: int|
        0 <= i < before@.len() && path_id(before@[i].key@) == path_id(key) && prior == before@[i].state && after@
            == before@.update(i, Project { state, since: t, ..before@[i] });
    lemma_healthy_count_update(before@, i, Project { state, since: t, ..before@[i] });
}

/// What `sweep_step` answers with `key`: more projects are healthy than
/// the cap allows, and `key` is that of the least recently used healthy one.
pub open spec fn sweep_picks<C>(reg: Registry<C>, lru_cap: usize, key: Seq<char>) -> bool {
    healthy_count_of(reg@) > lru_cap && exists|i: int| is_lru_healthy(reg@, i) && reg@[i].key@ == key
}

/// The project under `key`, healthy in `before`, is in a state that is not
/// healthy in `after`, and nothing else changed: a stop.
pub open spec fn stopped<C>(before: Registry<C>, after: Registry<C>, key: Seq<char>) -> bool {
    exists|state: ProjectState<C>, prior: ProjectState<C>, t: u64|
        prior.is_healthy() && !state.is_healthy() && transitioned(before, after, key, state, prior, t)
}

/// When `reg` was used last under `key`.
pub open spec fn last_used_of<C>(reg: Registry<C>, key: Seq<char>) -> u64 {
    reg.spec_get(key)->0.last_used
}

/// The position that the sweep picked in `reg` under `key`.
spec fn pick_position<C>(reg: Registry<C>, key: Seq<char>) -> int {
    choose|i: int| is_lru_healthy(reg@, i) && reg@[i].key@ == key
}

/// `r` holds the projects of `r0` at the same positions, with the same keys
/// and last uses; a project healthy in `r` is healthy in `r0`.
spec fn same_frame<C>(r0: Registry<C>, r: Registry<C>) -> bool {
    &&& r@.len() == r0@.len()
    &&& forall|p: int| 0 <= p < r0@.len() ==> (#[trigger] r@[p]).key == r0@[p].key && r@[p].last_used == r0@[p].last_used
    &&& forall|p: int| 0 <= p < r0@.len() && (#[trigger] r@[p]).state.is_healthy() ==> r0@[p].state.is_healthy()
}

/// One stop of a picked project: it happens at the picked position, which
/// was healthy and is no longer.
proof fn lemma_sweep_stop<C>(before: Registry<C>, after: Registry<C>, lru_cap: usize, key: Seq<char>)
    requires
        before.wf(),
        sweep_picks(before, lru_cap, key),
        stopped(before, after, key),
    ensures
        same_frame(before, after),
        is_lru_healthy(before@, pick_position(before, key)),
        before@[pick_position(before, key)].key@ == key,
        !after@[pick_position(before, key)].state.is_healthy(),
        healthy_count_of(after@) + 1 == healthy_count_of(before@),
{
    let i = pick_position(before, key);
    before.lemma_keys_unique();
    let (state, prior, t) = choose|state: ProjectState<C>, prior: ProjectState<C>, t: u64|
        prior.is_healthy() && !state.is_healthy() && transitioned(before, after, key, state, prior, t);
    let j = choose|j: int|
        0 <= j < before@.len() && path_id(before@[j].key@) == path_id(key) && prior == before@[j].state && after@
            == before@.update(j, Project { state, since: t, ..before@[j] });
    assert(key_of::<C>()(before@[i]) == key_of::<C>()(before@[j]));
    assert(i == j);
    law_stopping_a_healthy_project_lowers_the_healthy_count(before, after, key, state, prior, t);
}

/// The sweep over `n` of its steps.
proof fn lemma_sweep_run<C>(regs: Seq<Registry<C>>, picked: Seq<Seq<char>>, lru_cap: usize, n: int)
    requires
        regs.len() == picked.len() + 1,
        0 <= n <= picked.len(),
        forall|i: int| 0 <= i < regs.len() ==> (#[trigger] regs[i]).wf(),
        forall|i: int|
            0 <= i < picked.len() ==> sweep_picks(regs[i], lru_cap, #[trigger] picked[i]) && stopped(
                regs[i],
                regs[i + 1],
                picked[i],
            ),
    ensures
        healthy_count_of(regs[n]@) + n == healthy_count_of(regs[0]@),
        n > 0 ==> healthy_count_of(regs[n]@) >= lru_cap,
        same_frame(regs[0], regs[n]),
        forall|a: int| 0 <= a < n ==> #[trigger] pick_position(regs[a], picked[a]) < regs[0]@.len()
            && regs[0]@[pick_position(regs[a], picked[a])].key@ == picked[a],
        forall|a: int, b: int|
            0 <= a < b < n ==> regs[0]@[pick_position(regs[a], picked[a])].last_used <= regs[0]@[pick_position(
                regs[b],
                picked[b],
            )].last_used,
        forall|a: int, p: int|
            0 <= a < n && 0 <= p < regs[n]@.len() && (#[trigger] regs[n]@[p]).state.is_healthy() ==> regs[0]@[pick_position(
                #[trigger] regs[a],
                picked[a],
            )].last_used <= regs[n]@[p].last_used,
    decreases n,
{
    if n > 0 {
        let m = n - 1;
        lemma_sweep_run(regs, picked, lru_cap, m);
        assert(sweep_picks(regs[m], lru_cap, picked[m]) && stopped(regs[m], regs[m + 1], picked[m]));
        lemma_sweep_stop(regs[m], regs[n], lru_cap, picked[m]);
        let q = pick_position(regs[m], picked[m]);
        let r0 = regs[0];
        assert forall|a: int, b: int|
            0 <= a < b < n implies r0@[pick_position(regs[a], picked[a])].last_used <= r0@[pick_position(
                regs[b],
                picked[b],
            )].last_used by {
            if b == m {
                assert(regs[m]@[q].state.is_healthy());
                assert(r0@[q].last_used == regs[m]@[q].last_used);
            }
        }
        assert forall|a: int, p: int|
            0 <= a < n && 0 <= p < regs[n]@.len() && (#[trigger] regs[n]@[p]).state.is_healthy() implies r0@[pick_position(
                #[trigger] regs[a],
                picked[a],
            )].last_used <= regs[n]@[p].last_used by {
            assert(regs[m]@[p].state.is_healthy());
            if a == m {
                assert(is_lru_healthy(regs[m]@, q));
                assert(regs[m]@[q].last_used <= regs[m]@[p].last_used);
            }
        }
    } else {
        assert(same_frame(regs[0], regs[0]));
    }
}

/// The sweep stops the least recently used healthy projects, one per step,
/// each no more recently used than the one after it and than every project
/// left healthy; each step lowers the healthy count by one and none takes it
/// below the cap, so a sweep that runs until `sweep_step` answers none
/// leaves exactly the cap healthy when it started above it.
pub proof fn law_sweep_stops_the_surplus_least_recently_used<C>(
    regs: Seq<Registry<C>>,
    picked: Seq<Seq<char>>,
    lru_cap: usize,
)
    requires
        regs.len() == picked.len() + 1,
        forall|i: int| 0 <= i < regs.len() ==> (#[trigger] regs[i]).wf(),
        forall|i: int|
            0 <= i < picked.len() ==> sweep_picks(regs[i], lru_cap, #[trigger] picked[i]) && stopped(
                regs[i],
                regs[i + 1],
                picked[i],
            ),
    ensures
        healthy_count_of(regs.last()@) + picked.len() == healthy_count_of(regs[0]@),
        picked.len() > 0 ==> healthy_count_of(regs.last()@) >= lru_cap,
        forall|a: int, b: int|
            0 <= a < b < picked.len() ==> last_used_of(regs[0], #[trigger] picked[a]) <= last_used_of(
                regs[0],
                #[trigger] picked[b],
            ),
        forall|a: int, p: int|
            0 <= a < picked.len() && 0 <= p < regs.last()@.len() && (#[trigger] regs.last()@[p]).state.is_healthy()
                ==> last_used_of(regs[0], #[trigger] picked[a]) <= regs.last()@[p].last_used,
{
    let n = picked.len() as int;
    lemma_sweep_run(regs, picked, lru_cap, n);
    let r0 = regs[0];
    assert forall|a: int| 0 <= a < n implies last_used_of(r0, #[trigger] picked[a]) == r0@[pick_position(
        regs[a],
        picked[a],
    )].last_used by {
        let q = pick_position(regs[a], picked[a]);
        r0.lemma_keys_unique();
        lemma_lookup_index(r0@, key_of::<C>(), q);
    }
    assert(regs.last() == regs[n]);
}

} // verus!
