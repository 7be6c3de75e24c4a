use vstd::prelude::*;

use crate::pagination::{page, page_start};
use crate::registry::{
    has_key, key_index, keys_unique, lookup, registered, register_step, set_deadline_step,
    set_hidden_step, set_winner_step, upsert, with_reward, ApplicationData, ContractView, Entries,
    RegistryError,
};

verus! {

/// Storing under `k` keeps ids unique, makes `v` the entry of `k` and leaves
/// every other id's entry as it was.
pub proof fn lemma_upsert(apps: Entries, k: Seq<char>, v: ApplicationData)
    requires
        keys_unique(apps),
    ensures
        keys_unique(upsert(apps, k, v)),
        lookup(upsert(apps, k, v), k) == Some(v),
        forall|o: Seq<char>| o != k ==> lookup(upsert(apps, k, v), o) == lookup(apps, o),
{
    let n = upsert(apps, k, v);
    let p: int = if has_key(apps, k) {
        key_index(apps, k)
    } else {
        apps.len() as int
    };
    assert(0 <= p < n.len() && n[p] == (k, v));
    assert forall|i: int, j: int|
        0 <= i < n.len() && 0 <= j < n.len() && i != j implies n[i].0 != n[j].0 by {
        if i != p && j != p {
            assert(n[i] == apps[i] && n[j] == apps[j]);
        } else if i == p {
            assert(n[j] == apps[j]);
        } else {
            assert(n[i] == apps[i]);
        }
    }
    assert(has_key(n, k));
    let q = key_index(n, k);
    if q != p {
        assert(n[q].0 != n[p].0);
    }
    assert forall|o: Seq<char>| o != k implies lookup(n, o) == lookup(apps, o) by {
        if has_key(apps, o) {
            let a = key_index(apps, o);
            assert(n[a] == apps[a]);
            assert(has_key(n, o));
            let b = key_index(n, o);
            if a != b {
                assert(n[b] == apps[b]);
            }
        } else if has_key(n, o) {
            let b = key_index(n, o);
            assert(n[b] == apps[b]);
        }
    }
}

/// A registration at or before the deadline succeeds. Afterwards the caller's
/// entry is exactly the latest one submitted, with no reward and shown, and
/// every other participant's entry is untouched.
pub proof fn lemma_register_overwrites(
    v: ContractView,
    caller: Seq<char>,
    now: u64,
    a: ApplicationData,
)
    requires
        v.wf(),
        !v.too_late(now),
    ensures
        register_step(v, caller, now, a) is Ok,
        register_step(v, caller, now, a).unwrap().wf(),
        lookup(register_step(v, caller, now, a).unwrap().applications, caller) == Some(
            registered(a),
        ),
        forall|o: Seq<char>|
            o != caller ==> lookup(register_step(v, caller, now, a).unwrap().applications, o)
                == lookup(v.applications, o),
{
    lemma_upsert(v.applications, caller, registered(a));
}

/// The state after registering each `(caller, now, application)` of `calls`
/// in turn, or the first refusal.
pub open spec fn register_all(v: ContractView, calls: Seq<(Seq<char>, u64, ApplicationData)>) -> Result<
    ContractView,
    RegistryError,
>
    decreases calls.len(),
{
    if calls.len() == 0 {
        Ok(v)
    } else {
        match register_all(v, calls.drop_last()) {
            Ok(w) => register_step(w, calls.last().0, calls.last().1, calls.last().2),
            Err(e) => Err(e),
        }
    }
}

/// The application that `k` registered last among `calls`, if any.
pub open spec fn latest(calls: Seq<(Seq<char>, u64, ApplicationData)>, k: Seq<char>) -> Option<
    ApplicationData,
>
    decreases calls.len(),
{
    if calls.len() == 0 {
        None
    } else if calls.last().0 == k {
        Some(calls.last().2)
    } else {
        latest(calls.drop_last(), k)
    }
}

/// Any run of registrations, each at or before the deadline, succeeds; the
/// entry of each id is then the one it registered last (administrator fields
/// reset), and the entry of an id that did not register is unchanged.
pub proof fn lemma_registrations_keep_latest(
    v: ContractView,
    calls: Seq<(Seq<char>, u64, ApplicationData)>,
)
    requires
        v.wf(),
        forall|i: int| 0 <= i < calls.len() ==> !v.too_late(#[trigger] calls[i].1),
    ensures
        register_all(v, calls) is Ok,
        register_all(v, calls).unwrap().wf(),
        register_all(v, calls).unwrap().deadline == v.deadline,
        forall|k: Seq<char>|
            lookup(register_all(v, calls).unwrap().applications, k) == match latest(calls, k) {
                Some(a) => Some(registered(a)),
                None => lookup(v.applications, k),
            },
    decreases calls.len(),
{
    if calls.len() > 0 {
        let front = calls.drop_last();
        assert forall|i: int| 0 <= i < front.len() implies !v.too_late(#[trigger] front[i].1) by {
            assert(front[i] == calls[i]);
        }
        lemma_registrations_keep_latest(v, front);
        let w = register_all(v, front).unwrap();
        let c = calls.last();
        assert(!v.too_late(calls[calls.len() - 1].1));
        lemma_register_overwrites(w, c.0, c.1, c.2);
        let n = register_step(w, c.0, c.1, c.2).unwrap();
        assert(register_all(v, calls) == register_step(w, c.0, c.1, c.2));
        assert forall|k: Seq<char>|
            lookup(n.applications, k) == match latest(calls, k) {
                Some(a) => Some(registered(a)),
                None => lookup(v.applications, k),
            } by {
            if k != c.0 {
                assert(latest(calls, k) == latest(front, k));
                assert(lookup(n.applications, k) == lookup(w.applications, k));
            }
        }
    }
}

/// A registration after the deadline is refused with `DeadlineExceeded`.
pub proof fn lemma_register_after_deadline(
    v: ContractView,
    caller: Seq<char>,
    now: u64,
    a: ApplicationData,
)
    requires
        v.too_late(now),
    ensures
        register_step(v, caller, now, a) == Err::<ContractView, RegistryError>(
            RegistryError::DeadlineExceeded,
        ),
{
}

/// A page is the contiguous run of entries that starts at `from_index`, in
/// their stored order, holds at most `limit` of them, and repeats no id; from
/// the end of the entries on it is empty.
pub proof fn lemma_page_is_slice(apps: Entries, from_index: Option<u64>, limit: Option<u64>)
    requires
        keys_unique(apps),
    ensures
        keys_unique(page(apps, from_index, limit)),
        forall|i: int|
            0 <= i < page(apps, from_index, limit).len() ==> page(apps, from_index, limit)[i]
                == apps[page_start(apps.len(), from_index) + i],
        from_index is Some ==> page_start(apps.len(), from_index) == if from_index.unwrap()
            < apps.len() {
            from_index.unwrap() as nat
        } else {
            apps.len()
        },
        from_index is None ==> page_start(apps.len(), from_index) == 0,
        limit is Some ==> page(apps, from_index, limit).len() <= limit.unwrap(),
        limit is None ==> page(apps, from_index, limit).len() == apps.len() - page_start(
            apps.len(),
            from_index,
        ),
        from_index is Some && from_index.unwrap() >= apps.len() ==> page(
            apps,
            from_index,
            limit,
        ).len() == 0,
{
    let p = page(apps, from_index, limit);
    let s = page_start(apps.len(), from_index) as int;
    assert forall|i: int, j: int|
        0 <= i < p.len() && 0 <= j < p.len() && i != j implies p[i].0 != p[j].0 by {
        assert(p[i] == apps[s + i] && p[j] == apps[s + j]);
    }
}

/// A reward can be granted to a participant once: right after a grant, a
/// second one to the same participant is refused with `AlreadyRewarded`,
/// whatever its amount, and a refused call leaves the state as it was.
pub proof fn lemma_reward_once(
    v: ContractView,
    caller: Seq<char>,
    target: Seq<char>,
    first: u128,
    second: u128,
)
    requires
        v.wf(),
        set_winner_step(v, caller, target, first) is Ok,
    ensures
        set_winner_step(set_winner_step(v, caller, target, first).unwrap(), caller, target, second)
            == Err::<ContractView, RegistryError>(RegistryError::AlreadyRewarded),
{
    let i = key_index(v.applications, target);
    let e = with_reward(v.applications[i].1, first);
    assert(v.applications.update(i, (target, e)) == upsert(v.applications, target, e));
    lemma_upsert(v.applications, target, e);
}

/// Once `target` holds a reward, every grant to it is refused, and the reward
/// stays through every call but a new registration by `target` itself.
pub proof fn lemma_reward_sticks(
    v: ContractView,
    caller: Seq<char>,
    other: Seq<char>,
    target: Seq<char>,
    now: u64,
    a: ApplicationData,
    reward: u128,
    hidden: bool,
    deadline: u64,
)
    requires
        v.wf(),
        lookup(v.applications, target) matches Some(e) && e.reward is Some,
    ensures
        set_winner_step(v, caller, target, reward) is Err,
        caller == v.owner_id ==> set_winner_step(v, caller, target, reward) == Err::<
            ContractView,
            RegistryError,
        >(RegistryError::AlreadyRewarded),
        other != target ==> (register_step(v, other, now, a) matches Ok(w) ==> lookup(
            w.applications,
            target,
        ) == lookup(v.applications, target)),
        set_winner_step(v, caller, other, reward) matches Ok(w) ==> lookup(
            w.applications,
            target,
        ) == lookup(v.applications, target),
        set_hidden_step(v, caller, other, hidden) matches Ok(w) ==> lookup(
            w.applications,
            target,
        ).unwrap().reward == lookup(v.applications, target).unwrap().reward,
        set_deadline_step(v, caller, deadline) matches Ok(w) ==> w.applications
            == v.applications,
{
    lemma_upsert(v.applications, other, registered(a));
    if has_key(v.applications, other) {
        let i = key_index(v.applications, other);
        let e = with_reward(v.applications[i].1, reward);
        assert(v.applications.update(i, (other, e)) == upsert(v.applications, other, e));
        lemma_upsert(v.applications, other, e);
        let h = crate::registry::with_hidden(v.applications[i].1, hidden);
        assert(v.applications.update(i, (other, h)) == upsert(v.applications, other, h));
        lemma_upsert(v.applications, other, h);
    }
}

/// No call takes the distributed amount past the pool: each state that a call
/// reaches from a well-formed state is well-formed, and in particular
/// `prize_pool_distributed <= prize_pool`.
pub proof fn lemma_pool_bound_kept(
    v: ContractView,
    caller: Seq<char>,
    target: Seq<char>,
    now: u64,
    a: ApplicationData,
    reward: u128,
    hidden: bool,
    deadline: u64,
)
    requires
        v.wf(),
    ensures
        register_step(v, caller, now, a) matches Ok(w) ==> w.wf()
            && w.prize_pool_distributed <= w.prize_pool,
        set_winner_step(v, caller, target, reward) matches Ok(w) ==> w.wf()
            && w.prize_pool_distributed <= w.prize_pool,
        set_hidden_step(v, caller, target, hidden) matches Ok(w) ==> w.wf()
            && w.prize_pool_distributed <= w.prize_pool,
        set_deadline_step(v, caller, deadline) matches Ok(w) ==> w.wf()
            && w.prize_pool_distributed <= w.prize_pool,
{
    lemma_upsert(v.applications, caller, registered(a));
    if has_key(v.applications, target) {
        let i = key_index(v.applications, target);
        let e = with_reward(v.applications[i].1, reward);
        assert(v.applications.update(i, (target, e)) == upsert(v.applications, target, e));
        lemma_upsert(v.applications, target, e);
        let h = crate::registry::with_hidden(v.applications[i].1, hidden);
        assert(v.applications.update(i, (target, h)) == upsert(v.applications, target, h));
        lemma_upsert(v.applications, target, h);
    }
}

} // verus!
