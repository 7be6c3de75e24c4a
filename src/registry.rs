use vstd::prelude::*;

use crate::pagination::{entries_view, page, paginate};

verus! {

/// What a participant submits when registering, plus the two fields that only
/// the administrator may set (`reward` and `hidden`).
pub struct ApplicationData {
    pub description: String,
    pub github_url: String,
    pub contact_data: String,
    pub contract_id: String,
    pub youtube_url: Option<String>,
    pub reward: Option<u128>,
    pub hidden: Option<bool>,
}

impl ApplicationData {
    /// A field-by-field copy, equal to `self`.
    pub fn copy(&self) -> (r: Self)
        ensures
            r == *self,
    {
        let youtube_url = match &self.youtube_url {
            Some(u) => Some(u.clone()),
            None => None,
        };
        ApplicationData {
            description: self.description.clone(),
            github_url: self.github_url.clone(),
            contact_data: self.contact_data.clone(),
            contract_id: self.contract_id.clone(),
            youtube_url,
            reward: self.reward,
            hidden: self.hidden,
        }
    }
}

/// Why a call on the registry was refused. A refused call changes nothing.
#[derive(Debug, Clone, Copy, PartialEq, Eq, Structural)]
pub enum RegistryError {
    DeadlineExceeded,
    Unauthorized,
    NotFound,
    AlreadyRewarded,
    PoolExhausted,
}

impl RegistryError {
    /// The short code under which the error is reported to callers.
    pub fn code(&self) -> (r: &'static str)
        ensures
            r@ == error_code(*self),
    {
        match self {
            RegistryError::DeadlineExceeded => "ERR_TOO_LATE",
            RegistryError::Unauthorized => "ERR_NOT_OWNER",
            RegistryError::NotFound => "ERR_APPLICATION_NOT_FOUND",
            RegistryError::AlreadyRewarded => "ERR_REWARD_ALREADY_EXIST",
            RegistryError::PoolExhausted => "ERR_NOT_ENOUGH_REWARDS",
        }
    }
}

pub open spec fn error_code(e: RegistryError) -> Seq<char> {
    match e {
        RegistryError::DeadlineExceeded => "ERR_TOO_LATE"@,
        RegistryError::Unauthorized => "ERR_NOT_OWNER"@,
        RegistryError::NotFound => "ERR_APPLICATION_NOT_FOUND"@,
        RegistryError::AlreadyRewarded => "ERR_REWARD_ALREADY_EXIST"@,
        RegistryError::PoolExhausted => "ERR_NOT_ENOUGH_REWARDS"@,
    }
}

/// A transfer of `amount` to `receiver` that the host must carry out after a
/// successful `set_winner`. The registry's books are settled before it is paid.
pub struct Payment {
    pub receiver: String,
    pub amount: u128,
}

/// Entries of the registry as the contracts see them: participant id and data,
/// in insertion order.
pub type Entries = Seq<(Seq<char>, ApplicationData)>;

pub open spec fn has_key(apps: Entries, k: Seq<char>) -> bool {
    exists|i: int| 0 <= i < apps.len() && apps[i].0 == k
}

pub open spec fn key_index(apps: Entries, k: Seq<char>) -> int {
    choose|i: int| 0 <= i < apps.len() && apps[i].0 == k
}

pub open spec fn keys_unique(apps: Entries) -> bool {
    forall|i: int, j: int|
        0 <= i < apps.len() && 0 <= j < apps.len() && i != j ==> apps[i].0 != apps[j].0
}

/// The entry stored under `k`, if any.
pub open spec fn lookup(apps: Entries, k: Seq<char>) -> Option<ApplicationData> {
    if has_key(apps, k) {
        Some(apps[key_index(apps, k)].1)
    } else {
        None
    }
}

/// Replaces the entry under `k` in place, or appends it when `k` is new.
pub open spec fn upsert(apps: Entries, k: Seq<char>, v: ApplicationData) -> Entries {
    if has_key(apps, k) {
        apps.update(key_index(apps, k), (k, v))
    } else {
        apps.push((k, v))
    }
}

/// The entry as stored by a registration: the administrator's fields reset.
pub open spec fn registered(a: ApplicationData) -> ApplicationData {
    ApplicationData {
        description: a.description,
        github_url: a.github_url,
        contact_data: a.contact_data,
        contract_id: a.contract_id,
        youtube_url: a.youtube_url,
        reward: None,
        hidden: Some(false),
    }
}

pub open spec fn with_reward(a: ApplicationData, reward: u128) -> ApplicationData {
    ApplicationData { reward: Some(reward), ..a }
}

pub open spec fn with_hidden(a: ApplicationData, hidden: bool) -> ApplicationData {
    ApplicationData { hidden: Some(hidden), ..a }
}

/// The state of the registry.
pub struct ContractView {
    pub owner_id: Seq<char>,
    pub deadline: Option<u64>,
    pub prize_pool: u128,
    pub prize_pool_distributed: u128,
    pub applications: Entries,
}

impl ContractView {
    pub open spec fn wf(self) -> bool {
        &&& self.prize_pool_distributed <= self.prize_pool
        &&& keys_unique(self.applications)
    }

    pub open spec fn with_applications(self, apps: Entries) -> ContractView {
        ContractView { applications: apps, ..self }
    }

    pub open spec fn too_late(self, now: u64) -> bool {
        match self.deadline {
            Some(d) => now > d,
            None => false,
        }
    }
}

/// The state reached by a registration from `caller` at instant `now`.
pub open spec fn register_step(v: ContractView, caller: Seq<char>, now: u64, a: ApplicationData) -> Result<
    ContractView,
    RegistryError,
> {
    if v.too_late(now) {
        Err(RegistryError::DeadlineExceeded)
    } else {
        Ok(v.with_applications(upsert(v.applications, caller, registered(a))))
    }
}

/// The state reached when `caller` grants `reward` to `target`.
pub open spec fn set_winner_step(v: ContractView, caller: Seq<char>, target: Seq<char>, reward: u128) -> Result<
    ContractView,
    RegistryError,
> {
    if caller != v.owner_id {
        Err(RegistryError::Unauthorized)
    } else if !has_key(v.applications, target) {
        Err(RegistryError::NotFound)
    } else if lookup(v.applications, target).unwrap().reward is Some {
        Err(RegistryError::AlreadyRewarded)
    } else if v.prize_pool_distributed + reward > v.prize_pool {
        Err(RegistryError::PoolExhausted)
    } else {
        let i = key_index(v.applications, target);
        Ok(
            ContractView {
                prize_pool_distributed: (v.prize_pool_distributed + reward) as u128,
                applications: v.applications.update(
                    i,
                    (target, with_reward(v.applications[i].1, reward)),
                ),
                ..v
            },
        )
    }
}

/// The state reached when `caller` hides or shows the entry of `target`.
pub open spec fn set_hidden_step(v: ContractView, caller: Seq<char>, target: Seq<char>, hidden: bool) -> Result<
    ContractView,
    RegistryError,
> {
    if caller != v.owner_id {
        Err(RegistryError::Unauthorized)
    } else if !has_key(v.applications, target) {
        Err(RegistryError::NotFound)
    } else {
        let i = key_index(v.applications, target);
        Ok(
            v.with_applications(
                v.applications.update(i, (target, with_hidden(v.applications[i].1, hidden))),
            ),
        )
    }
}

/// The state reached when `caller` moves the deadline.
pub open spec fn set_deadline_step(v: ContractView, caller: Seq<char>, deadline: u64) -> Result<
    ContractView,
    RegistryError,
> {
    if caller != v.owner_id {
        Err(RegistryError::Unauthorized)
    } else {
        Ok(ContractView { deadline: Some(deadline), ..v })
    }
}

/// Index of `key` among the entries, if it is there.
fn find_index(apps: &Vec<(String, ApplicationData)>, key: &String) -> (r: Option<usize>)
    requires
        keys_unique(entries_view(apps@)),
    ensures
        match r {
            Some(i) => {
                &&& i < apps@.len()
                &&& has_key(entries_view(apps@), key@)
                &&& i == key_index(entries_view(apps@), key@)
            },
            None => !has_key(entries_view(apps@), key@),
        },
{
    let ghost ev = entries_view(apps@);
    assert(keys_unique(ev));
    let mut i: usize = 0;
    while i < apps.len()
        invariant
            i <= apps@.len(),
            ev == entries_view(apps@),
            keys_unique(ev),
            forall|j: int| 0 <= j < i ==> ev[j].0 != key@,
        decreases apps@.len() - i,
    {
        assert(ev[i as int] == (apps@[i as int].0@, apps@[i as int].1));
        if apps[i].0 == *key {
            assert(ev[i as int].0 == key@);
            let ghost k = key_index(ev, key@);
            proof {
                assert(ev[k].0 == key@ && 0 <= k < ev.len());
                if k != i as int {
                    assert(ev[k].0 != ev[i as int].0);
                }
            }
            return Some(i);
        }
        i = i + 1;
    }
    assert forall|j: int| 0 <= j < ev.len() implies ev[j].0 != key@ by {}
    None
}

/// Whether no id occurs twice among `apps`.
pub fn ids_distinct(apps: &Vec<(String, ApplicationData)>) -> (r: bool)
    ensures
        r == keys_unique(entries_view(apps@)),
{
    let ghost ev = entries_view(apps@);
    let mut i: usize = 0;
    while i < apps.len()
        invariant
            i <= apps@.len(),
            ev == entries_view(apps@),
            forall|a: int, b: int| 0 <= a < i && 0 <= b < ev.len() && a != b ==> ev[a].0 != ev[b].0,
        decreases apps@.len() - i,
    {
        let mut j: usize = 0;
        while j < apps.len()
            invariant
                i < apps@.len(),
                j <= apps@.len(),
                ev == entries_view(apps@),
                forall|a: int, b: int| 0 <= a < i && 0 <= b < ev.len() && a != b ==> ev[a].0 != ev[b].0,
                forall|b: int| 0 <= b < j && b != i ==> ev[i as int].0 != ev[b].0,
            decreases apps@.len() - j,
        {
            assert(ev[i as int] == (apps@[i as int].0@, apps@[i as int].1));
            assert(ev[j as int] == (apps@[j as int].0@, apps@[j as int].1));
            if j != i && apps[i].0 == apps[j].0 {
                assert(ev[i as int].0 == ev[j as int].0);
                return false;
            }
            j = j + 1;
        }
        i = i + 1;
    }
    true
}

/// The registry: an administrator, an optional deadline, a prize pool and the
/// participants' entries in the order in which they first registered.
pub struct Contract {
    owner_id: String,
    deadline: Option<u64>,
    prize_pool: u128,
    prize_pool_distributed: u128,
    applications: Vec<(String, ApplicationData)>,
}

impl View for Contract {
    type V = ContractView;

    closed spec fn view(&self) -> ContractView {
        ContractView {
            owner_id: self.owner_id@,
            deadline: self.deadline,
            prize_pool: self.prize_pool,
            prize_pool_distributed: self.prize_pool_distributed,
            applications: entries_view(self.applications@),
        }
    }
}

impl Contract {
    pub open spec fn wf(&self) -> bool {
        self@.wf()
    }

    /// A registry with no entries and nothing distributed.
    pub fn new(owner_id: String, deadline: Option<u64>, prize_pool: u128) -> (r: Self)
        ensures
            r.wf(),
            r@ == (ContractView {
                owner_id: owner_id@,
                deadline,
                prize_pool,
                prize_pool_distributed: 0,
                applications: Seq::empty(),
            }),
    {
        let r = Contract {
            owner_id,
            deadline,
            prize_pool,
            prize_pool_distributed: 0,
            applications: Vec::new(),
        };
        assert(r@.applications =~= Seq::empty());
        r
    }

    /// Rebuilds a registry from stored parts; `None` when they break its
    /// rules (more distributed than the pool holds, or an id stored twice).
    pub fn restore(
        owner_id: String,
        deadline: Option<u64>,
        prize_pool: u128,
        prize_pool_distributed: u128,
        applications: Vec<(String, ApplicationData)>,
    ) -> (r: Option<Self>)
        ensures
            match r {
                Some(c) => c.wf() && c@ == (ContractView {
                    owner_id: owner_id@,
                    deadline,
                    prize_pool,
                    prize_pool_distributed,
                    applications: entries_view(applications@),
                }),
                None => !(prize_pool_distributed <= prize_pool && keys_unique(
                    entries_view(applications@),
                )),
            },
    {
        if prize_pool_distributed > prize_pool || !ids_distinct(&applications) {
            return None;
        }
        Some(Contract { owner_id, deadline, prize_pool, prize_pool_distributed, applications })
    }

    pub fn owner_id(&self) -> (r: &String)
        ensures
            r@ == self@.owner_id,
    {
        &self.owner_id
    }

    pub fn deadline(&self) -> (r: Option<u64>)
        ensures
            r == self@.deadline,
    {
        self.deadline
    }

    pub fn prize_pool(&self) -> (r: u128)
        ensures
            r == self@.prize_pool,
    {
        self.prize_pool
    }

    pub fn prize_pool_distributed(&self) -> (r: u128)
        ensures
            r == self@.prize_pool_distributed,
    {
        self.prize_pool_distributed
    }

    /// Whether `caller` is the administrator.
    pub fn is_owner(&self, caller: &String) -> (r: bool)
        ensures
            r == (caller@ == self@.owner_id),
    {
        *caller == self.owner_id
    }

    /// Stores `application` under `caller`, replacing any earlier entry of
    /// `caller`, unless `now` is past the deadline. The reward is cleared and
    /// the entry is shown, whatever `application` says.
    pub fn register(&mut self, caller: &String, now: u64, application: ApplicationData) -> (r: Result<
        (),
        RegistryError,
    >)
        requires
            old(self).wf(),
        ensures
            final(self).wf(),
            match register_step(old(self)@, caller@, now, application) {
                Ok(v) => r is Ok && final(self)@ == v,
                Err(e) => r == Err::<(), RegistryError>(e) && final(self)@ == old(self)@,
            },
    {
        if let Some(deadline) = self.deadline {
            if now > deadline {
                return Err(RegistryError::DeadlineExceeded);
            }
        }
        let mut application = application;
        application.reward = None;
        application.hidden = Some(false);
        let ghost old_apps = self@.applications;
        match find_index(&self.applications, caller) {
            Some(i) => {
                self.applications.set(i, (caller.clone(), application));
                assert(self@.applications =~= upsert(old_apps, caller@, registered(application)));
            },
            None => {
                self.applications.push((caller.clone(), application));
                assert(self@.applications =~= upsert(old_apps, caller@, registered(application)));
            },
        }
        proof {
            let apps = self@.applications;
            assert forall|i: int, j: int|
                0 <= i < apps.len() && 0 <= j < apps.len() && i != j implies apps[i].0
                != apps[j].0 by {
                if i < old_apps.len() && j < old_apps.len() {
                    if apps[i].0 == apps[j].0 {
                        assert(old_apps[i].0 == apps[i].0 || old_apps[j].0 == apps[j].0);
                    }
                }
            }
        }
        Ok(())
    }

    /// Entries from position `from_index` (0 when absent), at most `limit` of
    /// them (all that remain when absent), in insertion order.
    pub fn get_applications(&self, from_index: Option<u64>, limit: Option<u64>) -> (r: Vec<
        (String, ApplicationData),
    >)
        ensures
            entries_view(r@) == page(self@.applications, from_index, limit),
    {
        paginate(&self.applications, from_index, limit)
    }

    /// Grants `reward` to `account_id` from the pool, once per entry, and
    /// returns the transfer that pays it.
    pub fn set_winner(&mut self, caller: &String, account_id: String, reward: u128) -> (r: Result<
        Payment,
        RegistryError,
    >)
        requires
            old(self).wf(),
        ensures
            final(self).wf(),
            match set_winner_step(old(self)@, caller@, account_id@, reward) {
                Ok(v) => {
                    &&& final(self)@ == v
                    &&& r matches Ok(p)
                    &&& p.receiver@ == account_id@
                    &&& p.amount == reward
                },
                Err(e) => r matches Err(f) && f == e && final(self)@ == old(self)@,
            },
    {
        if !self.is_owner(caller) {
            return Err(RegistryError::Unauthorized);
        }
        let i = match find_index(&self.applications, &account_id) {
            Some(i) => i,
            None => {
                return Err(RegistryError::NotFound);
            },
        };
        if self.applications[i].1.reward.is_some() {
            return Err(RegistryError::AlreadyRewarded);
        }
        if reward > self.prize_pool - self.prize_pool_distributed {
            return Err(RegistryError::PoolExhausted);
        }
        let ghost old_self = self@;
        self.prize_pool_distributed = self.prize_pool_distributed + reward;
        let mut application = self.applications[i].1.copy();
        application.reward = Some(reward);
        let key = self.applications[i].0.clone();
        self.applications.set(i, (key, application));
        proof {
            let v = set_winner_step(old_self, caller@, account_id@, reward).unwrap();
            assert(self@.applications =~= v.applications);
            let apps = self@.applications;
            assert forall|a: int, b: int|
                0 <= a < apps.len() && 0 <= b < apps.len() && a != b implies apps[a].0
                != apps[b].0 by {
                assert(old_self.applications[a].0 == apps[a].0);
                assert(old_self.applications[b].0 == apps[b].0);
            }
        }
        Ok(Payment { receiver: account_id, amount: reward })
    }

    /// Hides or shows the entry of `account_id`.
    pub fn set_hidden(&mut self, caller: &String, account_id: &String, hidden: bool) -> (r: Result<
        (),
        RegistryError,
    >)
        requires
            old(self).wf(),
        ensures
            final(self).wf(),
            match set_hidden_step(old(self)@, caller@, account_id@, hidden) {
                Ok(v) => r is Ok && final(self)@ == v,
                Err(e) => r == Err::<(), RegistryError>(e) && final(self)@ == old(self)@,
            },
    {
        if !self.is_owner(caller) {
            return Err(RegistryError::Unauthorized);
        }
        let i = match find_index(&self.applications, account_id) {
            Some(i) => i,
            None => {
                return Err(RegistryError::NotFound);
            },
        };
        let ghost old_self = self@;
        let mut application = self.applications[i].1.copy();
        application.hidden = Some(hidden);
        let key = self.applications[i].0.clone();
        self.applications.set(i, (key, application));
        proof {
            let v = set_hidden_step(old_self, caller@, account_id@, hidden).unwrap();
            assert(self@.applications =~= v.applications);
            let apps = self@.applications;
            assert forall|a: int, b: int|
                0 <= a < apps.len() && 0 <= b < apps.len() && a != b implies apps[a].0
                != apps[b].0 by {
                assert(old_self.applications[a].0 == apps[a].0);
                assert(old_self.applications[b].0 == apps[b].0);
            }
        }
        Ok(())
    }

    /// Moves the deadline.
    pub fn set_deadline(&mut self, caller: &String, deadline: u64) -> (r: Result<
        (),
        RegistryError,
    >)
        requires
            old(self).wf(),
        ensures
            final(self).wf(),
            match set_deadline_step(old(self)@, caller@, deadline) {
                Ok(v) => r is Ok && final(self)@ == v,
                Err(e) => r == Err::<(), RegistryError>(e) && final(self)@ == old(self)@,
            },
    {
        if !self.is_owner(caller) {
            return Err(RegistryError::Unauthorized);
        }
        self.deadline = Some(deadline);
        Ok(())
    }
}

} // verus!
