use registry::registry::{ApplicationData, Contract, RegistryError};

fn owner() -> String {
    "owner.near".to_string()
}

fn app(description: &str) -> ApplicationData {
    ApplicationData {
        description: description.to_string(),
        github_url: "https://github.com/example/project".to_string(),
        contact_data: "team@example.com".to_string(),
        contract_id: "project.near".to_string(),
        youtube_url: None,
        reward: None,
        hidden: None,
    }
}

fn ids(page: &[(String, ApplicationData)]) -> Vec<String> {
    page.iter().map(|(k, _)| k.clone()).collect()
}

#[test]
fn new_registry_is_empty() {
    let c = Contract::new(owner(), Some(10), 500);
    assert_eq!(c.owner_id(), &owner());
    assert_eq!(c.deadline(), Some(10));
    assert_eq!(c.prize_pool(), 500);
    assert_eq!(c.prize_pool_distributed(), 0);
    assert!(c.get_applications(None, None).is_empty());
}

#[test]
fn pool_scenario_exhausts_exactly() {
    let mut c = Contract::new(owner(), None, 100);
    let a = "alice.near".to_string();
    let b = "bob.near".to_string();
    assert!(c.register(&a, 1, app("A")).is_ok());
    assert!(c.register(&b, 1, app("B")).is_ok());

    let p = c.set_winner(&owner(), a.clone(), 60).ok().unwrap();
    assert_eq!(p.receiver, a);
    assert_eq!(p.amount, 60);
    assert_eq!(c.prize_pool_distributed(), 60);

    assert_eq!(c.set_winner(&owner(), b.clone(), 50).err(), Some(RegistryError::PoolExhausted));
    assert_eq!(c.prize_pool_distributed(), 60);

    let p = c.set_winner(&owner(), b.clone(), 40).ok().unwrap();
    assert_eq!(p.receiver, b);
    assert_eq!(p.amount, 40);
    assert_eq!(c.prize_pool_distributed(), 100);
    assert!(c.prize_pool_distributed() <= c.prize_pool());
}

#[test]
fn register_around_deadline() {
    let t: u64 = 1_000;
    let mut c = Contract::new(owner(), Some(t), 0);
    assert_eq!(c.register(&"early.near".to_string(), t - 1, app("e")), Ok(()));
    assert_eq!(c.register(&"ontime.near".to_string(), t, app("o")), Ok(()));
    assert_eq!(
        c.register(&"late.near".to_string(), t + 1, app("l")),
        Err(RegistryError::DeadlineExceeded)
    );
    assert_eq!(ids(&c.get_applications(None, None)), vec!["early.near", "ontime.near"]);
}

#[test]
fn late_registration_leaves_entries_unchanged() {
    let mut c = Contract::new(owner(), Some(5), 0);
    let a = "alice.near".to_string();
    c.register(&a, 5, app("first")).unwrap();
    assert_eq!(c.register(&a, 6, app("second")), Err(RegistryError::DeadlineExceeded));
    let page = c.get_applications(None, None);
    assert_eq!(page.len(), 1);
    assert_eq!(page[0].1.description, "first");
}

#[test]
fn non_admin_cannot_set_deadline() {
    let mut c = Contract::new(owner(), Some(7), 0);
    assert_eq!(
        c.set_deadline(&"mallory.near".to_string(), 99),
        Err(RegistryError::Unauthorized)
    );
    assert_eq!(c.deadline(), Some(7));
    assert_eq!(c.set_deadline(&owner(), 99), Ok(()));
    assert_eq!(c.deadline(), Some(99));
}

#[test]
fn admin_can_set_deadline_when_none() {
    let mut c = Contract::new(owner(), None, 0);
    assert_eq!(c.register(&"a.near".to_string(), u64::MAX, app("a")), Ok(()));
    c.set_deadline(&owner(), 3).unwrap();
    assert_eq!(
        c.register(&"b.near".to_string(), 4, app("b")),
        Err(RegistryError::DeadlineExceeded)
    );
}

#[test]
fn reregistration_overwrites_and_resets_admin_fields() {
    let mut c = Contract::new(owner(), None, 100);
    let a = "alice.near".to_string();
    let b = "bob.near".to_string();
    c.register(&a, 0, app("first")).unwrap();
    c.register(&b, 0, app("bob")).unwrap();
    c.set_winner(&owner(), a.clone(), 10).ok().unwrap();
    c.set_hidden(&owner(), &a, true).unwrap();

    let mut forged = app("second");
    forged.reward = Some(1_000);
    forged.hidden = Some(true);
    forged.youtube_url = Some("https://youtu.be/x".to_string());
    c.register(&a, 0, forged).unwrap();

    let page = c.get_applications(None, None);
    assert_eq!(ids(&page), vec!["alice.near", "bob.near"]);
    let entry = &page[0].1;
    assert_eq!(entry.description, "second");
    assert_eq!(entry.youtube_url, Some("https://youtu.be/x".to_string()));
    assert_eq!(entry.reward, None);
    assert_eq!(entry.hidden, Some(false));
    assert_eq!(page[1].1.description, "bob");
}

#[test]
fn pagination_windows() {
    let mut c = Contract::new(owner(), None, 0);
    for name in ["a", "b", "c", "d", "e"] {
        c.register(&format!("{}.near", name), 0, app(name)).unwrap();
    }
    assert_eq!(ids(&c.get_applications(Some(1), Some(2))), vec!["b.near", "c.near"]);
    assert_eq!(ids(&c.get_applications(Some(3), None)), vec!["d.near", "e.near"]);
    assert_eq!(ids(&c.get_applications(None, Some(2))), vec!["a.near", "b.near"]);
    assert_eq!(ids(&c.get_applications(Some(4), Some(10))), vec!["e.near"]);
    assert_eq!(ids(&c.get_applications(Some(2), Some(u64::MAX))), vec!["c.near", "d.near", "e.near"]);
    assert!(c.get_applications(Some(5), None).is_empty());
    assert!(c.get_applications(Some(u64::MAX), Some(3)).is_empty());
    assert!(c.get_applications(Some(0), Some(0)).is_empty());
    assert_eq!(c.get_applications(None, None).len(), 5);
}

#[test]
fn second_reward_is_refused() {
    let mut c = Contract::new(owner(), None, 1_000);
    let a = "alice.near".to_string();
    c.register(&a, 0, app("a")).unwrap();
    assert!(c.set_winner(&owner(), a.clone(), 100).is_ok());
    assert_eq!(c.set_winner(&owner(), a.clone(), 1).err(), Some(RegistryError::AlreadyRewarded));
    assert_eq!(c.prize_pool_distributed(), 100);
    assert_eq!(c.get_applications(None, None)[0].1.reward, Some(100));
}

#[test]
fn set_winner_refusals_in_order() {
    let mut c = Contract::new(owner(), None, 10);
    let a = "alice.near".to_string();
    assert_eq!(
        c.set_winner(&"mallory.near".to_string(), a.clone(), 1).err(),
        Some(RegistryError::Unauthorized)
    );
    assert_eq!(c.set_winner(&owner(), a.clone(), 1).err(), Some(RegistryError::NotFound));
    c.register(&a, 0, app("a")).unwrap();
    assert_eq!(c.set_winner(&owner(), a.clone(), 11).err(), Some(RegistryError::PoolExhausted));
    assert_eq!(
        c.set_winner(&owner(), a.clone(), u128::MAX).err(),
        Some(RegistryError::PoolExhausted)
    );
    assert_eq!(c.prize_pool_distributed(), 0);
    assert!(c.set_winner(&owner(), a.clone(), 10).is_ok());
    assert_eq!(c.prize_pool_distributed(), 10);
}

#[test]
fn zero_pool_allows_zero_reward_only() {
    let mut c = Contract::new(owner(), None, 0);
    let a = "alice.near".to_string();
    c.register(&a, 0, app("a")).unwrap();
    assert_eq!(c.set_winner(&owner(), a.clone(), 1).err(), Some(RegistryError::PoolExhausted));
    assert!(c.set_winner(&owner(), a.clone(), 0).is_ok());
    assert_eq!(c.get_applications(None, None)[0].1.reward, Some(0));
}

#[test]
fn set_hidden_writes_the_target_entry() {
    let mut c = Contract::new(owner(), None, 0);
    let a = "alice.near".to_string();
    let b = "bob.near".to_string();
    c.register(&a, 0, app("a")).unwrap();
    c.register(&b, 0, app("b")).unwrap();
    assert_eq!(c.set_hidden(&owner(), &a, true), Ok(()));
    let page = c.get_applications(None, None);
    assert_eq!(ids(&page), vec!["alice.near", "bob.near"]);
    assert_eq!(page[0].1.hidden, Some(true));
    assert_eq!(page[1].1.hidden, Some(false));
    assert_eq!(ids(&c.visible_applications()), vec!["bob.near"]);

    assert_eq!(c.set_hidden(&owner(), &a, false), Ok(()));
    assert_eq!(ids(&c.visible_applications()), vec!["alice.near", "bob.near"]);
}

#[test]
fn set_hidden_refusals() {
    let mut c = Contract::new(owner(), None, 0);
    let a = "alice.near".to_string();
    c.register(&a, 0, app("a")).unwrap();
    assert_eq!(c.set_hidden(&a, &a, true), Err(RegistryError::Unauthorized));
    assert_eq!(
        c.set_hidden(&owner(), &"ghost.near".to_string(), true),
        Err(RegistryError::NotFound)
    );
    assert_eq!(c.get_applications(None, None)[0].1.hidden, Some(false));
}

#[test]
fn error_codes() {
    assert_eq!(RegistryError::DeadlineExceeded.code(), "ERR_TOO_LATE");
    assert_eq!(RegistryError::Unauthorized.code(), "ERR_NOT_OWNER");
    assert_eq!(RegistryError::NotFound.code(), "ERR_APPLICATION_NOT_FOUND");
    assert_eq!(RegistryError::AlreadyRewarded.code(), "ERR_REWARD_ALREADY_EXIST");
    assert_eq!(RegistryError::PoolExhausted.code(), "ERR_NOT_ENOUGH_REWARDS");
}

#[test]
fn copy_keeps_every_field() {
    let mut a = app("x");
    a.youtube_url = Some("y".to_string());
    a.reward = Some(3);
    a.hidden = Some(true);
    let b = a.copy();
    assert_eq!(b.description, "x");
    assert_eq!(b.github_url, a.github_url);
    assert_eq!(b.contact_data, a.contact_data);
    assert_eq!(b.contract_id, a.contract_id);
    assert_eq!(b.youtube_url, Some("y".to_string()));
    assert_eq!(b.reward, Some(3));
    assert_eq!(b.hidden, Some(true));
}

#[test]
fn restore_accepts_consistent_parts() {
    let entries = vec![
        ("a.near".to_string(), app("a")),
        ("b.near".to_string(), app("b")),
    ];
    let c = Contract::restore(owner(), Some(4), 50, 20, entries).unwrap();
    assert_eq!(c.deadline(), Some(4));
    assert_eq!(c.prize_pool(), 50);
    assert_eq!(c.prize_pool_distributed(), 20);
    assert_eq!(ids(&c.get_applications(None, None)), vec!["a.near", "b.near"]);
    assert!(Contract::restore(owner(), None, 50, 50, Vec::new()).is_some());
}

#[test]
fn restore_rejects_broken_parts() {
    assert!(Contract::restore(owner(), None, 10, 11, Vec::new()).is_none());
    let twice = vec![
        ("a.near".to_string(), app("a")),
        ("b.near".to_string(), app("b")),
        ("a.near".to_string(), app("c")),
    ];
    assert!(Contract::restore(owner(), None, 10, 0, twice).is_none());
}
