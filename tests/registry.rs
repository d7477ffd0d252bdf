use chat_relay::registry::{Member, NameTaken, Registry};

#[test]
fn register_and_look_up_both_ways() {
    let mut reg: Registry<u32, ()> = Registry::new();
    assert_eq!(reg.register(1, "alice".to_string(), 10, ()), Ok(()));
    assert_eq!(reg.register(2, "bob".to_string(), 20, ()), Ok(()));
    assert_eq!(reg.lookup_by_name("alice"), Some(1));
    assert_eq!(reg.lookup_by_name("bob"), Some(2));
    assert_eq!(reg.lookup_by_name("carol"), None);
    assert_eq!(reg.lookup_by_id(1), Some(&10));
    assert_eq!(reg.lookup_by_id(2), Some(&20));
    assert_eq!(reg.lookup_by_id(3), None);
    assert_eq!(reg.name_of(2), Some("bob".to_string()));
    assert_eq!(reg.name_of(3), None);
    let name = reg.name_of(1).unwrap();
    assert_eq!(reg.lookup_by_name(&name), Some(1));
}

#[test]
fn taken_name_is_refused_without_change() {
    let mut reg: Registry<u32, ()> = Registry::new();
    assert_eq!(reg.register(1, "alice".to_string(), 10, ()), Ok(()));
    assert_eq!(reg.register(2, "alice".to_string(), 20, ()), Err(NameTaken));
    assert_eq!(reg.lookup_by_name("alice"), Some(1));
    assert_eq!(reg.lookup_by_id(1), Some(&10));
    assert_eq!(reg.lookup_by_id(2), None);
    assert_eq!(reg.name_of(2), None);
}

#[test]
fn deregister_is_idempotent() {
    let mut reg: Registry<u32, u8> = Registry::new();
    assert_eq!(reg.register(1, "alice".to_string(), 10, 7), Ok(()));
    assert_eq!(
        reg.deregister(1),
        Some(Member { name: "alice".to_string(), queue: 10, cancel: 7 })
    );
    assert_eq!(reg.deregister(1), None);
    assert_eq!(reg.deregister(99), None);
    assert_eq!(reg.lookup_by_id(1), None);
    assert_eq!(reg.lookup_by_name("alice"), None);
}

#[test]
fn removed_name_can_be_registered_again() {
    let mut reg: Registry<u32, ()> = Registry::new();
    assert_eq!(reg.register(1, "alice".to_string(), 10, ()), Ok(()));
    assert!(reg.deregister(1).is_some());
    assert_eq!(reg.register(5, "alice".to_string(), 50, ()), Ok(()));
    assert_eq!(reg.lookup_by_name("alice"), Some(5));
    assert_eq!(reg.lookup_by_id(5), Some(&50));
}

#[test]
fn registering_an_id_again_replaces_its_entry() {
    let mut reg: Registry<u32, ()> = Registry::new();
    assert_eq!(reg.register(1, "alice".to_string(), 10, ()), Ok(()));
    assert_eq!(reg.register(1, "alicia".to_string(), 11, ()), Ok(()));
    assert_eq!(reg.lookup_by_name("alice"), None);
    assert_eq!(reg.lookup_by_name("alicia"), Some(1));
    assert_eq!(reg.lookup_by_id(1), Some(&11));
}
