use anchor_lang::prelude::Pubkey;
use sized_data::Registry;

fn name(s: &str) -> String {
    String::from(s)
}

#[test]
fn new_registry_knows_no_type() {
    let reg = Registry::new();
    assert_eq!(reg.lookup(&name("u64")), None);
    assert_eq!(reg.lookup(&name("")), None);
}

#[test]
fn primitives_are_registered_under_their_names() {
    let reg = Registry::with_primitives();
    assert_eq!(reg.lookup(&name("u64")), Some(8));
    assert_eq!(reg.lookup(&name("[u8; 32]")), Some(32));
    assert_eq!(reg.lookup(&name("Pubkey")), Some(32));
    assert_eq!(reg.lookup(&name("u8")), Some(1));
    assert_eq!(reg.lookup(&name("u16")), None);
    assert_eq!(reg.lookup(&name("[u8;32]")), None);
}

#[test]
fn insert_registers_a_new_name() {
    let mut reg = Registry::new();
    assert!(reg.insert(name("Header"), 40));
    assert_eq!(reg.lookup(&name("Header")), Some(40));
    assert_eq!(reg.lookup(&name("header")), None);
}

#[test]
fn a_registered_name_keeps_its_width() {
    let mut reg = Registry::with_primitives();
    assert!(!reg.insert(name("u64"), 4));
    assert_eq!(reg.lookup(&name("u64")), Some(8));
    assert!(reg.insert(name("Flag"), 1));
    assert!(!reg.insert(name("Flag"), 2));
    assert_eq!(reg.lookup(&name("Flag")), Some(1));
}

#[test]
fn register_takes_the_width_from_the_type() {
    let mut reg = Registry::new();
    assert!(reg.register::<Pubkey>(name("Authority")));
    assert!(reg.register::<(u64, [u8; 32])>(name("Header")));
    assert!(reg.register::<()>(name("Marker")));
    assert_eq!(reg.lookup(&name("Authority")), Some(32));
    assert_eq!(reg.lookup(&name("Header")), Some(40));
    assert_eq!(reg.lookup(&name("Marker")), Some(0));
    assert!(!reg.register::<u8>(name("Header")));
    assert_eq!(reg.lookup(&name("Header")), Some(40));
}

#[test]
fn a_zero_width_is_a_width() {
    let mut reg = Registry::new();
    assert!(reg.insert(name("Nothing"), 0));
    assert_eq!(reg.lookup(&name("Nothing")), Some(0));
    assert!(!reg.insert(name("Nothing"), 3));
}
