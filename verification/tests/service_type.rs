use toy_core::ServiceType;

#[test]
fn st_from_str() {
    assert_eq!(
        ServiceType::from_full_name("a.b.c").unwrap(),
        ServiceType::new("a.b", "c").unwrap()
    );
}

#[test]
fn st_from_full_name_parts() {
    let t = ServiceType::from_full_name("a.b.c").unwrap();
    assert_eq!(t.name_space(), "a.b");
    assert_eq!(t.service_name(), "c");
    assert_eq!(t.full_name(), "a.b.c");
}

#[test]
fn st_from_full_name_errors() {
    assert!(ServiceType::from_full_name("").is_err());
    assert!(ServiceType::from_full_name("abc").is_err());
}

#[test]
fn st_new_errors() {
    assert!(ServiceType::new("", "c").is_err());
    assert!(ServiceType::new("a", "").is_err());
    assert_eq!(ServiceType::new("a", "b").unwrap().full_name(), "a.b");
}

#[test]
fn st_noop_and_default() {
    let n = ServiceType::noop();
    assert_eq!(n.full_name(), "builtin.noop");
    assert_eq!(ServiceType::default(), n);
}
