use stellovault::ledger::{
    bytes_equal, contains_address, copy_bytes, digest_equal, Address, Env,
};

#[test]
fn addresses_are_compared_by_their_string() {
    let a = Address::from_str("GABC");
    let b = Address::new("GABC".to_string());
    let c = Address::from_str("GABD");
    assert!(a.same(&b));
    assert!(!a.same(&c));
    assert!(!a.same(&Address::from_str("GAB")));
    assert!(!a.same(&Address::from_str("gabc")));
    assert_eq!(a.clone(), a);
    assert_eq!(a.strkey, "GABC");
    assert!(Address::from_str("").same(&Address::new(String::new())));
}

#[test]
fn an_env_authorizes_whom_it_was_told() {
    let a = Address::from_str("GA");
    let b = Address::from_str("GB");
    let mut env = Env::new(17);
    assert_eq!(env.timestamp(), 17);
    assert!(!env.is_authorized(&a));
    env.authorize(a.clone());
    assert!(env.is_authorized(&a));
    assert!(!env.is_authorized(&b));
    env.authorize(b.clone());
    env.authorize(a.clone());
    assert!(env.is_authorized(&a));
    assert!(env.is_authorized(&b));
    env.set_timestamp(u64::MAX);
    assert_eq!(env.timestamp(), u64::MAX);
    assert!(env.is_authorized(&b));
}

#[test]
fn address_lists() {
    let list = vec![Address::from_str("GA"), Address::from_str("GB")];
    assert!(contains_address(&list, &Address::from_str("GA")));
    assert!(contains_address(&list, &Address::from_str("GB")));
    assert!(!contains_address(&list, &Address::from_str("GC")));
    assert!(!contains_address(&Vec::new(), &Address::from_str("GA")));
}

#[test]
fn byte_strings() {
    assert!(bytes_equal(&vec![], &vec![]));
    assert!(bytes_equal(&vec![1, 2, 3], &vec![1, 2, 3]));
    assert!(!bytes_equal(&vec![1, 2, 3], &vec![1, 2]));
    assert!(!bytes_equal(&vec![1, 2], &vec![1, 2, 3]));
    assert!(!bytes_equal(&vec![1, 2, 3], &vec![1, 2, 4]));
    assert!(!bytes_equal(&vec![0, 2, 3], &vec![1, 2, 3]));
    assert_eq!(copy_bytes(&vec![9, 8, 7]), vec![9, 8, 7]);
    assert_eq!(copy_bytes(&Vec::new()), Vec::<u8>::new());
}

#[test]
fn digests() {
    let a = [5u8; 32];
    let mut b = [5u8; 32];
    assert!(digest_equal(&a, &b));
    b[31] = 6;
    assert!(!digest_equal(&a, &b));
    b[31] = 5;
    b[0] = 4;
    assert!(!digest_equal(&a, &b));
}
