use collateral::oracle::Oracle;

const OWNER: [u8; 32] = [7u8; 32];

#[test]
fn sample_test() {
    let mut oracle = Oracle::new(OWNER);
    assert_eq!(oracle.get(String::from("foo")), String::from(""));

    oracle.set(OWNER, String::from("foo"), String::from("bar"));
    assert_eq!(oracle.get(String::from("foo")), String::from("bar"));
}

#[test]
fn oracle_owner_is_instantiating_account() {
    let oracle = Oracle::new(OWNER);
    assert_eq!(oracle.owner(), OWNER);
}

#[test]
fn oracle_later_write_replaces_earlier() {
    let mut oracle = Oracle::new(OWNER);
    oracle.set(OWNER, String::from("nft/0x11"), String::from("1500000"));
    oracle.set(OWNER, String::from("nft/0x11"), String::from("1700000"));
    assert_eq!(oracle.get(String::from("nft/0x11")), String::from("1700000"));
}

#[test]
fn oracle_write_leaves_other_keys() {
    let mut oracle = Oracle::new(OWNER);
    oracle.set(OWNER, String::from("a"), String::from("1"));
    oracle.set(OWNER, String::from("b"), String::from("2"));
    assert_eq!(oracle.get(String::from("a")), String::from("1"));
    assert_eq!(oracle.get(String::from("b")), String::from("2"));
    assert_eq!(oracle.get(String::from("c")), String::from(""));
}
