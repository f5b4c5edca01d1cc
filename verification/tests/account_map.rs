use priority_check::account::Account;
use priority_check::account_map::AccountMap;

fn account(first: u8, last: u8) -> Account {
    let mut bytes = [0u8; 32];
    bytes[0] = first;
    bytes[31] = last;
    Account::new(bytes)
}

#[test]
fn new_map_holds_nothing() {
    let map: AccountMap<u64> = AccountMap::new();
    assert_eq!(map.get(&account(0, 0)), None);
    assert_eq!(map.get(&account(1, 2)), None);
}

#[test]
fn inserted_value_is_found() {
    let mut map: AccountMap<u64> = AccountMap::new();
    map.insert(account(1, 2), 12);
    assert_eq!(map.get(&account(1, 2)), Some(&12));
    assert_eq!(map.get(&account(2, 1)), None);
}

#[test]
fn insert_replaces() {
    let mut map: AccountMap<u64> = AccountMap::new();
    map.insert(account(1, 2), 12);
    map.insert(account(1, 2), 13);
    assert_eq!(map.get(&account(1, 2)), Some(&13));
}

#[test]
fn accounts_with_one_half_in_common_are_distinct_keys() {
    let mut map: AccountMap<u64> = AccountMap::new();
    map.insert(account(1, 1), 11);
    map.insert(account(1, 2), 12);
    map.insert(account(2, 1), 21);
    assert_eq!(map.get(&account(1, 1)), Some(&11));
    assert_eq!(map.get(&account(1, 2)), Some(&12));
    assert_eq!(map.get(&account(2, 1)), Some(&21));
    assert_eq!(map.get(&account(2, 2)), None);
    map.insert(account(1, 2), 120);
    assert_eq!(map.get(&account(1, 1)), Some(&11));
    assert_eq!(map.get(&account(1, 2)), Some(&120));
}

#[test]
fn every_byte_tells_accounts_apart() {
    let mut map: AccountMap<usize> = AccountMap::new();
    for position in 0..32 {
        let mut bytes = [0u8; 32];
        bytes[position] = 1;
        map.insert(Account::new(bytes), position);
    }
    for position in 0..32 {
        let mut bytes = [0u8; 32];
        bytes[position] = 1;
        assert_eq!(map.get(&Account::new(bytes)), Some(&position));
    }
    assert_eq!(map.get(&Account::new([0; 32])), None);
    assert_eq!(map.get(&Account::new([1; 32])), None);
}
