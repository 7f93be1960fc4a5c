use chat_relay::registry::AddrMap;

#[test]
fn add_then_get_returns_handle() {
    let mut addrs = AddrMap::new();
    let u = "alice".to_string();
    addrs.add_addr(&u, 7);
    assert_eq!(addrs.get_addr(&u), Some(7));
}

#[test]
fn second_add_wins() {
    let mut addrs = AddrMap::new();
    let u = "alice".to_string();
    addrs.add_addr(&u, 1);
    addrs.add_addr(&u, 2);
    assert_eq!(addrs.get_addr(&u), Some(2));
}

#[test]
fn remove_makes_user_offline() {
    let mut addrs = AddrMap::new();
    let u = "alice".to_string();
    addrs.add_addr(&u, 1);
    addrs.add_addr(&u, 2);
    addrs.remove_addr(&u);
    assert_eq!(addrs.get_addr(&u), None);
}

#[test]
fn other_users_unaffected() {
    let mut addrs = AddrMap::new();
    let a = "alice".to_string();
    let b = "bob".to_string();
    addrs.add_addr(&a, 1);
    addrs.add_addr(&b, 2);
    addrs.remove_addr(&a);
    assert_eq!(addrs.get_addr(&a), None);
    assert_eq!(addrs.get_addr(&b), Some(2));
}

#[test]
fn get_absent_is_none_not_error() {
    let addrs = AddrMap::new();
    assert_eq!(addrs.get_addr(&"nobody".to_string()), None);
}
