use rathole::data_channel_handler::{
    get_data_channel_tcp_handler, get_data_channel_udp_handler,
    register_data_channel_tcp_handler, register_data_channel_udp_handler,
    unregister_data_channel_tcp_handler, unregister_data_channel_udp_handler,
};
use rathole::data_channel_limit::{
    get_data_channel_limiter, register_data_channel_limiter, unregister_data_channel_limiter,
    DataChannelLimiter,
};
use rathole::multi_map::MultiMap;
use rathole::registry::Registry;
use std::sync::Arc;

#[test]
fn registry_keeps_one_value_for_each_key() {
    let mut r: Registry<String, u32> = Registry::new();
    let a = "a".to_string();
    let b = "b".to_string();
    assert_eq!(r.get(&a), None);
    r.insert(a.clone(), 1);
    r.insert(b.clone(), 2);
    r.insert(a.clone(), 3);
    assert_eq!(r.len(), 2);
    assert_eq!(r.get(&a), Some(&3));
    assert_eq!(r.value_at(0), Some(&3));
    assert_eq!(r.value_at(1), Some(&2));
    assert_eq!(r.value_at(2), None);
    assert_eq!(r.remove(&a), Some(3));
    assert_eq!(r.remove(&a), None);
    assert_eq!(r.get(&b), Some(&2));
    assert_eq!(r.len(), 1);
}

#[test]
fn multi_map_is_found_by_either_key() {
    let mut m: MultiMap<&str> = MultiMap::new();
    assert_eq!(m.len(), 0);
    assert!(m.insert([1; 32], [11; 32], "one").is_ok());
    assert!(m.insert([2; 32], [12; 32], "two").is_ok());
    assert_eq!(m.get1(&[1; 32]), Some(&"one"));
    assert_eq!(m.get2(&[12; 32]), Some(&"two"));
    assert_eq!(m.get1(&[11; 32]), None);
    assert_eq!(m.get2(&[1; 32]), None);

    // Neither key may be used twice.
    assert_eq!(m.insert([1; 32], [13; 32], "x"), Err("x"));
    assert_eq!(m.insert([3; 32], [11; 32], "y"), Err("y"));
    assert_eq!(m.len(), 2);
    assert_eq!(m.value_at(0), Some(&"one"));

    assert_eq!(m.remove2(&[11; 32]), Some("one"));
    assert_eq!(m.remove2(&[11; 32]), None);
    assert_eq!(m.get1(&[1; 32]), None);
    assert_eq!(m.remove1(&[2; 32]), Some("two"));
    assert_eq!(m.remove1(&[2; 32]), None);
    assert_eq!(m.get2(&[12; 32]), None);
    assert_eq!(m.len(), 0);
    assert!(m.insert([1; 32], [11; 32], "again").is_ok());
}

#[test]
fn handlers_replace_each_other() {
    let mut r: Registry<String, Arc<u8>> = Registry::new();
    assert!(get_data_channel_tcp_handler(&r, "svc").is_none());
    let first = register_data_channel_tcp_handler(&mut r, "svc", Arc::new(1));
    assert_eq!(*first, 1);
    register_data_channel_tcp_handler(&mut r, "svc", Arc::new(2));
    assert_eq!(get_data_channel_tcp_handler(&r, "svc").as_deref(), Some(&2));
    assert_eq!(unregister_data_channel_tcp_handler(&mut r, "svc").as_deref(), Some(&2));
    assert!(unregister_data_channel_tcp_handler(&mut r, "svc").is_none());

    let mut u: Registry<String, Arc<u8>> = Registry::new();
    register_data_channel_udp_handler(&mut u, "svc", Arc::new(4));
    assert_eq!(get_data_channel_udp_handler(&u, "svc").as_deref(), Some(&4));
    assert_eq!(unregister_data_channel_udp_handler(&mut u, "svc").as_deref(), Some(&4));
    assert!(get_data_channel_udp_handler(&u, "svc").is_none());
}

#[test]
fn limiters_stay_once_registered() {
    let mut r: Registry<String, Arc<u8>> = Registry::new();
    let first = register_data_channel_limiter(&mut r, "svc", Arc::new(1));
    let second = register_data_channel_limiter(&mut r, "svc", Arc::new(2));
    assert_eq!((*first, *second), (1, 1));
    assert_eq!(get_data_channel_limiter(&r, "svc").as_deref(), Some(&1));
    assert_eq!(unregister_data_channel_limiter(&mut r, "svc").as_deref(), Some(&1));
    assert!(get_data_channel_limiter(&r, "svc").is_none());
}

#[test]
fn limiter_grants_up_to_its_limit() {
    let mut l = DataChannelLimiter::new(2);
    let a = l.try_acquire().unwrap();
    let _b = l.try_acquire().unwrap();
    assert!(l.try_acquire().is_none());
    assert_eq!(l.in_use(), 2);
    l.release(a);
    assert_eq!(l.in_use(), 1);
    assert!(l.try_acquire().is_some());

    // A lower limit leaves what runs alone.
    assert!(l.update_limit(1));
    assert!(!l.update_limit(1));
    assert_eq!(l.in_use(), 2);
    assert!(l.try_acquire().is_none());
    assert!(l.update_limit(3));
    assert!(l.try_acquire().is_some());
    assert!(DataChannelLimiter::new(0).try_acquire().is_none());
}
