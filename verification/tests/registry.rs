use handle_registry::hub::Hub;
use handle_registry::shared::SharedRegistry;
use handle_registry::table::Registrations;

#[test]
fn fresh_table_tracks_nothing() {
    let t: Registrations<u32> = Registrations::new();
    assert!(!t.contains(0));
    assert!(!t.contains(7));
}

#[test]
fn fresh_identifiers_count_up() {
    let mut t: Registrations<char> = Registrations::new();
    assert_eq!(t.register('a'), 0);
    assert_eq!(t.register('b'), 1);
    assert_eq!(t.register('c'), 2);
}

#[test]
fn register_returns_distinct_ids() {
    let mut t: Registrations<u64> = Registrations::new();
    let a = t.register(10);
    let b = t.register(20);
    let c = t.register(30);
    assert!(a != b);
    assert!(b != c);
    assert!(a != c);
}

#[test]
fn round_trip_returns_same_value() {
    let mut t: Registrations<String> = Registrations::new();
    let id = t.register(String::from("adapter"));
    assert_eq!(t.take(id), String::from("adapter"));
    assert!(!t.contains(id));
}

#[test]
fn identifier_reuse_yields_new_value() {
    let mut t: Registrations<u32> = Registrations::new();
    let id = t.register(1);
    let taken = t.take(id);
    assert_eq!(taken, 1);
    let id2 = t.register(2);
    assert_eq!(id2, id);
    assert_eq!(*t.get(id2), 2);
}

#[test]
fn most_recently_freed_identifier_is_reused_first() {
    let mut t: Registrations<u32> = Registrations::new();
    let a = t.register(1);
    let b = t.register(2);
    let c = t.register(3);
    assert_eq!((a, b, c), (0, 1, 2));
    t.take(a);
    t.take(c);
    assert_eq!(t.register(4), c);
    assert_eq!(t.register(5), a);
    assert_eq!(t.register(6), 3);
    assert!(t.contains(b));
}

#[test]
fn no_premature_reuse() {
    let mut t: Registrations<u32> = Registrations::new();
    let a = t.register(1);
    let b = t.register(2);
    t.take(a);
    let c = t.register(3);
    assert_eq!(c, a);
    let d = t.register(4);
    assert!(d != a);
    assert!(d != b);
    assert!(t.contains(b));
    assert_eq!(*t.get(b), 2);
}

#[test]
fn mutation_is_visible() {
    let mut t: Registrations<Vec<u8>> = Registrations::new();
    let id = t.register(vec![1]);
    t.get_mut(id).push(2);
    assert_eq!(*t.get(id), vec![1, 2]);
    assert_eq!(t.take(id), vec![1, 2]);
}

#[test]
fn device_scenario() {
    let mut t: Registrations<String> = Registrations::new();
    let d0 = t.register(String::from("A"));
    let d1 = t.register(String::from("B"));
    assert_ne!(d0, d1);
    *t.get_mut(d0) = String::from("A-mutated");
    assert_eq!(t.take(d0), String::from("A-mutated"));
    assert!(!t.contains(d0));
    let d2 = t.register(String::from("C"));
    assert_eq!(d2, d0);
    assert_eq!(*t.get(d0), String::from("C"));
    assert_eq!(*t.get(d1), String::from("B"));
}

#[test]
fn shared_registry_round_trip() {
    let r: SharedRegistry<u32> = SharedRegistry::new();
    let id = r.register(7).unwrap();
    assert_eq!(r.take(id), Some(7));
    assert_eq!(r.take(id), None);
}

#[test]
fn shared_registry_distinct_ids() {
    let r: SharedRegistry<u32> = SharedRegistry::new();
    let a = r.register(1).unwrap();
    let b = r.register(2).unwrap();
    assert_ne!(a, b);
    assert_eq!(r.take(a), Some(1));
    assert_eq!(r.take(b), Some(2));
}

#[test]
fn shared_registry_replace_is_visible() {
    let r: SharedRegistry<u32> = SharedRegistry::new();
    let id = r.register(1).unwrap();
    assert_eq!(r.replace(id, 2), Some(1));
    assert_eq!(r.take(id), Some(2));
    assert_eq!(r.replace(id, 3), None);
}

#[test]
fn hub_kinds_are_independent() {
    let hub: Hub<u32, u32, u32, u32, u32, u32> = Hub::new();
    let a = hub.adapters.register(1).unwrap();
    let d = hub.devices.register(2).unwrap();
    assert_eq!(a, 0);
    assert_eq!(d, 0);
    assert_eq!(hub.adapters.take(a), Some(1));
    assert_eq!(hub.devices.take(d), Some(2));
    assert_eq!(hub.command_buffers.take(0), None);
}
