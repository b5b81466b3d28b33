use mmo::gfx::pairing::Binding;
use mmo::gfx::pairing::BoundBinding;
use mmo::gfx::pairing::PairingCache;

fn cache(rows: usize, columns: usize) -> PairingCache {
    let mut cache = PairingCache::new();
    for _ in 0..columns {
        cache.add_column();
    }
    for _ in 0..rows {
        cache.add_row();
    }
    cache
}

#[test]
fn new_cache_is_empty() {
    let cache = PairingCache::new();
    assert_eq!(cache.rows(), 0);
    assert_eq!(cache.columns(), 0);
}

#[test]
fn cache_grows_in_both_directions() {
    let mut cache = PairingCache::new();
    cache.add_column();
    cache.add_row();
    cache.add_row();
    cache.add_column();
    assert_eq!(cache.rows(), 2);
    assert_eq!(cache.columns(), 2);
    for v in 0..2 {
        for e in 0..2 {
            assert_eq!(cache.get(v, e), None);
        }
    }
}

#[test]
fn growing_keeps_the_bindings() {
    let mut cache = cache(1, 1);
    cache.get_or_create(0, 0, Some(40)).unwrap();
    cache.add_row();
    cache.add_column();
    assert_eq!(cache.get(0, 0), Some(40));
    assert_eq!(cache.get(0, 1), None);
    assert_eq!(cache.get(1, 0), None);
    assert_eq!(cache.get(1, 1), None);
}

#[test]
fn get_or_create_twice_returns_the_same_binding_and_creates_once() {
    let mut cache = cache(2, 3);
    let first = cache.get_or_create(1, 2, Some(77)).unwrap();
    assert_eq!(first, Binding { id: 77, created: true });
    let second = cache.get_or_create(1, 2, Some(78)).unwrap();
    assert_eq!(second, Binding { id: 77, created: false });
    let third = cache.get_or_create(1, 2, None).unwrap();
    assert_eq!(third, Binding { id: 77, created: false });
    assert_eq!(cache.get(1, 2), Some(77));
}

#[test]
fn a_miss_without_a_fresh_binding_gives_nothing() {
    let mut cache = cache(1, 1);
    assert_eq!(cache.get_or_create(0, 0, None), None);
    assert_eq!(cache.get(0, 0), None);
}

#[test]
fn each_pairing_has_its_own_binding() {
    let mut cache = cache(2, 2);
    cache.get_or_create(0, 0, Some(1)).unwrap();
    cache.get_or_create(0, 1, Some(2)).unwrap();
    cache.get_or_create(1, 0, Some(3)).unwrap();
    assert_eq!(cache.get(0, 0), Some(1));
    assert_eq!(cache.get(0, 1), Some(2));
    assert_eq!(cache.get(1, 0), Some(3));
    assert_eq!(cache.get(1, 1), None);
}

#[test]
fn clear_returns_the_bindings_row_by_row_and_keeps_the_size() {
    let mut cache = cache(2, 3);
    cache.get_or_create(1, 0, Some(30)).unwrap();
    cache.get_or_create(0, 2, Some(10)).unwrap();
    cache.get_or_create(1, 2, Some(40)).unwrap();
    cache.get_or_create(0, 0, Some(20)).unwrap();
    assert_eq!(cache.clear(), vec![20, 10, 30, 40]);
    assert_eq!(cache.rows(), 2);
    assert_eq!(cache.columns(), 3);
    for v in 0..2 {
        for e in 0..3 {
            assert_eq!(cache.get(v, e), None);
        }
    }
    assert_eq!(cache.clear(), Vec::<u32>::new());
    assert_eq!(cache.get_or_create(1, 2, Some(41)), Some(Binding { id: 41, created: true }));
}

#[test]
fn bind_vao_checked_rebinds_only_on_change() {
    let mut bound = BoundBinding::new();
    assert_eq!(bound.bound(), None);
    assert!(bound.bind_vao_checked(4));
    assert_eq!(bound.bound(), Some(4));
    assert!(!bound.bind_vao_checked(4));
    assert!(bound.bind_vao_checked(5));
    assert!(bound.bind_vao_checked(4));
    assert_eq!(bound.bound(), Some(4));
}
