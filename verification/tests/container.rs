use exum::container::{LazyDependencyContainer, StateDef, Step};

fn sample() -> LazyDependencyContainer<u32, String> {
    LazyDependencyContainer::new(vec![
        StateDef { type_id: 10, prewarm: false, init_fn: 100 },
        StateDef { type_id: 20, prewarm: true, init_fn: 200 },
        StateDef { type_id: 30, prewarm: true, init_fn: 300 },
    ])
}

#[test]
fn many_lookups_construct_once() {
    let mut c = sample();
    let mut constructs = 0;
    let mut waits = 0;
    for _ in 0..5 {
        match c.get(10) {
            Step::Construct => constructs += 1,
            Step::Wait => waits += 1,
            Step::Ready => panic!("nothing was built yet"),
        }
    }
    assert_eq!(constructs, 1);
    assert_eq!(waits, 4);
    assert!(c.instance(10).is_none());
    assert!(c.fulfil(10, "instance".to_string()));
    for _ in 0..5 {
        assert_eq!(c.get(10), Step::Ready);
        assert_eq!(c.instance(10), Some(&"instance".to_string()));
    }
}

#[test]
fn first_instance_wins() {
    let mut c = sample();
    assert_eq!(c.get(10), Step::Construct);
    assert!(c.fulfil(10, "first".to_string()));
    assert!(!c.fulfil(10, "second".to_string()));
    assert_eq!(c.instance(10), Some(&"first".to_string()));
}

#[test]
fn fulfil_without_lookup_is_ignored() {
    let mut c = sample();
    assert!(!c.fulfil(10, "early".to_string()));
    assert!(!c.fulfil(99, "unknown".to_string()));
    assert_eq!(c.get(10), Step::Construct);
}

#[test]
fn prewarmed_service_is_built_once() {
    let mut c = sample();
    let keys = c.prewarm_all();
    assert_eq!(keys, vec![20, 30]);
    let mut built = 0;
    for key in keys {
        if c.get(key) == Step::Construct {
            built += 1;
            assert!(c.fulfil(key, format!("service {}", key)));
        }
    }
    assert_eq!(built, 2);
    assert_eq!(c.get(20), Step::Ready);
    assert_eq!(c.get(30), Step::Ready);
    assert_eq!(c.instance(20), Some(&"service 20".to_string()));
    assert_eq!(c.get(10), Step::Construct);
}

#[test]
fn factory_may_look_up_another_service() {
    let mut c = sample();
    assert_eq!(c.get(10), Step::Construct);
    assert_eq!(c.get(20), Step::Construct);
    assert!(c.fulfil(20, "inner".to_string()));
    assert_eq!(c.get(20), Step::Ready);
    assert!(c.fulfil(10, "outer".to_string()));
    assert_eq!(c.instance(10), Some(&"outer".to_string()));
    assert_eq!(c.instance(20), Some(&"inner".to_string()));
}

#[test]
fn register_and_contains() {
    let mut c: LazyDependencyContainer<u32, String> = LazyDependencyContainer::empty();
    assert!(!c.contains(1));
    c.register(1, false, 11);
    c.register(2, true, 22);
    assert!(c.contains(1));
    assert!(c.contains(2));
    assert!(!c.contains(3));
    assert_eq!(*c.factory(1), 11);
    assert_eq!(*c.factory(2), 22);
    assert_eq!(c.prewarm_all(), vec![2]);
}

#[test]
fn registering_again_replaces_factory_and_empties_cell() {
    let mut c: LazyDependencyContainer<u32, String> = LazyDependencyContainer::empty();
    c.register(1, false, 11);
    c.register(2, false, 22);
    assert_eq!(c.get(1), Step::Construct);
    assert!(c.fulfil(1, "old".to_string()));
    c.register(1, true, 12);
    assert_eq!(*c.factory(1), 12);
    assert!(c.instance(1).is_none());
    assert_eq!(c.get(1), Step::Construct);
    assert_eq!(c.prewarm_all(), vec![1]);
    assert_eq!(*c.factory(2), 22);
}

#[test]
fn new_registers_in_order_and_last_wins() {
    let c: LazyDependencyContainer<u32, String> = LazyDependencyContainer::new(vec![
        StateDef { type_id: 5, prewarm: true, init_fn: 1 },
        StateDef { type_id: 6, prewarm: true, init_fn: 2 },
        StateDef { type_id: 5, prewarm: true, init_fn: 3 },
    ]);
    assert_eq!(*c.factory(5), 3);
    assert_eq!(c.prewarm_all(), vec![5, 6]);
}
