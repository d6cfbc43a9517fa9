use penguin::handle::{calculate_padding, Handle, HandleMap};

#[test]
fn push_returns_handle_of_value() {
    let mut map: HandleMap<u64> = HandleMap::new();
    for v in [10u64, 20, 30] {
        let h = map.push(v);
        assert_eq!(*map.get(h), v);
        assert_eq!(h.id as usize, map.len() - 1);
    }
    assert_eq!(map.len(), 3);
    assert_eq!(map.inner, vec![10, 20, 30]);
}

#[test]
fn set_replaces_only_addressed_entry() {
    let mut map: HandleMap<u32> = HandleMap::new();
    let a = map.push(1);
    let b = map.push(2);
    map.set(a, 5);
    assert_eq!(*map.get(a), 5);
    assert_eq!(*map.get(b), 2);
}

#[test]
fn handle_from_index() {
    let h: Handle<u8> = Handle::from(7usize);
    assert_eq!(h.id, 7);
    assert_eq!(usize::from(h), 7);
    let n: Handle<u8> = Handle::new(3);
    assert_eq!(n.id, 3);
}

#[test]
fn padding_to_alignment() {
    assert_eq!(calculate_padding(10, 4), 2);
    assert_eq!(calculate_padding(8, 4), 0);
    assert_eq!(calculate_padding(0, 16), 0);
    assert_eq!(calculate_padding(17, 16), 15);
    assert_eq!(calculate_padding(5, 1), 0);
}
