use async_embedded::slab::Slab;
use async_embedded::storage::Vec as Storage;

fn keys_of<T>(slab: &Slab<T>) -> Vec<usize> {
    let mut it = slab.iter_mut();
    let mut out = Vec::new();
    while let Some(k) = it.next() {
        out.push(k);
    }
    out
}

#[test]
fn storage_push_until_full() {
    let mut s: Storage<u32> = Storage::new(2);
    assert_eq!(s.capacity(), 2);
    assert_eq!(s.push(7), Ok(()));
    assert_eq!(s.push(8), Ok(()));
    assert_eq!(s.push(9), Err(9));
    assert_eq!(s.len(), 2);
    assert_eq!(*s.get(0), 7);
    assert_eq!(*s.get(1), 8);
}

#[test]
fn storage_replace_returns_previous() {
    let mut s: Storage<u32> = Storage::new(3);
    s.push(1).unwrap();
    s.push(2).unwrap();
    assert_eq!(s.replace(1, 5), 2);
    assert_eq!(*s.get(1), 5);
    assert_eq!(s.len(), 2);
}

#[test]
fn slab_keys_are_assigned_in_order() {
    let mut slab: Slab<&str> = Slab::new(4);
    assert_eq!(slab.insert("a"), Ok(0));
    assert_eq!(slab.insert("b"), Ok(1));
    assert_eq!(slab.insert("c"), Ok(2));
    assert_eq!(slab.len(), 3);
    assert_eq!(*slab.get(1), "b");
}

#[test]
fn slab_removed_key_is_reused() {
    let mut slab: Slab<u32> = Slab::new(4);
    slab.insert(10).unwrap();
    slab.insert(11).unwrap();
    slab.insert(12).unwrap();
    assert_eq!(slab.remove(1), 11);
    assert_eq!(slab.len(), 2);
    assert_eq!(slab.insert(13), Ok(1));
    assert_eq!(*slab.get(1), 13);
    assert_eq!(slab.insert(14), Ok(3));
}

#[test]
fn slab_reuse_is_last_freed_first() {
    let mut slab: Slab<u32> = Slab::new(4);
    for v in 0..4u32 {
        slab.insert(v).unwrap();
    }
    slab.remove(0);
    slab.remove(2);
    assert_eq!(slab.insert(20), Ok(2));
    assert_eq!(slab.insert(21), Ok(0));
    assert_eq!(slab.insert(22), Err(22));
}

#[test]
fn slab_full_insert_returns_value() {
    let mut slab: Slab<String> = Slab::new(2);
    slab.insert("x".to_string()).unwrap();
    slab.insert("y".to_string()).unwrap();
    assert_eq!(slab.insert("z".to_string()), Err("z".to_string()));
    assert_eq!(slab.len(), 2);
    assert_eq!(keys_of(&slab), vec![0, 1]);
}

#[test]
fn slab_of_capacity_zero_refuses_everything() {
    let mut slab: Slab<u8> = Slab::new(0);
    assert_eq!(slab.capacity(), 0);
    assert_eq!(slab.insert(1), Err(1));
    assert_eq!(slab.len(), 0);
    assert_eq!(keys_of(&slab), Vec::<usize>::new());
}

#[test]
fn slab_iteration_skips_vacant_slots() {
    let mut slab: Slab<char> = Slab::new(3);
    slab.insert('a').unwrap();
    slab.insert('b').unwrap();
    slab.insert('c').unwrap();
    slab.remove(1);
    let mut it = slab.iter_mut();
    let mut pairs = Vec::new();
    while let Some(k) = it.next() {
        pairs.push((k, *slab.get(k)));
    }
    assert_eq!(pairs, vec![(0, 'a'), (2, 'c')]);
}

#[test]
fn slab_len_tracks_occupied_count() {
    let mut slab: Slab<u32> = Slab::new(3);
    slab.insert(1).unwrap();
    slab.insert(2).unwrap();
    slab.remove(0);
    slab.remove(1);
    assert_eq!(slab.len(), 0);
    slab.insert(3).unwrap();
    assert_eq!(slab.len(), 1);
    assert!(slab.contains(1));
    assert!(!slab.contains(0));
    assert!(!slab.contains(7));
}


#[test]
fn slab_write_through_key_keeps_occupancy() {
    let mut slab: Slab<u32> = Slab::new(3);
    slab.insert(1).unwrap();
    slab.insert(2).unwrap();
    slab.insert(3).unwrap();
    slab.remove(1);
    let mut it = slab.iter_mut();
    while let Some(k) = it.next() {
        *slab.get_mut(k) += 10;
    }
    assert_eq!(*slab.get(0), 11);
    assert_eq!(*slab.get(2), 13);
    assert_eq!(slab.len(), 2);
    assert_eq!(keys_of(&slab), vec![0, 2]);
    assert_eq!(slab.insert(4), Ok(1));
}

#[test]
fn storage_write_in_place() {
    let mut s: Storage<u32> = Storage::new(1);
    s.push(3).unwrap();
    *s.get_mut(0) = 9;
    assert_eq!(*s.get(0), 9);
}
