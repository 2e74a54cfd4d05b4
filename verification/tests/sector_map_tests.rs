use sector_marshal::marshal::collect_into_map;
use sector_marshal::sector_map::SectorMap;

#[test]
fn fresh_map_is_empty() {
    let m: SectorMap<u32> = SectorMap::new();
    assert_eq!(m.len(), 0);
    assert!(m.get(0).is_none());
}

#[test]
fn insert_keeps_keys_sorted() {
    let mut m: SectorMap<&str> = SectorMap::new();
    m.insert(40, "forty");
    m.insert(10, "ten");
    m.insert(30, "thirty");
    m.insert(20, "twenty");
    assert_eq!(m.keys(), vec![10, 20, 30, 40]);
    assert_eq!(m.len(), 4);
    assert_eq!(m.get(30), Some(&"thirty"));
    assert!(m.get(25).is_none());
}

#[test]
fn insert_overwrites_existing_key() {
    let mut m: SectorMap<u32> = SectorMap::new();
    m.insert(7, 1);
    m.insert(7, 2);
    assert_eq!(m.len(), 1);
    assert_eq!(m.get(7), Some(&2));
}

#[test]
fn entries_iterate_in_key_order() {
    let mut m: SectorMap<char> = SectorMap::new();
    m.insert(3, 'c');
    m.insert(1, 'a');
    m.insert(2, 'b');
    let entries = m.entries();
    assert_eq!(entries, &vec![(1, 'a'), (2, 'b'), (3, 'c')]);
}

#[test]
fn collect_folds_pairs_in_order() {
    let pairs = vec![(5u64, 'x'), (1, 'y'), (5, 'z')];
    let m = collect_into_map(pairs);
    assert_eq!(m.keys(), vec![1, 5]);
    // The later pair for the duplicated key wins.
    assert_eq!(m.get(5), Some(&'z'));
    assert_eq!(m.get(1), Some(&'y'));
}
