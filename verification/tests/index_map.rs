use concordium_rust_sdk::types::index_map::IndexMap;
use concordium_rust_sdk::types::update_map::UpdateMap;

fn listed<V: Clone>(m: &IndexMap<V>) -> Vec<(u8, V)> {
    m.map.iter().map(|(k, v)| (*k, v.clone())).collect()
}

fn listed_wide<V: Clone>(m: &UpdateMap<V>) -> Vec<(u16, V)> {
    m.map.iter().map(|(k, v)| (*k, v.clone())).collect()
}

#[test]
fn inserting_keeps_the_order() {
    let mut m: IndexMap<u16> = IndexMap::new();
    assert_eq!(m.len(), 0);
    assert_eq!(m.get(0), None);
    for (k, v) in [(5u8, 50u16), (1, 10), (9, 90), (0, 0), (255, 2550), (3, 30)] {
        m.insert(k, v);
    }
    assert_eq!(listed(&m), vec![(0, 0), (1, 10), (3, 30), (5, 50), (9, 90), (255, 2550)]);
    assert_eq!(m.len(), 6);
    for (i, (k, v)) in listed(&m).into_iter().enumerate() {
        assert_eq!(m.entries()[i].0, k);
        assert_eq!(m.entries()[i].1, &v);
        assert_eq!(m.get(k), Some(&v));
    }
    for k in [2u8, 4, 6, 10, 254] {
        assert_eq!(m.get(k), None);
    }
}

#[test]
fn inserting_again_replaces() {
    let mut m: IndexMap<u16> = IndexMap::new();
    m.insert(3, 1);
    m.insert(1, 2);
    m.insert(3, 3);
    m.insert(1, 4);
    m.insert(2, 5);
    m.insert(2, 6);
    assert_eq!(listed(&m), vec![(1, 4), (2, 6), (3, 3)]);
    assert_eq!(m.len(), 3);
    assert_eq!(m.get(1), Some(&4));
    assert_eq!(m.get(2), Some(&6));
    assert_eq!(m.get(3), Some(&3));
}

#[test]
fn all_indices_fit() {
    let mut m: IndexMap<u8> = IndexMap::new();
    for k in (0..=255u8).rev() {
        m.insert(k, k ^ 0xff);
    }
    assert_eq!(m.len(), 256);
    for k in 0..=255u8 {
        assert_eq!(m.entries()[k as usize].0, k);
        assert_eq!(m.entries()[k as usize].1, &(k ^ 0xff));
        assert_eq!(m.get(k), Some(&(k ^ 0xff)));
    }
}

#[test]
fn a_map_from_a_list_holds_the_list() {
    let entries = vec![(0u8, 'a'), (3, 'b'), (200, 'c'), (255, 'd')];
    let m = IndexMap::from_increasing(entries.clone());
    assert_eq!(listed(&m), entries);
    assert_eq!(listed(&IndexMap::<char>::from_increasing(vec![])), vec![]);

    let mut grown: IndexMap<char> = IndexMap::new();
    for (k, v) in entries.iter() {
        grown.append(*k, *v);
    }
    assert_eq!(grown, m);
}

#[test]
fn wide_indices_are_kept_in_order() {
    let mut m: UpdateMap<u8> = UpdateMap::new();
    assert_eq!(m.len(), 0);
    for (k, v) in [(300u16, 3u8), (65535, 9), (0, 1), (256, 2), (300, 4)] {
        m.insert(k, v);
    }
    assert_eq!(listed_wide(&m), vec![(0, 1), (256, 2), (300, 4), (65535, 9)]);
    assert_eq!(m.len(), 4);
    for (i, (k, v)) in listed_wide(&m).into_iter().enumerate() {
        assert_eq!(m.entries()[i].0, k);
        assert_eq!(m.entries()[i].1, &v);
    }

    let entries = vec![(1u16, 'x'), (2, 'y'), (40_000, 'z')];
    let from_list = UpdateMap::from_increasing(entries.clone());
    assert_eq!(listed_wide(&from_list), entries);
    let mut grown: UpdateMap<char> = UpdateMap::new();
    for (k, v) in entries.iter() {
        grown.append(*k, *v);
    }
    assert_eq!(grown, from_list);
}
